//! Process metrics sampling and ranking engine for a task-manager style
//! viewer.
//!
//! The library owns the logic of the viewer: deciding when a new metrics
//! snapshot is due, ordering the processes of a snapshot by a user-selected
//! sort key, turning raw counters into display strings, and interpreting the
//! outcome of process actions.  Reading the OS process tables and rendering
//! the table are left to the surrounding application, which hands plain
//! values in and takes plain values back.

pub mod action;
pub mod enums;
pub mod format;
pub mod model;
pub mod order;
pub mod rank;
pub mod scheduler;
pub mod view;
