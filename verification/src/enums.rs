//! The enumerations of the viewer, and the small piece of view state that
//! survives a session: which tab is open and how the process table is sorted.

use vstd::prelude::*;

verus! {

/// The top-level tabs of the viewer.
#[derive(Clone, Copy, PartialEq, Eq, Structural, Debug)]
pub enum EWindow {
    Processes,
    Performance,
    AppHistory,
    StartupApps,
    Users,
    Details,
    Services,
    Settings,
}

/// The sort key of the process table.  `Network` is reserved: its comparator
/// treats every pair of rows as equal, so ranking by it keeps the snapshot
/// order unchanged.
#[derive(Clone, Copy, PartialEq, Eq, Structural, Debug)]
pub enum EProcessesSort {
    Name,
    User,
    Cpu,
    Memory,
    Disk,
    Network,
}

/// The persisted view state: loaded once at startup, mutated by UI selection
/// events, saved once at shutdown.  The ranking and formatting stages only
/// ever read it.
#[derive(Clone, Copy, PartialEq, Eq, Structural, Debug)]
pub struct AppViewState {
    pub current_window: EWindow,
    pub processes_sort: EProcessesSort,
}

impl Default for AppViewState {
    /// A fresh session opens the process tab sorted by CPU.
    fn default() -> (r: Self)
        ensures
            r.current_window == EWindow::Processes,
            r.processes_sort == EProcessesSort::Cpu,
    {
        AppViewState { current_window: EWindow::Processes, processes_sort: EProcessesSort::Cpu }
    }
}

impl AppViewState {
    /// The UI reports that another tab was selected.
    pub fn select_tab(&mut self, window: EWindow)
        ensures
            final(self).current_window == window,
            final(self).processes_sort == old(self).processes_sort,
    {
        self.current_window = window;
    }

    /// The UI reports that another sort column was selected.
    pub fn select_sort(&mut self, sort: EProcessesSort)
        ensures
            final(self).processes_sort == sort,
            final(self).current_window == old(self).current_window,
    {
        self.processes_sort = sort;
    }
}

} // verus!
