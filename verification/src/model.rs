//! The metrics snapshot: one consistent point-in-time capture of every live
//! process and of the global counters, as plain values.
//!
//! The provider reports CPU load as a percentage scaled per logical core; the
//! library keeps every percentage as an integer count of hundredths of a
//! percent, so that a whole snapshot is made of exact integers.  Disk
//! counters are cumulative bytes since process start, not interval deltas.

use vstd::prelude::*;

verus! {

/// One live OS process at sample time.
///
/// `pid` is unique within a snapshot but may be reused by the OS across
/// snapshots.  `user_id` is `None` when the OS denies visibility of the
/// owner; such a record still ranks and renders, with the owner blank.
pub struct ProcessRecord {
    pub pid: u64,
    pub name: String,
    pub user_id: Option<u64>,
    /// CPU load in hundredths of a percent, scaled per logical core: a
    /// process saturating one core reports about 10000 here whatever the
    /// core count.
    pub cpu_usage_raw: u64,
    /// Resident memory in bytes.
    pub memory_bytes: u64,
    /// Cumulative bytes read from disk since process start.
    pub disk_read_bytes: u64,
    /// Cumulative bytes written to disk since process start.
    pub disk_written_bytes: u64,
}

impl ProcessRecord {
    /// The combined disk counter a record is ranked by.  Stated over `int`,
    /// so the sum of the two `u64` counters never wraps in contracts.
    pub open spec fn disk_total(&self) -> int {
        self.disk_read_bytes + self.disk_written_bytes
    }
}

impl Clone for ProcessRecord {
    fn clone(&self) -> (r: Self)
        ensures
            r == *self,
    {
        ProcessRecord {
            pid: self.pid,
            name: self.name.clone(),
            user_id: self.user_id,
            cpu_usage_raw: self.cpu_usage_raw,
            memory_bytes: self.memory_bytes,
            disk_read_bytes: self.disk_read_bytes,
            disk_written_bytes: self.disk_written_bytes,
        }
    }
}

/// The full system state at one refresh instant.
///
/// `processes` holds every process alive at the moment of sampling, in the
/// order the provider enumerated them; that order has no further meaning,
/// but ties under ranking keep it.  A process present in the previous
/// snapshot and absent here has exited and is simply gone: no event is
/// raised for it.
pub struct Snapshot {
    pub processes: Vec<ProcessRecord>,
    /// Number of logical cores, at least 1; divides the per-core-scaled CPU
    /// figures into whole-system percentages.
    pub logical_core_count: u64,
    /// Whole-system CPU load in hundredths of a percent, for the header.
    pub global_cpu_usage: u64,
    pub used_memory_bytes: u64,
    pub total_memory_bytes: u64,
}

impl Snapshot {
    /// Every pid occurs at most once in the snapshot.
    pub open spec fn pids_unique(&self) -> bool {
        forall|i: int, j: int|
            0 <= i < j < self.processes@.len() ==> self.processes@[i].pid != self.processes@[j].pid
    }

    /// What a provider-built snapshot always satisfies: a positive core
    /// count and unique pids.
    pub open spec fn wf(&self) -> bool {
        &&& self.logical_core_count >= 1
        &&& self.pids_unique()
    }
}

/// Whether some record of `s` carries `pid`.
pub open spec fn has_pid(s: Seq<ProcessRecord>, pid: u64) -> bool {
    exists|i: int| 0 <= i < s.len() && s[i].pid == pid
}

/// The combined disk counter of the first record of `s` carrying `pid`,
/// or 0 when none does.  Used as the baseline when turning cumulative
/// counters into per-interval rates.
pub open spec fn disk_total_of_pid(s: Seq<ProcessRecord>, pid: u64) -> int
    decreases s.len(),
{
    if s.len() == 0 {
        0
    } else if s[0].pid == pid {
        s[0].disk_total()
    } else {
        disk_total_of_pid(s.drop_first(), pid)
    }
}

/// `disk_total_of_pid` read off at the first matching index.
pub proof fn lemma_disk_total_of_pid_at(s: Seq<ProcessRecord>, pid: u64, i: int)
    requires
        0 <= i < s.len(),
        s[i].pid == pid,
        forall|j: int| 0 <= j < i ==> s[j].pid != pid,
    ensures
        disk_total_of_pid(s, pid) == s[i].disk_total(),
    decreases i,
{
    if i > 0 {
        lemma_disk_total_of_pid_at(s.drop_first(), pid, i - 1);
    }
}

/// `disk_total_of_pid` of a pid that no record carries.
pub proof fn lemma_disk_total_of_pid_absent(s: Seq<ProcessRecord>, pid: u64)
    requires
        !has_pid(s, pid),
    ensures
        disk_total_of_pid(s, pid) == 0,
    decreases s.len(),
{
    if s.len() > 0 {
        assert(s[0].pid != pid);
        assert(!has_pid(s.drop_first(), pid)) by {
            if has_pid(s.drop_first(), pid) {
                let i = choose|i: int|
                    0 <= i < s.drop_first().len() && s.drop_first()[i].pid == pid;
                assert(s[i + 1].pid == pid);
            }
        }
        lemma_disk_total_of_pid_absent(s.drop_first(), pid);
    }
}

/// Index of the first record carrying `pid`, or `None` when the pid is
/// absent from the snapshot.
pub fn find_by_pid(processes: &Vec<ProcessRecord>, pid: u64) -> (r: Option<usize>)
    ensures
        match r {
            Some(i) => {
                &&& i < processes@.len()
                &&& processes@[i as int].pid == pid
                &&& forall|j: int| 0 <= j < i ==> processes@[j].pid != pid
            },
            None => !has_pid(processes@, pid),
        },
{
    let mut i: usize = 0;
    while i < processes.len()
        invariant
            i <= processes@.len(),
            forall|j: int| 0 <= j < i ==> processes@[j].pid != pid,
        decreases processes@.len() - i,
    {
        if processes[i].pid == pid {
            return Some(i);
        }
        i += 1;
    }
    None
}

} // verus!
