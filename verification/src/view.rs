//! The per-tick view computation, whole: rank the snapshot, then render
//! every row.
//!
//! This is what one UI tick consumes after the scheduler spoke: the rows in
//! their final order, every figure already formatted.  The previous
//! snapshot and the elapsed interval only feed the disk-rate column.

use vstd::prelude::*;
use crate::enums::EProcessesSort;
use crate::format::{
    disk_rate_hundredths, display_row, spec_disk_rate, spec_format_megabytes, spec_format_percent,
    spec_format_rate, DisplayRow,
};
use crate::model::{ProcessRecord, Snapshot};
use crate::rank::{lemma_rank_complete_and_sorted, rank, sort_by_key};

verus! {

/// How a rendered row relates to the ranked record it displays.
pub open spec fn row_renders(
    row: DisplayRow,
    rec: ProcessRecord,
    logical_core_count: u64,
    prev: Seq<ProcessRecord>,
    elapsed_ms: int,
) -> bool {
    &&& row.pid == rec.pid
    &&& row.name == rec.name
    &&& row.user_id == rec.user_id
    &&& row.cpu_text@ == spec_format_percent(
        rec.cpu_usage_raw as int / logical_core_count as int,
    )
    &&& row.memory_text@ == spec_format_megabytes(rec.memory_bytes as int)
    &&& row.disk_text@ == spec_format_rate(spec_disk_rate(prev, rec, elapsed_ms))
    &&& row.network_text@ == seq!['0', ' ', 'M', 'b', 'p', 's']
}

/// Renders the whole process table for one tick: one row per process of
/// `current`, in the ranking order of `sort_key`, each figure formatted,
/// each disk rate computed against `previous` over `elapsed_ms`.
pub fn render_rows(
    current: &Snapshot,
    previous: &Snapshot,
    elapsed_ms: u64,
    sort_key: EProcessesSort,
) -> (r: Vec<DisplayRow>)
    requires
        current.logical_core_count >= 1,
        elapsed_ms >= 1,
    ensures
        r@.len() == current.processes@.len(),
        forall|i: int|
            0 <= i < r@.len() ==> row_renders(
                r@[i],
                sort_by_key(sort_key, current.processes@)[i],
                current.logical_core_count,
                previous.processes@,
                elapsed_ms as int,
            ),
{
    proof {
        lemma_rank_complete_and_sorted(sort_key, current.processes@);
    }
    let ranked = rank(current, sort_key);
    let mut rows: Vec<DisplayRow> = Vec::new();
    let mut i: usize = 0;
    while i < ranked.len()
        invariant
            i <= ranked@.len(),
            ranked@ == sort_by_key(sort_key, current.processes@),
            current.logical_core_count >= 1,
            elapsed_ms >= 1,
            rows@.len() == i,
            forall|j: int|
                0 <= j < i ==> row_renders(
                    rows@[j],
                    ranked@[j],
                    current.logical_core_count,
                    previous.processes@,
                    elapsed_ms as int,
                ),
        decreases ranked@.len() - i,
    {
        let rate = disk_rate_hundredths(previous, &ranked[i], elapsed_ms);
        rows.push(display_row(&ranked[i], current.logical_core_count, rate));
        i += 1;
    }
    rows
}

} // verus!
