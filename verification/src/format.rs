//! The row formatter: raw integer metrics rendered as display strings.
//!
//! One fixed rule, by design not configurable: a magnitude below one
//! hundredth of the unit renders as the literal zero form ("0%", "0 MB",
//! "0 MB/s") — so an idle process shows a calm zero instead of flickering
//! near-zero decimals — and anything at or above the threshold renders with
//! exactly two decimal places and the unit suffix.  All magnitudes are
//! carried as integer hundredths of the unit, truncated, so every rendering
//! is exact.

use vstd::prelude::*;
use vstd::arithmetic::div_mod::{lemma_div_is_ordered, lemma_div_is_ordered_by_denominator};
use crate::model::{
    disk_total_of_pid, find_by_pid, lemma_disk_total_of_pid_absent, lemma_disk_total_of_pid_at,
    ProcessRecord, Snapshot,
};

verus! {

/// The character of one decimal digit.
pub open spec fn digit_char(d: int) -> char {
    if d == 0 {
        '0'
    } else if d == 1 {
        '1'
    } else if d == 2 {
        '2'
    } else if d == 3 {
        '3'
    } else if d == 4 {
        '4'
    } else if d == 5 {
        '5'
    } else if d == 6 {
        '6'
    } else if d == 7 {
        '7'
    } else if d == 8 {
        '8'
    } else {
        '9'
    }
}

/// The decimal digits of `n`, most significant first, no leading zeros
/// (a single zero for `n == 0`).
pub open spec fn spec_digits(n: int) -> Seq<char>
    decreases n,
{
    if n < 10 {
        seq![digit_char(n)]
    } else {
        spec_digits(n / 10).push(digit_char(n % 10))
    }
}

/// A magnitude of `h` hundredths of a unit, rendered: the zero form below
/// the threshold of one hundredth, otherwise the whole part, a point, two
/// fraction digits, and the unit.
pub open spec fn spec_format_hundredths(h: int, unit: Seq<char>) -> Seq<char> {
    if h == 0 {
        seq!['0'] + unit
    } else {
        spec_digits(h / 100) + seq!['.', digit_char((h % 100) / 10), digit_char((h % 100) % 10)]
            + unit
    }
}

/// A percentage, e.g. `"5.00%"`; the input is hundredths of a percent.
pub open spec fn spec_format_percent(h: int) -> Seq<char> {
    spec_format_hundredths(h, seq!['%'])
}

/// Hundredths of a mebibyte in `bytes`, truncated.
pub open spec fn spec_mb_hundredths(bytes: int) -> int {
    bytes * 100 / 1048576
}

/// A byte count rendered in MB, e.g. `"1.50 MB"`.
pub open spec fn spec_format_megabytes(bytes: int) -> Seq<char> {
    spec_format_hundredths(spec_mb_hundredths(bytes), seq![' ', 'M', 'B'])
}

/// A rate rendered in MB/s; the input is hundredths of a MB per second.
pub open spec fn spec_format_rate(h: int) -> Seq<char> {
    spec_format_hundredths(h, seq![' ', 'M', 'B', '/', 's'])
}

/// One digit as a string slice.
fn digit_str(d: u64) -> (r: &'static str)
    requires
        d < 10,
    ensures
        r@ == seq![digit_char(d as int)],
{
    let s: &'static str = match d {
        0 => "0",
        1 => "1",
        2 => "2",
        3 => "3",
        4 => "4",
        5 => "5",
        6 => "6",
        7 => "7",
        8 => "8",
        _ => "9",
    };
    proof {
        reveal_strlit("0");
        reveal_strlit("1");
        reveal_strlit("2");
        reveal_strlit("3");
        reveal_strlit("4");
        reveal_strlit("5");
        reveal_strlit("6");
        reveal_strlit("7");
        reveal_strlit("8");
        reveal_strlit("9");
        assert(s@ =~= seq![digit_char(d as int)]);
    }
    s
}

/// Appends the decimal digits of `n`.
fn push_digits(s: &mut String, n: u64)
    ensures
        final(s)@ == old(s)@ + spec_digits(n as int),
    decreases n,
{
    if n < 10 {
        s.append(digit_str(n));
        proof {
            assert(old(s)@ + seq![digit_char(n as int)] =~= old(s)@ + spec_digits(n as int));
        }
    } else {
        push_digits(s, n / 10);
        s.append(digit_str(n % 10));
        proof {
            assert((old(s)@ + spec_digits(n as int / 10)).push(digit_char(n as int % 10)) =~= old(
                s,
            )@ + spec_digits(n as int));
        }
    }
}

/// Renders `h` hundredths of a unit with the fixed threshold rule.
fn format_hundredths(h: u64, unit: &str) -> (r: String)
    ensures
        r@ == spec_format_hundredths(h as int, unit@),
{
    if h == 0 {
        let mut s = String::from_str("0");
        s.append(unit);
        proof {
            reveal_strlit("0");
            assert(s@ =~= seq!['0'] + unit@);
        }
        s
    } else {
        let mut s = String::new();
        push_digits(&mut s, h / 100);
        s.append(".");
        let frac = h % 100;
        s.append(digit_str(frac / 10));
        s.append(digit_str(frac % 10));
        s.append(unit);
        proof {
            reveal_strlit(".");
            assert(s@ =~= spec_format_hundredths(h as int, unit@));
        }
        s
    }
}

/// Formats a percentage from hundredths of a percent: `0` gives `"0%"`,
/// `1` gives `"0.01%"`, `500` gives `"5.00%"`.
pub fn format_percent(hundredths: u64) -> (r: String)
    ensures
        r@ == spec_format_percent(hundredths as int),
{
    let s = format_hundredths(hundredths, "%");
    proof {
        reveal_strlit("%");
        assert("%"@ =~= seq!['%']);
    }
    s
}

/// Hundredths of a MB held in `bytes`, truncated: one byte gives 0, one and
/// a half mebibytes give 150.
pub fn mb_hundredths(bytes: u64) -> (r: u64)
    ensures
        r == spec_mb_hundredths(bytes as int),
{
    let wide: u128 = (bytes as u128) * 100 / 1048576;
    proof {
        lemma_div_is_ordered((bytes as int) * 100, 0xffff_ffff_ffff_ffffu64 as int * 100, 1048576);
    }
    wide as u64
}

/// Formats a byte count in MB: below one hundredth of a MB the literal
/// `"0 MB"`, otherwise two decimals, as in `"1.50 MB"`.
pub fn format_megabytes(bytes: u64) -> (r: String)
    ensures
        r@ == spec_format_megabytes(bytes as int),
{
    let h = mb_hundredths(bytes);
    let s = format_hundredths(h, " MB");
    proof {
        reveal_strlit(" MB");
        assert(" MB"@ =~= seq![' ', 'M', 'B']);
    }
    s
}

/// Formats a disk rate from hundredths of a MB per second, as in
/// `"3.25 MB/s"` or the idle `"0 MB/s"`.
pub fn format_rate(hundredths: u64) -> (r: String)
    ensures
        r@ == spec_format_rate(hundredths as int),
{
    let s = format_hundredths(hundredths, " MB/s");
    proof {
        reveal_strlit(" MB/s");
        assert(" MB/s"@ =~= seq![' ', 'M', 'B', '/', 's']);
    }
    s
}

/// A record's whole-system CPU figure, in hundredths of a percent: the
/// provider's per-core-scaled figure divided by the core count, truncated.
pub fn cpu_percent_normalized(rec: &ProcessRecord, logical_core_count: u64) -> (r: u64)
    requires
        logical_core_count >= 1,
    ensures
        r == rec.cpu_usage_raw as int / logical_core_count as int,
{
    rec.cpu_usage_raw / logical_core_count
}

/// The disk bytes attributed to the current interval: the growth of the
/// record's cumulative counters over their value in the previous snapshot.
/// A process absent from the previous snapshot, or one whose counters went
/// backwards (the OS reused its pid), counts from zero.
pub open spec fn spec_disk_delta(prev: Seq<ProcessRecord>, cur: ProcessRecord) -> int {
    let base = disk_total_of_pid(prev, cur.pid);
    if cur.disk_total() >= base {
        cur.disk_total() - base
    } else {
        cur.disk_total()
    }
}

/// The true disk rate of the interval, in hundredths of a MB per second,
/// truncated: interval bytes over elapsed milliseconds.
pub open spec fn spec_disk_rate(prev: Seq<ProcessRecord>, cur: ProcessRecord, elapsed_ms: int) -> int {
    spec_disk_delta(prev, cur) * 100000 / (1048576 * elapsed_ms)
}

/// Computes a record's disk rate against the previous snapshot.  The
/// provider's counters are cumulative since process start, so a rate needs
/// the previous snapshot's counters as a baseline and the milliseconds
/// elapsed between the two refreshes.
pub fn disk_rate_hundredths(previous: &Snapshot, cur: &ProcessRecord, elapsed_ms: u64) -> (r: u64)
    requires
        elapsed_ms >= 1,
    ensures
        r == spec_disk_rate(previous.processes@, *cur, elapsed_ms as int),
{
    let cur_total: u128 = cur.disk_read_bytes as u128 + cur.disk_written_bytes as u128;
    let base: u128 = match find_by_pid(&previous.processes, cur.pid) {
        Option::Some(i) => {
            proof {
                lemma_disk_total_of_pid_at(previous.processes@, cur.pid, i as int);
            }
            let prev_rec = &previous.processes[i];
            prev_rec.disk_read_bytes as u128 + prev_rec.disk_written_bytes as u128
        },
        Option::None => {
            proof {
                lemma_disk_total_of_pid_absent(previous.processes@, cur.pid);
            }
            0
        },
    };
    let delta: u128 = if cur_total >= base {
        cur_total - base
    } else {
        cur_total
    };
    let divisor: u128 = 1048576u128 * (elapsed_ms as u128);
    let wide: u128 = delta * 100000 / divisor;
    proof {
        let max_delta: int = 0x1ffff_ffff_ffff_fffeu128 as int;
        lemma_div_is_ordered_by_denominator(
            delta as int * 100000,
            1048576,
            1048576 * (elapsed_ms as int),
        );
        lemma_div_is_ordered(delta as int * 100000, max_delta * 100000, 1048576);
        assert(max_delta * 100000 / 1048576 < 0x1_0000_0000_0000_0000);
    }
    wide as u64
}

/// One fully rendered row of the process table, ready for a UI sink.
/// The owner is handed on as the raw identifier: resolving it to a user
/// name is the provider's job, and an absent identifier renders blank.
pub struct DisplayRow {
    pub pid: u64,
    pub name: String,
    pub user_id: Option<u64>,
    pub cpu_text: String,
    pub memory_text: String,
    pub disk_text: String,
    pub network_text: String,
}

/// Renders one ranked record: the normalized CPU percentage, the resident
/// memory in MB, the disk rate handed in by the caller (computed against
/// the previous snapshot by [`disk_rate_hundredths`]), and the inert
/// network column, which always reads `"0 Mbps"` until that metric exists.
pub fn display_row(rec: &ProcessRecord, logical_core_count: u64, disk_rate: u64) -> (r: DisplayRow)
    requires
        logical_core_count >= 1,
    ensures
        r.pid == rec.pid,
        r.name == rec.name,
        r.user_id == rec.user_id,
        r.cpu_text@ == spec_format_percent(rec.cpu_usage_raw as int / logical_core_count as int),
        r.memory_text@ == spec_format_megabytes(rec.memory_bytes as int),
        r.disk_text@ == spec_format_rate(disk_rate as int),
        r.network_text@ == seq!['0', ' ', 'M', 'b', 'p', 's'],
{
    let network_text = String::from_str("0 Mbps");
    proof {
        reveal_strlit("0 Mbps");
        assert(network_text@ =~= seq!['0', ' ', 'M', 'b', 'p', 's']);
    }
    DisplayRow {
        pid: rec.pid,
        name: rec.name.clone(),
        user_id: rec.user_id,
        cpu_text: format_percent(cpu_percent_normalized(rec, logical_core_count)),
        memory_text: format_megabytes(rec.memory_bytes),
        disk_text: format_rate(disk_rate),
        network_text,
    }
}

/// Header figure: used memory as a whole percentage of total memory,
/// truncated; a machine reporting no memory shows zero.
pub fn memory_percent_of_total(used_bytes: u64, total_bytes: u64) -> (r: u64)
    requires
        used_bytes <= total_bytes,
    ensures
        r == (if total_bytes > 0 {
            used_bytes as int * 100 / total_bytes as int
        } else {
            0
        }),
{
    if total_bytes == 0 {
        0
    } else {
        let wide: u128 = (used_bytes as u128) * 100 / (total_bytes as u128);
        proof {
            assert(used_bytes as int * 100 / total_bytes as int <= 100) by (nonlinear_arith)
                requires
                    0 < total_bytes,
                    used_bytes <= total_bytes,
            ;
        }
        wide as u64
    }
}

} // verus!
