//! The comparators of the ranking engine: one total preorder per sort key.
//!
//! Every comparator is total and transitive, which is what a sort needs;
//! none is antisymmetric, since distinct processes may tie on a metric.
//! Ties are resolved by the ranking engine itself, which keeps snapshot
//! order.  All metrics are exact integers, so no record is ever unorderable
//! and ranking can never abort on a malformed value.

use vstd::prelude::*;
use crate::enums::EProcessesSort;
use crate::model::ProcessRecord;

verus! {

/// Lexicographic order on character sequences, by code point, with a prefix
/// ordered before its extensions.
pub open spec fn lex_le(a: Seq<char>, b: Seq<char>) -> bool
    decreases a.len(),
{
    if a.len() == 0 {
        true
    } else if b.len() == 0 {
        false
    } else if (a[0] as u32) == (b[0] as u32) {
        lex_le(a.drop_first(), b.drop_first())
    } else {
        (a[0] as u32) < (b[0] as u32)
    }
}

pub proof fn lemma_lex_le_total(a: Seq<char>, b: Seq<char>)
    ensures
        lex_le(a, b) || lex_le(b, a),
    decreases a.len(),
{
    if a.len() > 0 && b.len() > 0 && (a[0] as u32) == (b[0] as u32) {
        lemma_lex_le_total(a.drop_first(), b.drop_first());
    }
}

pub proof fn lemma_lex_le_trans(a: Seq<char>, b: Seq<char>, c: Seq<char>)
    requires
        lex_le(a, b),
        lex_le(b, c),
    ensures
        lex_le(a, c),
    decreases a.len(),
{
    if a.len() > 0 {
        if (a[0] as u32) == (b[0] as u32) && (b[0] as u32) == (c[0] as u32) {
            lemma_lex_le_trans(a.drop_first(), b.drop_first(), c.drop_first());
        }
    }
}

/// Ascending order on optional owner identifiers, an absent owner lowest.
pub open spec fn user_le(a: Option<u64>, b: Option<u64>) -> bool {
    match a {
        Option::None => true,
        Option::Some(x) => match b {
            Option::None => false,
            Option::Some(y) => x <= y,
        },
    }
}

/// The total preorder selected by a sort key: names and owners ascending,
/// the load metrics descending (heaviest first), and `Network` a tie
/// everywhere, so that ranking by it keeps the snapshot order.
pub open spec fn key_le(k: EProcessesSort, a: ProcessRecord, b: ProcessRecord) -> bool {
    match k {
        EProcessesSort::Name => lex_le(a.name@, b.name@),
        EProcessesSort::User => user_le(a.user_id, b.user_id),
        EProcessesSort::Cpu => a.cpu_usage_raw >= b.cpu_usage_raw,
        EProcessesSort::Memory => a.memory_bytes >= b.memory_bytes,
        EProcessesSort::Disk => a.disk_total() >= b.disk_total(),
        EProcessesSort::Network => true,
    }
}

/// Any two records are comparable under every sort key.
pub proof fn lemma_key_le_total(k: EProcessesSort, a: ProcessRecord, b: ProcessRecord)
    ensures
        key_le(k, a, b) || key_le(k, b, a),
{
    if k is Name {
        lemma_lex_le_total(a.name@, b.name@);
    }
}

pub proof fn lemma_key_le_trans(
    k: EProcessesSort,
    a: ProcessRecord,
    b: ProcessRecord,
    c: ProcessRecord,
)
    requires
        key_le(k, a, b),
        key_le(k, b, c),
    ensures
        key_le(k, a, c),
{
    if k is Name {
        lemma_lex_le_trans(a.name@, b.name@, c.name@);
    }
}

/// Executable lexicographic comparison, character by character.
pub fn lex_le_exec(a: &str, b: &str) -> (r: bool)
    ensures
        r == lex_le(a@, b@),
{
    let a_len = a.unicode_len();
    let b_len = b.unicode_len();
    proof {
        assert(a@.skip(0) =~= a@);
        assert(b@.skip(0) =~= b@);
    }
    let mut i: usize = 0;
    loop
        invariant
            i <= a@.len(),
            i <= b@.len(),
            a_len == a@.len(),
            b_len == b@.len(),
            lex_le(a@, b@) == lex_le(a@.skip(i as int), b@.skip(i as int)),
        decreases a@.len() - i,
    {
        if i == a_len {
            return true;
        }
        if i == b_len {
            return false;
        }
        let ca = a.get_char(i) as u32;
        let cb = b.get_char(i) as u32;
        if ca != cb {
            return ca < cb;
        }
        proof {
            assert(a@.skip(i as int).drop_first() =~= a@.skip(i as int + 1));
            assert(b@.skip(i as int).drop_first() =~= b@.skip(i as int + 1));
        }
        i += 1;
    }
}

pub fn user_le_exec(a: Option<u64>, b: Option<u64>) -> (r: bool)
    ensures
        r == user_le(a, b),
{
    match a {
        Option::None => true,
        Option::Some(x) => match b {
            Option::None => false,
            Option::Some(y) => x <= y,
        },
    }
}

/// Executable comparator for a sort key.  The disk sums are taken in a
/// wider integer, so two huge cumulative counters can never wrap and make
/// the comparison abort: every record stays orderable.
pub fn key_le_exec(k: EProcessesSort, a: &ProcessRecord, b: &ProcessRecord) -> (r: bool)
    ensures
        r == key_le(k, *a, *b),
{
    match k {
        EProcessesSort::Name => lex_le_exec(a.name.as_str(), b.name.as_str()),
        EProcessesSort::User => user_le_exec(a.user_id, b.user_id),
        EProcessesSort::Cpu => a.cpu_usage_raw >= b.cpu_usage_raw,
        EProcessesSort::Memory => a.memory_bytes >= b.memory_bytes,
        EProcessesSort::Disk => {
            let at = a.disk_read_bytes as u128 + a.disk_written_bytes as u128;
            let bt = b.disk_read_bytes as u128 + b.disk_written_bytes as u128;
            at >= bt
        },
        EProcessesSort::Network => true,
    }
}

} // verus!
