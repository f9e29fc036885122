//! The process ranking engine: a deterministic, stable ordering of a
//! snapshot's processes under a sort key.
//!
//! The order produced is pinned down completely by the spec function
//! [`sort_by_key`], a stable insertion sort: each process is inserted after
//! every process it does not strictly precede, so ties keep the snapshot's
//! enumeration order.  [`rank`] returns exactly that sequence, reads the
//! snapshot without touching it, and never fails: an empty snapshot yields
//! an empty ranking.

use vstd::prelude::*;
use vstd::seq_lib::{
    to_multiset_build, to_multiset_contains, to_multiset_insert, to_multiset_len,
    to_multiset_remove,
};
use crate::enums::EProcessesSort;
use crate::model::{has_pid, ProcessRecord, Snapshot};
use crate::order::{key_le, key_le_exec, lemma_key_le_total, lemma_key_le_trans};

verus! {

/// Stable insertion of `x` into `s`: `x` passes every element that does not
/// strictly follow it, so among ties `x` comes last.
pub open spec fn insert_sorted(
    k: EProcessesSort,
    x: ProcessRecord,
    s: Seq<ProcessRecord>,
) -> Seq<ProcessRecord>
    decreases s.len(),
{
    if s.len() == 0 {
        seq![x]
    } else if key_le(k, s[0], x) {
        seq![s[0]] + insert_sorted(k, x, s.drop_first())
    } else {
        seq![x] + s
    }
}

/// The ranking order of a process sequence: insert each record, first to
/// last, into the ranking of the records before it.  Inserting later
/// records after their ties makes the sort stable.
pub open spec fn sort_by_key(k: EProcessesSort, s: Seq<ProcessRecord>) -> Seq<ProcessRecord>
    decreases s.len(),
{
    if s.len() == 0 {
        Seq::empty()
    } else {
        insert_sorted(k, s.last(), sort_by_key(k, s.drop_last()))
    }
}

/// Every earlier row precedes every later row under the key's comparator.
pub open spec fn sorted_by_key(k: EProcessesSort, s: Seq<ProcessRecord>) -> bool {
    forall|i: int, j: int| 0 <= i < j < s.len() ==> key_le(k, s[i], s[j])
}

/// The position at which `insert_sorted` places `x`: the first index whose
/// element strictly follows `x`, or the end.  Ties all `key_le` `x`, so they
/// lie before that index and `x` lands after them.
proof fn lemma_insert_sorted_position(
    k: EProcessesSort,
    x: ProcessRecord,
    s: Seq<ProcessRecord>,
) -> (p: int)
    ensures
        0 <= p <= s.len(),
        forall|j: int| 0 <= j < p ==> key_le(k, s[j], x),
        p < s.len() ==> !key_le(k, s[p as int], x),
        insert_sorted(k, x, s) == s.insert(p, x),
    decreases s.len(),
{
    if s.len() == 0 {
        assert(insert_sorted(k, x, s) =~= s.insert(0, x));
        0
    } else if key_le(k, s[0], x) {
        let q = lemma_insert_sorted_position(k, x, s.drop_first());
        assert(seq![s[0]] + s.drop_first().insert(q, x) =~= s.insert(q + 1, x));
        assert forall|j: int| 0 <= j < q + 1 implies key_le(k, s[j], x) by {
            if j > 0 {
                assert(key_le(k, s.drop_first()[j - 1], x));
            }
        }
        if q + 1 < s.len() {
            assert(s.drop_first()[q] == s[q + 1]);
        }
        q + 1
    } else {
        assert(seq![x] + s =~= s.insert(0, x));
        0
    }
}

/// Inserting into a ranked sequence keeps it ranked.
proof fn lemma_insert_sorted_sorted(
    k: EProcessesSort,
    x: ProcessRecord,
    s: Seq<ProcessRecord>,
)
    requires
        sorted_by_key(k, s),
    ensures
        sorted_by_key(k, insert_sorted(k, x, s)),
{
    let p = lemma_insert_sorted_position(k, x, s);
    let t = insert_sorted(k, x, s);
    assert(t == s.insert(p, x));
    assert forall|i: int, j: int| 0 <= i < j < t.len() implies key_le(k, t[i], t[j]) by {
        if p < s.len() {
            lemma_key_le_total(k, s[p], x);
        }
        if i == p && j > p {
            // t[i] is x itself; x precedes s[p] and, by transitivity, all
            // elements from p on.
            if j - 1 > p {
                lemma_key_le_trans(k, x, s[p], s[j - 1]);
            }
        }
    }
}

/// The heart of the ranking laws: ranking returns exactly one row per
/// process of the snapshot — the ranked sequence is a permutation of the
/// input, neither losing nor duplicating a record — and the rows stand in
/// the total preorder of the selected key.  Being a spec function of the
/// snapshot and key alone, the ranking is also deterministic: ranking the
/// same unmodified snapshot again, by the same key, gives the identical
/// sequence whatever was ranked in between.
pub proof fn lemma_rank_complete_and_sorted(k: EProcessesSort, s: Seq<ProcessRecord>)
    ensures
        sort_by_key(k, s).len() == s.len(),
        sort_by_key(k, s).to_multiset() == s.to_multiset(),
        sorted_by_key(k, sort_by_key(k, s)),
    decreases s.len(),
{
    if s.len() > 0 {
        let rest = s.drop_last();
        let x = s.last();
        lemma_rank_complete_and_sorted(k, rest);
        let sorted_rest = sort_by_key(k, rest);
        let p = lemma_insert_sorted_position(k, x, sorted_rest);
        to_multiset_insert(sorted_rest, p, x);
        assert(rest.push(x) =~= s);
        to_multiset_build(rest, x);
        lemma_insert_sorted_sorted(k, x, sorted_rest);
        to_multiset_len(s);
        to_multiset_len(sort_by_key(k, s));
        assert(sort_by_key(k, s) == sorted_rest.insert(p, x));
        assert(sort_by_key(k, s).to_multiset() == sorted_rest.to_multiset().insert(x));
        assert(s.to_multiset() == rest.to_multiset().insert(x));
    } else {
        assert(s =~= Seq::<ProcessRecord>::empty());
    }
}

/// A process absent from a snapshot never appears in its ranking: one that
/// exited between two refreshes simply has no row, and raises nothing.
pub proof fn lemma_rank_drops_exited(k: EProcessesSort, s: Seq<ProcessRecord>, pid: u64)
    requires
        !has_pid(s, pid),
    ensures
        !has_pid(sort_by_key(k, s), pid),
{
    lemma_rank_complete_and_sorted(k, s);
    let t = sort_by_key(k, s);
    if has_pid(t, pid) {
        let i = choose|i: int| 0 <= i < t.len() && t[i].pid == pid;
        let x = t[i];
        assert(t.contains(x));
        to_multiset_contains(t, x);
        to_multiset_contains(s, x);
        let j = choose|j: int| 0 <= j < s.len() && s[j] == x;
        assert(s[j].pid == pid);
    }
}

/// Ranking by the reserved `Network` key ties every pair, so the ranking is
/// the snapshot order itself — a witness that ties never reorder.
pub proof fn lemma_network_rank_is_snapshot_order(s: Seq<ProcessRecord>)
    ensures
        sort_by_key(EProcessesSort::Network, s) == s,
    decreases s.len(),
{
    let k = EProcessesSort::Network;
    if s.len() > 0 {
        let rest = s.drop_last();
        lemma_network_rank_is_snapshot_order(rest);
        let p = lemma_insert_sorted_position(k, s.last(), rest);
        assert(p == rest.len());
        assert(rest.insert(p, s.last()) =~= s);
    }
}

/// Ranking an already ranked sequence leaves it untouched: together with
/// completeness this makes re-ranking by an unchanged key a no-op.
pub proof fn lemma_rank_idempotent(k: EProcessesSort, s: Seq<ProcessRecord>)
    requires
        sorted_by_key(k, s),
    ensures
        sort_by_key(k, s) == s,
    decreases s.len(),
{
    if s.len() > 0 {
        let rest = s.drop_last();
        assert(sorted_by_key(k, rest));
        lemma_rank_idempotent(k, rest);
        let p = lemma_insert_sorted_position(k, s.last(), rest);
        assert(p == rest.len()) by {
            if p < rest.len() {
                assert(key_le(k, s[p as int], s[s.len() - 1]));
            }
        }
        assert(rest.insert(p, s.last()) =~= s);
    }
}

/// Ranking a ranking changes nothing: the first pass already ordered the
/// rows, and a stable sort leaves an ordered sequence alone.
pub proof fn lemma_rank_fixpoint(k: EProcessesSort, s: Seq<ProcessRecord>)
    ensures
        sort_by_key(k, sort_by_key(k, s)) == sort_by_key(k, s),
{
    lemma_rank_complete_and_sorted(k, s);
    lemma_rank_idempotent(k, sort_by_key(k, s));
}

/// Two distinct positions holding one value mean the value is counted at
/// least twice in the sequence's multiset.
proof fn lemma_duplicate_value_counts_twice(s: Seq<ProcessRecord>, i: int, j: int)
    requires
        0 <= i < j < s.len(),
        s[i] == s[j],
    ensures
        s.to_multiset().count(s[i]) >= 2,
{
    to_multiset_remove(s, i);
    let rest = s.remove(i);
    assert(rest[j - 1] == s[j]);
    assert(rest.contains(s[j]));
    to_multiset_contains(rest, s[j]);
}

/// Law: in a snapshot with unique pids — every snapshot a provider builds —
/// each pid keeps exactly one row after ranking, under every sort key.
pub proof fn lemma_rank_one_row_per_pid(k: EProcessesSort, s: Snapshot)
    requires
        s.pids_unique(),
    ensures
        forall|i: int, j: int|
            0 <= i < j < sort_by_key(k, s.processes@).len() ==> sort_by_key(
                k,
                s.processes@,
            )[i].pid != sort_by_key(k, s.processes@)[j].pid,
{
    lemma_rank_complete_and_sorted(k, s.processes@);
    let t = sort_by_key(k, s.processes@);
    let u = s.processes@;
    assert forall|i: int, j: int| 0 <= i < j < t.len() implies t[i].pid != t[j].pid by {
        if t[i].pid == t[j].pid {
            if t[i] == t[j] {
                // one record value in two rows: it is counted twice in the
                // snapshot too, so the snapshot holds it at two positions
                lemma_duplicate_value_counts_twice(t, i, j);
                to_multiset_contains(u, t[i]);
                let a = choose|a: int| 0 <= a < u.len() && u[a] == t[i];
                to_multiset_remove(u, a);
                let rest = u.remove(a);
                to_multiset_contains(rest, t[i]);
                let b = choose|b: int| 0 <= b < rest.len() && rest[b] == t[i];
                if b < a {
                    assert(u[b] == t[i]);
                    assert(u[b].pid == u[a].pid);
                } else {
                    assert(u[b + 1] == t[i]);
                    assert(u[b + 1].pid == u[a].pid);
                }
            } else {
                // two different record values sharing a pid: both occur in
                // the snapshot, at two positions
                assert(t.contains(t[i]));
                assert(t.contains(t[j]));
                to_multiset_contains(t, t[i]);
                to_multiset_contains(t, t[j]);
                to_multiset_contains(u, t[i]);
                to_multiset_contains(u, t[j]);
                let a = choose|a: int| 0 <= a < u.len() && u[a] == t[i];
                let b = choose|b: int| 0 <= b < u.len() && u[b] == t[j];
                assert(u[a].pid == u[b].pid);
            }
        }
    }
}

/// First index of `out` whose element strictly follows `x`, or `out.len()`.
fn insertion_point(k: EProcessesSort, out: &Vec<ProcessRecord>, x: &ProcessRecord) -> (p: usize)
    ensures
        p <= out@.len(),
        forall|j: int| 0 <= j < p ==> key_le(k, out@[j], *x),
        p < out@.len() ==> !key_le(k, out@[p as int], *x),
{
    let mut p: usize = 0;
    while p < out.len()
        invariant
            p <= out@.len(),
            forall|j: int| 0 <= j < p ==> key_le(k, out@[j], *x),
        decreases out@.len() - p,
    {
        if !key_le_exec(k, &out[p], x) {
            return p;
        }
        p += 1;
    }
    p
}

/// Inserts `x` into the ranked vector at its stable position.
fn insert_ranked(k: EProcessesSort, out: &mut Vec<ProcessRecord>, x: ProcessRecord)
    ensures
        final(out)@ == insert_sorted(k, x, old(out)@),
{
    let p = insertion_point(k, out, &x);
    proof {
        let q = lemma_insert_sorted_position(k, x, out@);
        // Two candidate positions agree: whichever is smaller would have to
        // both satisfy and violate the comparator at that index.
        if p < q {
            assert(key_le(k, out@[p as int], x));
        }
        if q < p {
            assert(key_le(k, out@[q], x));
        }
        assert(p == q);
    }
    out.insert(p, x);
}

/// Ranks the snapshot's processes by the selected key.
///
/// Returns one owned copy of each record, in exactly the order
/// [`sort_by_key`] gives: a stable total ordering under the key's
/// comparator.  The snapshot is only read; ranking the same snapshot again
/// by the same key therefore reproduces the same sequence.  An empty
/// snapshot yields an empty ranking, and no input makes this fail.
pub fn rank(snapshot: &Snapshot, sort_key: EProcessesSort) -> (r: Vec<ProcessRecord>)
    ensures
        r@ == sort_by_key(sort_key, snapshot.processes@),
{
    let mut out: Vec<ProcessRecord> = Vec::new();
    let n = snapshot.processes.len();
    proof {
        assert(snapshot.processes@.take(0) =~= Seq::<ProcessRecord>::empty());
    }
    let mut i: usize = 0;
    while i < n
        invariant
            n == snapshot.processes@.len(),
            i <= n,
            out@ == sort_by_key(sort_key, snapshot.processes@.take(i as int)),
        decreases n - i,
    {
        let rec = snapshot.processes[i].clone();
        proof {
            let t = snapshot.processes@.take(i as int + 1);
            assert(t.drop_last() =~= snapshot.processes@.take(i as int));
            assert(t.last() == snapshot.processes@[i as int]);
        }
        insert_ranked(sort_key, &mut out, rec);
        i += 1;
    }
    proof {
        assert(snapshot.processes@.take(n as int) =~= snapshot.processes@);
    }
    out
}

} // verus!
