use std::collections::HashSet;

use vstd::prelude::*;

use crate::segments::{seq_len, total_len, NestedIntList};

verus! {

broadcast use vstd::std_specs::vec::group_vec_axioms;

/// Errors of running a class.
#[derive(Clone, Copy, Debug, PartialEq, Eq, Structural)]
pub enum TransactionExecutionError {
    /// A visited pc lies inside a segment whose first word was not visited before it: the pc
    /// that was found, and the start of the segment.
    InvalidSegmentStructure(usize, usize),
    /// The operation is not defined for this kind of class.
    UnsupportedOperationForVariant,
}

/// Where a walk over the segment tree stands: what it found (the starts of the visited
/// segments, or an error), the position of the next unconsumed visited pc, and the offset
/// reached in the bytecode.
pub struct Walk {
    pub result: Result<Seq<usize>, TransactionExecutionError>,
    pub next: nat,
    pub offset: nat,
}

/// The position after the visited pcs from `k` on that lie in `[lo, hi)`.
pub open spec fn skip_in(pcs: Seq<usize>, k: nat, lo: nat, hi: nat) -> nat
    decreases pcs.len() - k,
{
    if k < pcs.len() && lo <= pcs[k as int] < hi {
        skip_in(pcs, k + 1, lo, hi)
    } else {
        k
    }
}

/// Walks the segment `t`, which starts at `offset`, over the ascending visited pcs `pcs`, of
/// which those before position `k` are consumed. A leaf is visited when the next pc lies in
/// it; it then consumes every pc in its run. A child of a node that was visited must have
/// the next pc, as the walk reaches the child, at its start.
pub open spec fn walk(t: NestedIntList, pcs: Seq<usize>, k: nat, offset: nat) -> Walk
    decreases t,
{
    match t {
        NestedIntList::Leaf(n) => {
            let end = (offset + n) as nat;
            let hit = k < pcs.len() && offset <= pcs[k as int] < end;
            Walk {
                result: Ok(
                    if hit {
                        seq![offset as usize]
                    } else {
                        Seq::empty()
                    },
                ),
                next: skip_in(pcs, k, offset, end),
                offset: end,
            }
        },
        NestedIntList::Node(c) => walk_seq(c@, pcs, k, offset),
    }
}

/// Walks the segments `s` one after another, as the children of a node.
pub open spec fn walk_seq(s: Seq<NestedIntList>, pcs: Seq<usize>, k: nat, offset: nat) -> Walk
    decreases s,
{
    if s.len() == 0 {
        Walk { result: Ok(Seq::empty()), next: k, offset }
    } else {
        let p = walk_seq(s.drop_last(), pcs, k, offset);
        match p.result {
            Err(e) => p,
            Ok(before) => {
                let q = walk(s.last(), pcs, p.next, p.offset);
                match q.result {
                    Err(e) => q,
                    Ok(inner) => if p.next < pcs.len() && pcs[p.next as int] != p.offset
                        && inner.len() > 0 {
                        Walk {
                            result: Err(
                                TransactionExecutionError::InvalidSegmentStructure(
                                    pcs[p.next as int],
                                    p.offset as usize,
                                ),
                            ),
                            next: q.next,
                            offset: q.offset,
                        }
                    } else {
                        Walk { result: Ok(before + inner), next: q.next, offset: q.offset }
                    },
                }
            },
        }
    }
}

/// The result as a sequence.
pub open spec fn seq_result(r: Result<Vec<usize>, TransactionExecutionError>) -> Result<
    Seq<usize>,
    TransactionExecutionError,
> {
    match r {
        Ok(v) => Ok(v@),
        Err(e) => Err(e),
    }
}

proof fn lemma_seq_len_prefix(s: Seq<NestedIntList>, i: int)
    requires
        0 <= i < s.len(),
    ensures
        seq_len(s.take(i + 1)) == seq_len(s.take(i)) + total_len(s[i]),
        seq_len(s.take(i + 1)) <= seq_len(s),
    decreases s.len(),
{
    assert(s.take(i + 1).drop_last() =~= s.take(i));
    if i + 1 < s.len() {
        lemma_seq_len_prefix(s.drop_last(), i);
        assert(s.drop_last().take(i + 1) =~= s.take(i + 1));
        assert(s.drop_last().take(i) =~= s.take(i));
    } else {
        assert(s.take(i + 1) =~= s);
    }
}

proof fn lemma_walk_seq_err_stays(s: Seq<NestedIntList>, i: int, pcs: Seq<usize>, k: nat, off: nat)
    requires
        0 <= i <= s.len(),
        walk_seq(s.take(i), pcs, k, off).result is Err,
    ensures
        walk_seq(s, pcs, k, off).result == walk_seq(s.take(i), pcs, k, off).result,
    decreases s.len(),
{
    if i == s.len() {
        assert(s.take(i) =~= s);
    } else {
        assert(s.drop_last().take(i) =~= s.take(i));
        lemma_walk_seq_err_stays(s.drop_last(), i, pcs, k, off);
    }
}

/// The elements of the sequence ascend strictly.
pub open spec fn strictly_ascending(p: Seq<usize>) -> bool {
    forall|i: int, j: int| 0 <= i < j < p.len() ==> p[i] < p[j]
}

/// The elements of `s` in ascending order.
pub open spec fn ascending_of(s: Set<usize>) -> Seq<usize> {
    choose|p: Seq<usize>| strictly_ascending(p) && forall|x: usize| p.contains(x) <==> s.contains(x)
}

proof fn lemma_ascending_drop_last(p: Seq<usize>, x: usize)
    requires
        strictly_ascending(p),
        p.len() > 0,
    ensures
        p.drop_last().contains(x) <==> (p.contains(x) && x != p.last()),
        p.contains(x) ==> x <= p.last(),
{
    if p.contains(x) {
        let j = choose|j: int| 0 <= j < p.len() && p[j] == x;
        if j < p.len() - 1 {
            assert(p.drop_last()[j] == x);
        }
    }
}

/// Two strictly ascending sequences with the same elements are equal.
pub proof fn lemma_ascending_unique(p: Seq<usize>, q: Seq<usize>)
    requires
        strictly_ascending(p),
        strictly_ascending(q),
        forall|x: usize| p.contains(x) <==> q.contains(x),
    ensures
        p == q,
    decreases p.len(),
{
    if p.len() == 0 {
        if q.len() > 0 {
            assert(q.contains(q[0]));
        }
        assert(p =~= q);
    } else {
        assert(p.contains(p.last()));
        if q.len() == 0 {
            assert(false);
        } else {
            let (m, n) = (p.last(), q.last());
            assert(q.contains(n));
            lemma_ascending_drop_last(p, n);
            lemma_ascending_drop_last(q, m);
            assert(m == n);
            assert forall|x: usize| p.drop_last().contains(x) <==> q.drop_last().contains(x) by {
                lemma_ascending_drop_last(p, x);
                lemma_ascending_drop_last(q, x);
            }
            lemma_ascending_unique(p.drop_last(), q.drop_last());
            assert(p =~= p.drop_last().push(m));
            assert(q =~= q.drop_last().push(n));
        }
    }
}

/// The elements of the set, in the order its iterator yields them.
fn set_elements(s: &HashSet<usize>) -> (r: Vec<usize>)
    ensures
        forall|x: usize| r@.contains(x) <==> s@.contains(x),
{
    broadcast use vstd::std_specs::hash::group_hash_axioms;

    let ghost keys = vstd::std_specs::iter::IteratorSpec::remaining(
        &vstd::std_specs::hash::spec_hash_keys_iter(s),
    ).unref();
    let mut r: Vec<usize> = Vec::new();
    for x in it: s.iter()
        invariant
            it.seq().unref() == keys,
            r@.len() == it.index(),
            forall|i: int| 0 <= i < it.index() ==> r@[i] == *it.seq()[i],
    {
        r.push(*x);
    }
    proof {
        assert(keys.to_set() == s@);
        assert(r@ =~= keys);
        assert forall|x: usize| r@.contains(x) <==> s@.contains(x) by {
            assert(keys.to_set().contains(x) == keys.contains(x));
        }
    }
    r
}

/// Relies on std's `slice::sort_unstable`: it puts the elements in ascending order, keeping
/// them all.
#[verifier::external_body]
fn sort_ascending(v: &mut Vec<usize>)
    ensures
        forall|x: usize| final(v)@.contains(x) <==> old(v)@.contains(x),
        forall|i: int, j: int| 0 <= i < j < final(v)@.len() ==> final(v)@[i] <= final(v)@[j],
{
    v.sort_unstable()
}

/// The distinct elements of the ascending `v`.
fn dedup_sorted(v: &Vec<usize>) -> (r: Vec<usize>)
    requires
        forall|i: int, j: int| 0 <= i < j < v@.len() ==> v@[i] <= v@[j],
    ensures
        strictly_ascending(r@),
        forall|x: usize| r@.contains(x) <==> v@.contains(x),
{
    let mut r: Vec<usize> = Vec::new();
    let mut i: usize = 0;
    while i < v.len()
        invariant
            i <= v@.len(),
            forall|a: int, b: int| 0 <= a < b < v@.len() ==> v@[a] <= v@[b],
            strictly_ascending(r@),
            forall|x: usize| r@.contains(x) <==> v@.take(i as int).contains(x),
            i > 0 ==> r@.len() > 0 && r@.last() == v@[i - 1],
            i == 0 ==> r@.len() == 0,
        decreases v@.len() - i,
    {
        let x = v[i];
        let ghost r0 = r@;
        if r.len() == 0 || r[r.len() - 1] != x {
            proof {
                if r@.len() > 0 {
                    assert forall|a: int| 0 <= a < r@.len() implies r@[a] < x by {
                        if a < r@.len() - 1 {
                            assert(r@[a] < r@.last());
                        }
                    }
                }
            }
            r.push(x);
            proof {
                assert(r@ == r0.push(x));
            }
        }
        proof {
            let t0 = v@.take(i as int);
            let t1 = v@.take(i + 1);
            assert(t1 =~= t0.push(x));
            assert(r@.contains(x)) by {
                assert(r@[r@.len() - 1] == x);
            }
            assert(t1.contains(x)) by {
                assert(t1[i as int] == x);
            }
            assert forall|y: usize| r@.contains(y) <==> t1.contains(y) by {
                if y != x {
                    if r@.contains(y) {
                        let j = choose|j: int| 0 <= j < r@.len() && r@[j] == y;
                        if r@ == r0.push(x) {
                            assert(j < r0.len());
                        }
                        assert(r0[j] == y);
                        assert(r0.contains(y));
                        assert(t0.contains(y));
                        let l = choose|l: int| 0 <= l < t0.len() && t0[l] == y;
                        assert(t1[l] == y);
                    }
                    if t1.contains(y) {
                        let l = choose|l: int| 0 <= l < t1.len() && t1[l] == y;
                        assert(l < i);
                        assert(t0[l] == y);
                        assert(r0.contains(y));
                        let j = choose|j: int| 0 <= j < r0.len() && r0[j] == y;
                        assert(r@[j] == y);
                    }
                }
            }
        }
        i = i + 1;
    }
    proof {
        assert(v@.take(i as int) =~= v@);
    }
    r
}

/// Some visited pc lies in `[lo, hi)`.
pub open spec fn visited_in(p: Seq<usize>, lo: nat, hi: nat) -> bool {
    exists|i: int| 0 <= i < p.len() && lo <= #[trigger] p[i] < hi
}

/// The starts of the leaves of `t`, laid out from `off`, that hold a visited pc, in bytecode
/// order.
pub open spec fn visited_leaf_starts(t: NestedIntList, p: Seq<usize>, off: nat) -> Seq<usize>
    decreases t,
{
    match t {
        NestedIntList::Leaf(n) => if visited_in(p, off, (off + n) as nat) {
            seq![off as usize]
        } else {
            Seq::empty()
        },
        NestedIntList::Node(c) => visited_leaf_starts_seq(c@, p, off),
    }
}

/// The starts of the visited leaves of the segments `s`, laid out one after another from `off`.
pub open spec fn visited_leaf_starts_seq(s: Seq<NestedIntList>, p: Seq<usize>, off: nat) -> Seq<
    usize,
>
    decreases s,
{
    if s.len() == 0 {
        Seq::empty()
    } else {
        visited_leaf_starts_seq(s.drop_last(), p, off) + visited_leaf_starts(
            s.last(),
            p,
            off + seq_len(s.drop_last()),
        )
    }
}

/// Every child of a node of `t` (laid out from `off`) that holds a visited pc has its first
/// pc visited.
pub open spec fn starts_visited(t: NestedIntList, p: Seq<usize>, off: nat) -> bool
    decreases t,
{
    match t {
        NestedIntList::Leaf(_) => true,
        NestedIntList::Node(c) => starts_visited_seq(c@, p, off),
    }
}

/// Every segment of `s` (laid out from `off`) that holds a visited pc has its first pc visited,
/// and so has every child of a node among them.
pub open spec fn starts_visited_seq(s: Seq<NestedIntList>, p: Seq<usize>, off: nat) -> bool
    decreases s,
{
    if s.len() == 0 {
        true
    } else {
        let o = off + seq_len(s.drop_last());
        &&& starts_visited_seq(s.drop_last(), p, off)
        &&& starts_visited(s.last(), p, o)
        &&& visited_in(p, o, o + total_len(s.last())) ==> p.contains(o as usize)
    }
}

/// The pcs before position `k` lie below `off`, the others at or above it.
pub open spec fn cursor_at(p: Seq<usize>, k: nat, off: nat) -> bool {
    &&& k <= p.len()
    &&& forall|i: int| 0 <= i < k ==> p[i] < off
    &&& forall|i: int| k <= i < p.len() ==> p[i] >= off
}

proof fn lemma_skip_in_cursor(p: Seq<usize>, k: nat, lo: nat, hi: nat)
    requires
        strictly_ascending(p),
        k <= p.len(),
        forall|i: int| 0 <= i < k ==> p[i] < hi,
        forall|i: int| k <= i < p.len() ==> p[i] >= lo,
    ensures
        cursor_at(p, skip_in(p, k, lo, hi), hi),
    decreases p.len() - k,
{
    if k < p.len() && lo <= p[k as int] < hi {
        assert forall|i: int| k + 1 <= i < p.len() implies p[i] >= lo by {
            assert(p[k as int] < p[i]);
        }
        lemma_skip_in_cursor(p, k + 1, lo, hi);
    } else if k < p.len() {
        assert forall|i: int| k <= i < p.len() implies p[i] >= hi by {
            if i > k {
                assert(p[k as int] < p[i]);
            }
        }
    }
}

proof fn lemma_visited_in_cursor(p: Seq<usize>, k: nat, lo: nat, hi: nat)
    requires
        strictly_ascending(p),
        cursor_at(p, k, lo),
    ensures
        visited_in(p, lo, hi) <==> (k < p.len() && lo <= p[k as int] < hi),
{
    if visited_in(p, lo, hi) {
        let i = choose|i: int| 0 <= i < p.len() && lo <= #[trigger] p[i] < hi;
        assert(i >= k);
        if i > k {
            assert(p[k as int] < p[i]);
        }
    }
}

proof fn lemma_seq_len_drop_last(s: Seq<NestedIntList>)
    requires
        s.len() > 0,
    ensures
        seq_len(s) == seq_len(s.drop_last()) + total_len(s.last()),
{
}

proof fn lemma_visited_nonempty(t: NestedIntList, p: Seq<usize>, off: nat)
    requires
        visited_leaf_starts(t, p, off).len() > 0,
    ensures
        visited_in(p, off, off + total_len(t)),
        forall|j: int|
            0 <= j < visited_leaf_starts(t, p, off).len() ==> off <= #[trigger] visited_leaf_starts(t, p, off)[j]
                < off + total_len(t),
        strictly_ascending(visited_leaf_starts(t, p, off)),
    decreases t,
{
    match t {
        NestedIntList::Leaf(n) => {
            let i = choose|i: int| 0 <= i < p.len() && off <= #[trigger] p[i] < off + n;
        },
        NestedIntList::Node(c) => {
            lemma_visited_nonempty_seq(c@, p, off);
        },
    }
}

proof fn lemma_visited_nonempty_seq(s: Seq<NestedIntList>, p: Seq<usize>, off: nat)
    requires
        visited_leaf_starts_seq(s, p, off).len() > 0,
    ensures
        visited_in(p, off, off + seq_len(s)),
        forall|j: int|
            0 <= j < visited_leaf_starts_seq(s, p, off).len() ==> off <= #[trigger] visited_leaf_starts_seq(
                s,
                p,
                off,
            )[j] < off + seq_len(s),
        strictly_ascending(visited_leaf_starts_seq(s, p, off)),
    decreases s,
{
    let a = visited_leaf_starts_seq(s.drop_last(), p, off);
    let o = off + seq_len(s.drop_last());
    let b = visited_leaf_starts(s.last(), p, o);
    lemma_seq_len_drop_last(s);
    assert(visited_leaf_starts_seq(s, p, off) == a + b);
    if a.len() > 0 {
        lemma_visited_nonempty_seq(s.drop_last(), p, off);
    }
    if b.len() > 0 {
        lemma_visited_nonempty(s.last(), p, o);
    }
    if a.len() > 0 {
        let i = choose|i: int| 0 <= i < p.len() && off <= #[trigger] p[i] < o;
        assert(off <= p[i] < off + seq_len(s));
    } else {
        let i = choose|i: int| 0 <= i < p.len() && o <= #[trigger] p[i] < o + total_len(s.last());
        assert(off <= p[i] < off + seq_len(s));
    }
    assert forall|x: int, y: int| 0 <= x < y < (a + b).len() implies (a + b)[x] < (a + b)[y] by {
        if y < a.len() {
        } else if x >= a.len() {
            assert((a + b)[x] == b[x - a.len()]);
            assert((a + b)[y] == b[y - a.len()]);
        } else {
            assert((a + b)[x] == a[x]);
            assert((a + b)[y] == b[y - a.len()]);
        }
    }
}

proof fn lemma_walk_consistent(t: NestedIntList, p: Seq<usize>, k: nat, off: nat)
    requires
        strictly_ascending(p),
        cursor_at(p, k, off),
        starts_visited(t, p, off),
    ensures
        walk(t, p, k, off).result == Ok::<Seq<usize>, TransactionExecutionError>(
            visited_leaf_starts(t, p, off),
        ),
        walk(t, p, k, off).offset == off + total_len(t),
        cursor_at(p, walk(t, p, k, off).next, off + total_len(t)),
    decreases t,
{
    match t {
        NestedIntList::Leaf(n) => {
            lemma_visited_in_cursor(p, k, off, (off + n) as nat);
            lemma_skip_in_cursor(p, k, off, (off + n) as nat);
        },
        NestedIntList::Node(c) => {
            lemma_walk_seq_consistent(c@, p, k, off);
        },
    }
}

proof fn lemma_walk_seq_consistent(s: Seq<NestedIntList>, p: Seq<usize>, k: nat, off: nat)
    requires
        strictly_ascending(p),
        cursor_at(p, k, off),
        starts_visited_seq(s, p, off),
    ensures
        walk_seq(s, p, k, off).result == Ok::<Seq<usize>, TransactionExecutionError>(
            visited_leaf_starts_seq(s, p, off),
        ),
        walk_seq(s, p, k, off).offset == off + seq_len(s),
        cursor_at(p, walk_seq(s, p, k, off).next, off + seq_len(s)),
    decreases s,
{
    if s.len() > 0 {
        let o = off + seq_len(s.drop_last());
        lemma_seq_len_drop_last(s);
        lemma_walk_seq_consistent(s.drop_last(), p, k, off);
        let pw = walk_seq(s.drop_last(), p, k, off);
        lemma_walk_consistent(s.last(), p, pw.next, o);
        let inner = visited_leaf_starts(s.last(), p, o);
        if inner.len() > 0 {
            lemma_visited_nonempty(s.last(), p, o);
            assert(p.contains(o as usize));
            let j = choose|j: int| 0 <= j < p.len() && p[j] == o as usize;
            assert(j >= pw.next);
            if j > pw.next {
                assert(p[pw.next as int] < p[j]);
            }
        }
    }
}

proof fn lemma_leaf_starts_visited(s: Seq<NestedIntList>, p: Seq<usize>, off: nat)
    requires
        starts_visited_seq(s, p, off),
    ensures
        forall|x: usize| visited_leaf_starts_seq(s, p, off).contains(x) ==> p.contains(x),
    decreases s,
{
    if s.len() > 0 {
        let o = off + seq_len(s.drop_last());
        let a = visited_leaf_starts_seq(s.drop_last(), p, off);
        let b = visited_leaf_starts(s.last(), p, o);
        lemma_leaf_starts_visited(s.drop_last(), p, off);
        assert(starts_visited(s.last(), p, o));
        match s.last() {
            NestedIntList::Leaf(n) => {},
            NestedIntList::Node(c) => {
                lemma_leaf_starts_visited(c@, p, o);
            },
        }
        assert forall|x: usize| (a + b).contains(x) implies p.contains(x) by {
            let j = choose|j: int| 0 <= j < (a + b).len() && (a + b)[j] == x;
            if j < a.len() {
                assert(a[j] == x);
            } else {
                assert(b[j - a.len()] == x);
            }
        }
    }
}

/// Reconstruction on consistent visits: when every child of a node that holds a visited pc has
/// its first pc visited, the walk over the ascending visited pcs `p` does not fail, and it
/// returns the starts of the leaves that hold a visited pc, ascending, each once. Below a node
/// each of these starts is itself a visited pc (a tree that is one leaf reports its start 0
/// whatever pc inside it was visited).
pub proof fn lemma_consistent_visits_reconstruct(t: NestedIntList, p: Seq<usize>)
    requires
        strictly_ascending(p),
        starts_visited(t, p, 0),
    ensures
        walk(t, p, 0, 0).result == Ok::<Seq<usize>, TransactionExecutionError>(
            visited_leaf_starts(t, p, 0),
        ),
        strictly_ascending(visited_leaf_starts(t, p, 0)),
        forall|j: int|
            0 <= j < visited_leaf_starts(t, p, 0).len() ==> #[trigger] visited_leaf_starts(
                t,
                p,
                0,
            )[j] < total_len(t),
        t is Node ==> forall|x: usize| visited_leaf_starts(t, p, 0).contains(x) ==> p.contains(x),
{
    if let NestedIntList::Node(c) = t {
        lemma_leaf_starts_visited(c@, p, 0);
    }
    lemma_walk_consistent(t, p, 0, 0);
    let r = visited_leaf_starts(t, p, 0);
    if r.len() > 0 {
        lemma_visited_nonempty(t, p, 0);
    }
}

/// `[st, st + len)` is the run of a child of some node of `t`, laid out from `off`.
pub open spec fn is_child_segment(t: NestedIntList, off: nat, st: nat, len: nat) -> bool
    decreases t,
{
    match t {
        NestedIntList::Leaf(_) => false,
        NestedIntList::Node(c) => is_child_segment_seq(c@, off, st, len),
    }
}

/// `[st, st + len)` is the run of one of the segments `s`, laid out from `off`, or of a child
/// of a node among them.
pub open spec fn is_child_segment_seq(s: Seq<NestedIntList>, off: nat, st: nat, len: nat) -> bool
    decreases s,
{
    if s.len() == 0 {
        false
    } else {
        let o = off + seq_len(s.drop_last());
        ||| is_child_segment_seq(s.drop_last(), off, st, len)
        ||| (st == o && len == total_len(s.last()))
        ||| is_child_segment(s.last(), o, st, len)
    }
}

/// `e` reports a child segment of `t` (laid out from `off`) that holds a visited pc though its
/// start was not visited: the error names the segment's start and the first visited pc after it.
pub open spec fn reports_unvisited_start(
    t: NestedIntList,
    p: Seq<usize>,
    off: nat,
    e: TransactionExecutionError,
) -> bool {
    exists|st: nat, len: nat, pc: usize|
        #![trigger is_child_segment(t, off, st, len), p.contains(pc)]
        e == TransactionExecutionError::InvalidSegmentStructure(pc, st as usize)
            && is_child_segment(t, off, st, len) && visited_in(p, st, st + len) && !p.contains(
            st as usize,
        ) && p.contains(pc) && st < pc && forall|i: int|
            0 <= i < p.len() && p[i] >= st ==> p[i] >= pc
}

/// As `reports_unvisited_start`, for the segments `s`.
pub open spec fn reports_unvisited_start_seq(
    s: Seq<NestedIntList>,
    p: Seq<usize>,
    off: nat,
    e: TransactionExecutionError,
) -> bool {
    exists|st: nat, len: nat, pc: usize|
        #![trigger is_child_segment_seq(s, off, st, len), p.contains(pc)]
        e == TransactionExecutionError::InvalidSegmentStructure(pc, st as usize)
            && is_child_segment_seq(s, off, st, len) && visited_in(p, st, st + len)
            && !p.contains(st as usize) && p.contains(pc) && st < pc && forall|i: int|
            0 <= i < p.len() && p[i] >= st ==> p[i] >= pc
}

proof fn lemma_walk_general(t: NestedIntList, p: Seq<usize>, k: nat, off: nat)
    requires
        strictly_ascending(p),
        cursor_at(p, k, off),
    ensures
        (walk(t, p, k, off).result is Ok) == starts_visited(t, p, off),
        walk(t, p, k, off).result is Ok ==> walk(t, p, k, off).offset == off + total_len(t)
            && cursor_at(p, walk(t, p, k, off).next, off + total_len(t)) && (walk(
            t,
            p,
            k,
            off,
        ).result->Ok_0.len() > 0 <==> visited_in(p, off, off + total_len(t))),
        walk(t, p, k, off).result matches Err(e) ==> reports_unvisited_start(t, p, off, e),
    decreases t,
{
    match t {
        NestedIntList::Leaf(n) => {
            lemma_visited_in_cursor(p, k, off, (off + n) as nat);
            lemma_skip_in_cursor(p, k, off, (off + n) as nat);
        },
        NestedIntList::Node(c) => {
            lemma_walk_seq_general(c@, p, k, off);
            if walk(t, p, k, off).result is Err {
                let e = walk(t, p, k, off).result->Err_0;
                let (st, len, pc) = choose|st: nat, len: nat, pc: usize|
                    #![trigger is_child_segment_seq(c@, off, st, len), p.contains(pc)]
                    e == TransactionExecutionError::InvalidSegmentStructure(pc, st as usize)
                        && is_child_segment_seq(c@, off, st, len) && visited_in(p, st, st + len)
                        && !p.contains(st as usize) && p.contains(pc) && st < pc && forall|i: int|
                        0 <= i < p.len() && p[i] >= st ==> p[i] >= pc;
                assert(is_child_segment(t, off, st, len));
            }
        },
    }
}

proof fn lemma_walk_seq_general(s: Seq<NestedIntList>, p: Seq<usize>, k: nat, off: nat)
    requires
        strictly_ascending(p),
        cursor_at(p, k, off),
    ensures
        (walk_seq(s, p, k, off).result is Ok) == starts_visited_seq(s, p, off),
        walk_seq(s, p, k, off).result is Ok ==> walk_seq(s, p, k, off).offset == off + seq_len(s)
            && cursor_at(p, walk_seq(s, p, k, off).next, off + seq_len(s)) && (walk_seq(
            s,
            p,
            k,
            off,
        ).result->Ok_0.len() > 0 <==> visited_in(p, off, off + seq_len(s))),
        walk_seq(s, p, k, off).result matches Err(e) ==> reports_unvisited_start_seq(s, p, off, e),
    decreases s,
{
    if s.len() > 0 {
        let o = off + seq_len(s.drop_last());
        let last = s.last();
        let len = total_len(last);
        lemma_seq_len_drop_last(s);
        lemma_walk_seq_general(s.drop_last(), p, k, off);
        let pw = walk_seq(s.drop_last(), p, k, off);
        if pw.result is Err {
            let e = pw.result->Err_0;
            let (st, l, pc) = choose|st: nat, l: nat, pc: usize|
                #![trigger is_child_segment_seq(s.drop_last(), off, st, l), p.contains(pc)]
                e == TransactionExecutionError::InvalidSegmentStructure(pc, st as usize)
                    && is_child_segment_seq(s.drop_last(), off, st, l) && visited_in(p, st, st + l)
                    && !p.contains(st as usize) && p.contains(pc) && st < pc && forall|i: int|
                    0 <= i < p.len() && p[i] >= st ==> p[i] >= pc;
            assert(is_child_segment_seq(s, off, st, l));
        } else {
            lemma_walk_general(last, p, pw.next, o);
            let q = walk(last, p, pw.next, o);
            if q.result is Err {
                let e = q.result->Err_0;
                let (st, l, pc) = choose|st: nat, l: nat, pc: usize|
                    #![trigger is_child_segment(last, o, st, l), p.contains(pc)]
                    e == TransactionExecutionError::InvalidSegmentStructure(pc, st as usize)
                        && is_child_segment(last, o, st, l) && visited_in(p, st, st + l)
                        && !p.contains(st as usize) && p.contains(pc) && st < pc && forall|i: int|
                        0 <= i < p.len() && p[i] >= st ==> p[i] >= pc;
                assert(is_child_segment_seq(s, off, st, l));
            } else {
                let before = pw.result->Ok_0;
                let inner = q.result->Ok_0;
                if o <= usize::MAX && p.contains(o as usize) {
                    let j = choose|j: int| 0 <= j < p.len() && p[j] == o as usize;
                    assert(j >= pw.next);
                    if j > pw.next {
                        assert(p[pw.next as int] < p[j]);
                    }
                }
                if visited_in(p, o, o + len) {
                    let i = choose|i: int| 0 <= i < p.len() && o <= #[trigger] p[i] < o + len;
                    assert(i >= pw.next);
                    if !p.contains(o as usize) {
                        let pc = p[pw.next as int];
                        assert(p.contains(pc));
                        assert(is_child_segment_seq(s, off, o, len));
                    }
                }
                if inner.len() > 0 || before.len() > 0 {
                    if before.len() > 0 {
                        let i = choose|i: int| 0 <= i < p.len() && off <= #[trigger] p[i] < o;
                        assert(off <= p[i] < off + seq_len(s));
                    } else {
                        let i = choose|i: int| 0 <= i < p.len() && o <= #[trigger] p[i] < o + len;
                        assert(off <= p[i] < off + seq_len(s));
                    }
                }
                if visited_in(p, off, off + seq_len(s)) {
                    let i = choose|i: int| 0 <= i < p.len() && off <= #[trigger] p[i] < off
                        + seq_len(s);
                    if p[i] < o {
                        assert(visited_in(p, off, o));
                    } else {
                        assert(visited_in(p, o, o + len));
                    }
                }
            }
        }
    }
}

/// When reconstruction fails: the walk over the ascending visited pcs `p` fails exactly when a
/// child of some node holds a visited pc though its start was not visited, and the error then
/// names such a child's start and the first visited pc at or after it. When it succeeds, the
/// starts it returns ascend, each once.
pub proof fn lemma_reconstruction_fails(t: NestedIntList, p: Seq<usize>)
    requires
        strictly_ascending(p),
    ensures
        (walk(t, p, 0, 0).result is Err) <==> !starts_visited(t, p, 0),
        walk(t, p, 0, 0).result matches Err(e) ==> reports_unvisited_start(t, p, 0, e),
        walk(t, p, 0, 0).result matches Ok(v) ==> strictly_ascending(v),
{
    lemma_walk_general(t, p, 0, 0);
    if starts_visited(t, p, 0) {
        lemma_consistent_visits_reconstruct(t, p);
    }
}

/// Returns the starts of the segments of `segment_lengths` (laid out from offset zero) that the
/// pcs of `visited_pcs` fall in, in bytecode order. Each visited segment is represented by its
/// first pc, which must itself have been visited: a node's child that holds a visited pc but
/// whose start is not the first visited pc from there on is an `InvalidSegmentStructure`.
pub fn visited_segments(segment_lengths: &NestedIntList, visited_pcs: &HashSet<usize>) -> (r:
    Result<Vec<usize>, TransactionExecutionError>)
    ensures
        seq_result(r) == walk(*segment_lengths, ascending_of(visited_pcs@), 0, 0).result,
        strictly_ascending(ascending_of(visited_pcs@)),
        forall|x: usize| ascending_of(visited_pcs@).contains(x) <==> visited_pcs@.contains(x),
{
    let mut elements = set_elements(visited_pcs);
    sort_ascending(&mut elements);
    let pcs = dedup_sorted(&elements);
    proof {
        let p = ascending_of(visited_pcs@);
        assert(strictly_ascending(pcs@) && forall|x: usize|
            pcs@.contains(x) <==> visited_pcs@.contains(x));
        lemma_ascending_unique(p, pcs@);
    }
    let mut next: usize = 0;
    let mut bytecode_offset: usize = 0;
    let mut past_end = false;
    get_visited_segments(
        segment_lengths,
        &pcs,
        &mut next,
        &mut bytecode_offset,
        &mut past_end,
        Ghost(0),
    )
}

proof fn lemma_walk_exhausted(t: NestedIntList, p: Seq<usize>, off: nat)
    ensures
        walk(t, p, p.len(), off).result == Ok::<Seq<usize>, TransactionExecutionError>(
            Seq::empty(),
        ),
        walk(t, p, p.len(), off).next == p.len(),
    decreases t,
{
    match t {
        NestedIntList::Leaf(n) => {},
        NestedIntList::Node(c) => {
            lemma_walk_seq_exhausted(c@, p, off);
        },
    }
}

proof fn lemma_walk_seq_exhausted(s: Seq<NestedIntList>, p: Seq<usize>, off: nat)
    ensures
        walk_seq(s, p, p.len(), off).result == Ok::<Seq<usize>, TransactionExecutionError>(
            Seq::empty(),
        ),
        walk_seq(s, p, p.len(), off).next == p.len(),
    decreases s,
{
    if s.len() > 0 {
        lemma_walk_seq_exhausted(s.drop_last(), p, off);
        let pw = walk_seq(s.drop_last(), p, p.len(), off);
        lemma_walk_exhausted(s.last(), p, pw.offset);
        assert(Seq::<usize>::empty() + Seq::<usize>::empty() =~= Seq::<usize>::empty());
    }
}

/// Walks the segment tree from the visited pc at position `*next` and the bytecode offset
/// `off`, and returns the starts of the visited segments in bytecode order. While the offset
/// fits a machine word, `*bytecode_offset` holds it; once it passes the largest word,
/// `*past_end` is set and every visited pc has been consumed, as none can lie that far.
fn get_visited_segments(
    segment_lengths: &NestedIntList,
    visited_pcs: &Vec<usize>,
    next: &mut usize,
    bytecode_offset: &mut usize,
    past_end: &mut bool,
    Ghost(off): Ghost<nat>,
) -> (r: Result<Vec<usize>, TransactionExecutionError>)
    requires
        strictly_ascending(visited_pcs@),
        cursor_at(visited_pcs@, *old(next) as nat, off),
        !*old(past_end) ==> off == *old(bytecode_offset),
        *old(past_end) ==> off > usize::MAX && *old(next) == visited_pcs@.len(),
    ensures
        seq_result(r) == walk(*segment_lengths, visited_pcs@, *old(next) as nat, off).result,
        r is Ok ==> *final(next) == walk(
            *segment_lengths,
            visited_pcs@,
            *old(next) as nat,
            off,
        ).next,
        r is Ok ==> !*final(past_end) ==> *final(bytecode_offset) == off + total_len(
            *segment_lengths,
        ),
        r is Ok ==> *final(past_end) ==> off + total_len(*segment_lengths) > usize::MAX
            && *final(next) == visited_pcs@.len(),
    decreases segment_lengths,
{
    proof {
        lemma_walk_general(*segment_lengths, visited_pcs@, *next as nat, off);
    }
    let mut res: Vec<usize> = Vec::new();
    if *past_end {
        proof {
            lemma_walk_exhausted(*segment_lengths, visited_pcs@, off);
            assert(res@ =~= Seq::<usize>::empty());
        }
        return Ok(res);
    }
    match segment_lengths {
        NestedIntList::Leaf(length) => {
            let start = *bytecode_offset;
            let overflows = *length > usize::MAX - start;
            let end: usize = if overflows {
                usize::MAX
            } else {
                start + *length
            };
            let ghost end_nat = (off + *length) as nat;
            if *next < visited_pcs.len() && start <= visited_pcs[*next] && (overflows
                || visited_pcs[*next] < end) {
                res.push(start);
            }
            let ghost k0 = *next as nat;
            while *next < visited_pcs.len() && start <= visited_pcs[*next] && (overflows
                || visited_pcs[*next] < end)
                invariant
                    k0 <= *next <= visited_pcs@.len(),
                    start == off,
                    end_nat == off + *length,
                    overflows ==> end_nat > usize::MAX,
                    !overflows ==> end == end_nat,
                    skip_in(visited_pcs@, k0, off, end_nat) == skip_in(
                        visited_pcs@,
                        *next as nat,
                        off,
                        end_nat,
                    ),
                decreases visited_pcs@.len() - *next,
            {
                *next = *next + 1;
            }
            if overflows {
                *past_end = true;
            } else {
                *bytecode_offset = end;
            }
            proof {
                assert(res@ =~= walk(*segment_lengths, visited_pcs@, k0, off).result->Ok_0);
            }
            Ok(res)
        },
        NestedIntList::Node(segments) => {
            let ghost k0 = *next as nat;
            let ghost s = segments@;
            let mut i: usize = 0;
            while i < segments.len()
                invariant
                    *segment_lengths == NestedIntList::Node(*segments),
                    s == segments@,
                    i <= s.len(),
                    strictly_ascending(visited_pcs@),
                    k0 == *old(next),
                    cursor_at(visited_pcs@, k0, off),
                    walk_seq(s.take(i as int), visited_pcs@, k0, off).result == Ok::<
                        Seq<usize>,
                        TransactionExecutionError,
                    >(res@),
                    walk_seq(s.take(i as int), visited_pcs@, k0, off).next == *next,
                    walk_seq(s.take(i as int), visited_pcs@, k0, off).offset == off + seq_len(
                        s.take(i as int),
                    ),
                    cursor_at(visited_pcs@, *next as nat, off + seq_len(s.take(i as int))),
                    !*past_end ==> *bytecode_offset == off + seq_len(s.take(i as int)),
                    *past_end ==> off + seq_len(s.take(i as int)) > usize::MAX && *next
                        == visited_pcs@.len(),
                decreases s.len() - i,
            {
                let ghost child_off = off + seq_len(s.take(i as int));
                proof {
                    lemma_seq_len_prefix(s, i as int);
                    assert(s.take(i + 1).drop_last() =~= s.take(i as int));
                    assert(s.take(i + 1).last() == s[i as int]);
                    lemma_walk_general(s[i as int], visited_pcs@, *next as nat, child_off);
                }
                let segment_start = *bytecode_offset;
                let has_next = *next < visited_pcs.len();
                let next_visited_pc = if has_next {
                    visited_pcs[*next]
                } else {
                    0
                };
                let inner = get_visited_segments(
                    &segments[i],
                    visited_pcs,
                    next,
                    bytecode_offset,
                    past_end,
                    Ghost(child_off),
                );
                match inner {
                    Err(e) => {
                        proof {
                            assert(walk_seq(s.take(i + 1), visited_pcs@, k0, off).result
                                == Err::<Seq<usize>, TransactionExecutionError>(e));
                            lemma_walk_seq_err_stays(s, i + 1, visited_pcs@, k0, off);
                        }
                        return Err(e);
                    },
                    Ok(visited_inner_segments) => {
                        if has_next && next_visited_pc != segment_start
                            && visited_inner_segments.len() > 0 {
                            proof {
                                let err = TransactionExecutionError::InvalidSegmentStructure(
                                    next_visited_pc,
                                    segment_start,
                                );
                                assert(walk_seq(s.take(i + 1), visited_pcs@, k0, off).result
                                    == Err::<Seq<usize>, TransactionExecutionError>(err));
                                lemma_walk_seq_err_stays(s, i + 1, visited_pcs@, k0, off);
                            }
                            return Err(
                                TransactionExecutionError::InvalidSegmentStructure(
                                    next_visited_pc,
                                    segment_start,
                                ),
                            );
                        }
                        let mut v = visited_inner_segments;
                        res.append(&mut v);
                    },
                }
                i = i + 1;
            }
            proof {
                assert(s.take(i as int) =~= s);
            }
            Ok(res)
        },
    }
}

} // verus!
