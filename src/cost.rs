use vstd::prelude::*;

use crate::builtins::BuiltinName;
use crate::resources::{ExecutionResources, ResourceCount};
use crate::segments::NestedIntList;

verus! {

/// Steps the Starknet OS spends in `poseidon_hash_many` over `n` field elements.
pub open spec fn hash_many_steps(n: nat) -> nat {
    (n / 10) * 55 + ((n % 10) / 2) * 18 + (n % 2) * 3 + 21
}

/// Resources the Starknet OS spends in `poseidon_hash_many` over `n` field elements.
pub open spec fn hash_many_cost(n: nat) -> ResourceCount {
    ResourceCount::of(hash_many_steps(n), 0, BuiltinName::Poseidon, n / 2 + 1)
}

/// Fixed cost of hashing bytecode that is one segment.
pub open spec fn leaf_base() -> ResourceCount {
    ResourceCount::of(463, 0, BuiltinName::Poseidon, 10)
}

/// Fixed cost of hashing bytecode that is split into segments.
pub open spec fn node_base() -> ResourceCount {
    ResourceCount::of(480, 0, BuiltinName::Poseidon, 11)
}

/// Fixed cost added for each segment of a split bytecode.
pub open spec fn segment_base() -> ResourceCount {
    ResourceCount::of(24, 1, BuiltinName::Poseidon, 1)
}

/// The length of a leaf; zero for a node.
pub open spec fn leaf_len(t: NestedIntList) -> nat {
    match t {
        NestedIntList::Leaf(n) => n as nat,
        NestedIntList::Node(_) => 0,
    }
}

/// Every segment of the sequence is a leaf.
pub open spec fn all_leaves(s: Seq<NestedIntList>) -> bool {
    forall|i: int| 0 <= i < s.len() ==> s[i] is Leaf
}

/// The cost model covers the tree: a leaf, or a node whose children are all leaves.
pub open spec fn depth_supported(t: NestedIntList) -> bool {
    match t {
        NestedIntList::Leaf(_) => true,
        NestedIntList::Node(c) => all_leaves(c@),
    }
}

/// Cost of hashing a bytecode split into the leaves `s`, summed from the first.
pub open spec fn segments_cost(s: Seq<NestedIntList>) -> ResourceCount
    decreases s.len(),
{
    if s.len() == 0 {
        node_base()
    } else {
        segments_cost(s.drop_last()).plus(hash_many_cost(leaf_len(s.last()))).plus(segment_base())
    }
}

/// Estimated cost of hashing bytecode laid out as `t`.
pub open spec fn estimate(t: NestedIntList) -> ResourceCount {
    match t {
        NestedIntList::Leaf(n) => leaf_base().plus(hash_many_cost(n as nat)),
        NestedIntList::Node(c) => segments_cost(c@),
    }
}

/// Each count of `a` is at most the matching count of `b`.
pub open spec fn le(a: ResourceCount, b: ResourceCount) -> bool {
    &&& a.steps <= b.steps
    &&& a.holes <= b.holes
    &&& forall|i: int| 0 <= i < a.builtins.len() ==> a.builtins[i] <= b.builtins[i]
}

/// The error of the cost model.
#[derive(Clone, Copy, Debug, PartialEq, Eq, Structural)]
pub enum CostEstimationError {
    /// A node has a node among its children: the model covers one level of segments only.
    UnsupportedSegmentDepth,
}

proof fn lemma_le_of_plus(a: ResourceCount, b: ResourceCount, d: ResourceCount)
    requires
        a.wf(),
        b.wf(),
        le(a.plus(b), d),
    ensures
        le(a, d),
{
    assert forall|i: int| 0 <= i < a.builtins.len() implies a.builtins[i] <= d.builtins[i] by {
        assert(a.plus(b).builtins[i] == a.builtins[i] + b.builtins[i]);
    }
}

proof fn lemma_fits_below(a: ResourceCount, d: ResourceCount)
    requires
        a.wf(),
        d.wf(),
        le(a, d),
        d.fits(),
    ensures
        a.fits(),
{
    assert forall|i: int| 0 <= i < a.builtins.len() implies a.builtins[i] <= usize::MAX by {
        assert(a.builtins[i] <= d.builtins[i]);
    }
}

proof fn lemma_segments_cost_prefix(s: Seq<NestedIntList>, i: int)
    requires
        0 <= i <= s.len(),
    ensures
        le(segments_cost(s.take(i)), segments_cost(s)),
        segments_cost(s).builtins.len() == crate::builtins::N_BUILTINS,
    decreases s.len(),
{
    if s.len() > 0 {
        lemma_segments_cost_prefix(s.drop_last(), if i == s.len() { i - 1 } else { i });
        if i < s.len() {
            assert(s.drop_last().take(i) =~= s.take(i));
        } else {
            assert(s.take(i) =~= s);
        }
    }
}

/// The estimate for one segment of `length` words is the fixed cost of a single chain plus the
/// cost of hashing `length` elements. Memory holes and builtin usage never decrease as the
/// segment grows; steps do not decrease within a run of ten lengths, across more than one such
/// run, or from a length whose last digit is at most six (from nine words to ten the steps drop,
/// as ten words are hashed in one unrolled round).
pub proof fn lemma_leaf_estimate_growth(a: usize, b: usize)
    requires
        a <= b,
    ensures
        estimate(NestedIntList::Leaf(a)) == leaf_base().plus(hash_many_cost(a as nat)),
        estimate(NestedIntList::Leaf(a)).holes == estimate(NestedIntList::Leaf(b)).holes,
        forall|i: int|
            0 <= i < crate::builtins::N_BUILTINS ==> estimate(NestedIntList::Leaf(a)).builtins[i]
                <= estimate(NestedIntList::Leaf(b)).builtins[i],
        (a / 10 == b / 10 || a / 10 + 2 <= b / 10 || a % 10 <= 6) ==> estimate(
            NestedIntList::Leaf(a),
        ).steps <= estimate(NestedIntList::Leaf(b)).steps,
{
    let (x, y) = (a as nat, b as nat);
    assert((x / 2) <= (y / 2)) by (nonlinear_arith)
        requires
            x <= y,
    ;
    if x / 10 == y / 10 {
        assert(x % 10 <= y % 10) by (nonlinear_arith)
            requires
                x <= y,
                x / 10 == y / 10,
        ;
        assert(((x % 10) / 2) <= ((y % 10) / 2)) by (nonlinear_arith)
            requires
                x % 10 <= y % 10,
        ;
        assert(hash_many_steps(x) <= hash_many_steps(y));
    }
}

/// A node of two leaves costs the fixed cost of a split bytecode plus, for each leaf, the cost
/// of hashing its words and the fixed cost of one segment.
pub proof fn lemma_two_leaf_estimate(v: Vec<NestedIntList>, a: usize, b: usize)
    requires
        v@ == seq![NestedIntList::Leaf(a), NestedIntList::Leaf(b)],
    ensures
        depth_supported(NestedIntList::Node(v)),
        estimate(NestedIntList::Node(v)) =~= node_base().plus(
            hash_many_cost(a as nat).plus(segment_base()),
        ).plus(hash_many_cost(b as nat).plus(segment_base())),
{
    let s = v@;
    assert(s.drop_last().drop_last() =~= Seq::<NestedIntList>::empty());
    assert(s.drop_last() =~= seq![NestedIntList::Leaf(a)]);
    let (ha, hb, g) = (hash_many_cost(a as nat), hash_many_cost(b as nat), segment_base());
    let c0 = segments_cost(s.drop_last().drop_last());
    let c1 = segments_cost(s.drop_last());
    assert(c0 == node_base());
    assert(c1 == c0.plus(ha).plus(g));
    assert(segments_cost(s) == c1.plus(hb).plus(g));
    let rhs = node_base().plus(ha.plus(g)).plus(hb.plus(g));
    assert(segments_cost(s).builtins =~= rhs.builtins);
}

/// A node that has a node among its children is outside the cost model.
pub proof fn lemma_nested_node_unsupported(v: Vec<NestedIntList>, i: int)
    requires
        0 <= i < v@.len(),
        v@[i] is Node,
    ensures
        !depth_supported(NestedIntList::Node(v)),
{
}

/// Resources that `poseidon_hash_many` takes in the Starknet OS over `data_length` elements.
pub fn poseidon_hash_many_cost(data_length: usize) -> (r: ExecutionResources)
    requires
        hash_many_steps(data_length as nat) <= usize::MAX,
    ensures
        r@ =~= hash_many_cost(data_length as nat),
{
    let n_steps: usize = (data_length / 10) * 55 + ((data_length % 10) / 2) * 18 + (data_length
        % 2) * 3 + 21;
    ExecutionResources::new(n_steps, 0).with_builtin(BuiltinName::Poseidon, data_length / 2 + 1)
}

/// Estimated VM resources for computing the hash of bytecode laid out as
/// `bytecode_segment_lengths`. Bytecode that is one segment is hashed as one chain; split
/// bytecode is hashed segment by segment, each segment a leaf.
pub fn estimate_casm_hash_computation_resources(bytecode_segment_lengths: &NestedIntList) -> (r:
    Result<ExecutionResources, CostEstimationError>)
    requires
        depth_supported(*bytecode_segment_lengths) ==> estimate(*bytecode_segment_lengths).fits(),
    ensures
        match r {
            Ok(res) => depth_supported(*bytecode_segment_lengths) && res@ =~= estimate(
                *bytecode_segment_lengths,
            ),
            Err(e) => !depth_supported(*bytecode_segment_lengths) && e
                == CostEstimationError::UnsupportedSegmentDepth,
        },
{
    match bytecode_segment_lengths {
        NestedIntList::Leaf(length) => {
            let base = ExecutionResources::new(463, 0).with_builtin(BuiltinName::Poseidon, 10);
            let hash = poseidon_hash_many_cost(*length);
            proof {
                base.lemma_view();
                hash.lemma_view();
            }
            Ok(base.add(&hash))
        },
        NestedIntList::Node(segments) => {
            let mut i: usize = 0;
            while i < segments.len()
                invariant
                    i <= segments@.len(),
                    *bytecode_segment_lengths == NestedIntList::Node(*segments),
                    all_leaves(segments@.take(i as int)),
                decreases segments@.len() - i,
            {
                if let NestedIntList::Node(_) = &segments[i] {
                    assert(!(segments@[i as int] is Leaf));
                    assert(!all_leaves(segments@));
                    return Err(CostEstimationError::UnsupportedSegmentDepth);
                }
                assert(segments@.take(i + 1) =~= segments@.take(i as int).push(segments@[i as int]));
                i = i + 1;
            }
            assert(segments@.take(i as int) =~= segments@);
            let ghost s = segments@;
            let mut execution_resources = ExecutionResources::new(480, 0).with_builtin(
                BuiltinName::Poseidon,
                11,
            );
            let base_segment_cost = ExecutionResources::new(24, 1).with_builtin(
                BuiltinName::Poseidon,
                1,
            );
            let mut j: usize = 0;
            while j < segments.len()
                invariant
                    j <= s.len(),
                    s == segments@,
                    *bytecode_segment_lengths == NestedIntList::Node(*segments),
                    all_leaves(s),
                    segments_cost(s).fits(),
                    execution_resources@ =~= segments_cost(s.take(j as int)),
                    base_segment_cost@ =~= segment_base(),
                decreases s.len() - j,
            {
                proof {
                    lemma_segments_cost_prefix(s, j + 1);
                    assert(s.take(j + 1).drop_last() =~= s.take(j as int));
                    assert(s.take(j + 1).last() == s[j as int]);
                    execution_resources.lemma_view();
                }
                let length = match &segments[j] {
                    NestedIntList::Leaf(length) => *length,
                    NestedIntList::Node(_) => 0,
                };
                let hash = poseidon_hash_many_cost(length);
                proof {
                    hash.lemma_view();
                }
                proof {
                    let (x, h) = (execution_resources@, hash@);
                    assert(segments_cost(s.take(j + 1)) == x.plus(h).plus(segment_base()));
                    lemma_le_of_plus(x.plus(h), segment_base(), segments_cost(s));
                    lemma_fits_below(x.plus(h), segments_cost(s));
                    lemma_fits_below(x.plus(h).plus(segment_base()), segments_cost(s));
                }
                let with_hash = execution_resources.add(&hash);
                proof {
                    with_hash.lemma_view();
                }
                execution_resources = with_hash.add(&base_segment_cost);
                j = j + 1;
            }
            assert(s.take(j as int) =~= s);
            Ok(execution_resources)
        },
    }
}

} // verus!
