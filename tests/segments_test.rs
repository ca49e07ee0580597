use std::collections::HashSet;
use std::sync::Arc;

use compiled_class::builtins::BuiltinName;
use compiled_class::compiled_class::{
    CompiledClassV0, CompiledClassV0Inner, CompiledClassV1, CompiledClassV1Inner,
};
use compiled_class::cost::{
    estimate_casm_hash_computation_resources, poseidon_hash_many_cost, CostEstimationError,
};
use compiled_class::entry_points::EntryPointsByType;
use compiled_class::program::{HintTable, Program};
use compiled_class::resources::ExecutionResources;
use compiled_class::runnable::RunnableCompiledClass;
use compiled_class::segments::NestedIntList;
use compiled_class::version::CompilerVersion;
use compiled_class::visited::{visited_segments, TransactionExecutionError};

fn poseidon(n_steps: usize, n_memory_holes: usize, n: usize) -> ExecutionResources {
    ExecutionResources::new(n_steps, n_memory_holes).with_builtin(BuiltinName::Poseidon, n)
}

fn v1_with_tree(tree: NestedIntList) -> CompiledClassV1 {
    CompiledClassV1(Arc::new(CompiledClassV1Inner {
        program: Program::default(),
        entry_points_by_type: EntryPointsByType {
            constructor: vec![],
            external: vec![],
            l1_handler: vec![],
        },
        hints: HintTable::new(),
        compiler_version: CompilerVersion::parse("2.1.0").unwrap(),
        bytecode_segment_lengths: tree,
    }))
}

#[test]
fn hash_many_cost_values() {
    assert_eq!(poseidon_hash_many_cost(0), poseidon(21, 0, 1));
    assert_eq!(poseidon_hash_many_cost(3), poseidon(42, 0, 2));
    assert_eq!(poseidon_hash_many_cost(9), poseidon(96, 0, 5));
    assert_eq!(poseidon_hash_many_cost(10), poseidon(76, 0, 6));
    assert_eq!(poseidon_hash_many_cost(25), poseidon(170, 0, 13));
}

#[test]
fn leaf_estimate_is_base_plus_hash_cost() {
    let r = estimate_casm_hash_computation_resources(&NestedIntList::Leaf(10)).unwrap();
    assert_eq!(r, poseidon(463 + 76, 0, 10 + 6));
    assert_eq!(r.n_steps(), 539);
    assert_eq!(r.builtin_count(BuiltinName::Poseidon), 16);
    assert_eq!(r.builtin_count(BuiltinName::Pedersen), 0);
}

#[test]
fn leaf_estimate_grows_with_length_within_a_round() {
    let mut last = 0;
    for length in 0..8 {
        let r = estimate_casm_hash_computation_resources(&NestedIntList::Leaf(length)).unwrap();
        assert!(r.n_steps() >= last);
        last = r.n_steps();
    }
}

#[test]
fn two_leaf_node_estimate() {
    let tree = NestedIntList::Node(vec![NestedIntList::Leaf(3), NestedIntList::Leaf(4)]);
    let r = estimate_casm_hash_computation_resources(&tree).unwrap();
    let expected = poseidon(480, 0, 11)
        .add(&poseidon_hash_many_cost(3).add(&poseidon(24, 1, 1)))
        .add(&poseidon_hash_many_cost(4).add(&poseidon(24, 1, 1)));
    assert_eq!(r, expected);
    assert_eq!(r, poseidon(627, 2, 18));
}

#[test]
fn empty_node_estimate_is_the_base() {
    let r = estimate_casm_hash_computation_resources(&NestedIntList::Node(vec![])).unwrap();
    assert_eq!(r, poseidon(480, 0, 11));
}

#[test]
fn nested_node_estimate_fails() {
    let tree = NestedIntList::Node(vec![
        NestedIntList::Leaf(3),
        NestedIntList::Node(vec![NestedIntList::Leaf(4)]),
    ]);
    assert_eq!(
        estimate_casm_hash_computation_resources(&tree),
        Err(CostEstimationError::UnsupportedSegmentDepth)
    );
}

#[test]
fn consistent_visits_give_leaf_starts() {
    let tree = NestedIntList::Node(vec![
        NestedIntList::Leaf(10),
        NestedIntList::Node(vec![NestedIntList::Leaf(5), NestedIntList::Leaf(5)]),
        NestedIntList::Leaf(10),
    ]);
    let pcs = HashSet::from([25, 3, 10, 0, 16, 15, 2, 20]);
    assert_eq!(visited_segments(&tree, &pcs).unwrap(), vec![0, 10, 15, 20]);
}

#[test]
fn visits_past_the_bytecode_are_ignored() {
    let tree = NestedIntList::Node(vec![NestedIntList::Leaf(10), NestedIntList::Leaf(10)]);
    let pcs = HashSet::from([100, 0, 10]);
    assert_eq!(visited_segments(&tree, &pcs).unwrap(), vec![0, 10]);
}

#[test]
fn no_visits_give_no_segments() {
    let tree = NestedIntList::Node(vec![NestedIntList::Leaf(10), NestedIntList::Leaf(10)]);
    assert_eq!(visited_segments(&tree, &HashSet::new()).unwrap(), Vec::<usize>::new());
}

#[test]
fn leaf_root_accepts_any_pc_inside() {
    let tree = NestedIntList::Leaf(10);
    assert_eq!(visited_segments(&tree, &HashSet::from([7, 4])).unwrap(), vec![0]);
}

#[test]
fn inner_pc_without_segment_start_is_rejected() {
    let tree = NestedIntList::Node(vec![NestedIntList::Leaf(10), NestedIntList::Leaf(10)]);
    assert_eq!(
        visited_segments(&tree, &HashSet::from([0, 13])),
        Err(TransactionExecutionError::InvalidSegmentStructure(13, 10))
    );
}

#[test]
fn inner_leaf_start_without_node_start_is_rejected() {
    let tree = NestedIntList::Node(vec![NestedIntList::Node(vec![
        NestedIntList::Leaf(5),
        NestedIntList::Leaf(5),
    ])]);
    assert_eq!(
        visited_segments(&tree, &HashSet::from([5])),
        Err(TransactionExecutionError::InvalidSegmentStructure(5, 0))
    );
}

#[test]
fn runnable_dispatches_segments_and_estimates() {
    let v1 = RunnableCompiledClass::V1(v1_with_tree(NestedIntList::Leaf(10)));
    assert_eq!(v1.get_visited_segments(&HashSet::from([3])).unwrap(), vec![0]);
    assert_eq!(v1.estimate_casm_hash_computation_resources().unwrap(), poseidon(539, 0, 16));
    let nested = RunnableCompiledClass::V1(v1_with_tree(NestedIntList::Node(vec![
        NestedIntList::Node(vec![]),
    ])));
    assert_eq!(
        nested.estimate_casm_hash_computation_resources(),
        Err(CostEstimationError::UnsupportedSegmentDepth)
    );
}

#[test]
fn v0_has_no_visited_segments() {
    let v0 = RunnableCompiledClass::V0(CompiledClassV0(Arc::new(CompiledClassV0Inner {
        program: Program::default(),
        entry_points_by_type: EntryPointsByType {
            constructor: vec![],
            external: vec![],
            l1_handler: vec![],
        },
    })));
    assert_eq!(
        v0.get_visited_segments(&HashSet::from([0])),
        Err(TransactionExecutionError::UnsupportedOperationForVariant)
    );
}

#[test]
fn tree_clone_keeps_layout() {
    let tree = NestedIntList::Node(vec![
        NestedIntList::Leaf(1),
        NestedIntList::Node(vec![NestedIntList::Leaf(2)]),
    ]);
    assert_eq!(tree.clone(), tree);
}

#[test]
fn segments_past_the_largest_pc_are_walked() {
    let tree = NestedIntList::Node(vec![
        NestedIntList::Leaf(usize::MAX),
        NestedIntList::Leaf(5),
        NestedIntList::Leaf(usize::MAX),
        NestedIntList::Leaf(3),
    ]);
    assert_eq!(visited_segments(&tree, &HashSet::from([0, 7])).unwrap(), vec![0]);
    assert_eq!(
        visited_segments(&tree, &HashSet::from([0, usize::MAX])).unwrap(),
        vec![0, usize::MAX]
    );
    assert_eq!(
        visited_segments(&tree, &HashSet::from([usize::MAX - 1])),
        Err(TransactionExecutionError::InvalidSegmentStructure(usize::MAX - 1, 0))
    );
}
