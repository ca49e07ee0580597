use std::collections::HashSet;
use std::sync::Arc;

use compiled_class::compiled_class::{CompiledClassV1, CompiledClassV1Inner};
use compiled_class::entry_points::{
    EntryPointOffset, EntryPointSelector, EntryPointV1, EntryPointsByType,
};
use compiled_class::felt::Felt;
use compiled_class::program::{HintTable, Program};
use compiled_class::segments::NestedIntList;
use compiled_class::version::CompilerVersion;
use compiled_class::visited::TransactionExecutionError;

fn class_with(
    entry_points_by_type: EntryPointsByType<EntryPointV1>,
    bytecode_segment_lengths: NestedIntList,
) -> CompiledClassV1 {
    CompiledClassV1(Arc::new(CompiledClassV1Inner {
        program: Program::default(),
        entry_points_by_type,
        hints: HintTable::new(),
        compiler_version: CompilerVersion::parse("0.0.0").unwrap(),
        bytecode_segment_lengths,
    }))
}

#[test]
fn test_get_visited_segments() {
    let test_contract = class_with(
        EntryPointsByType::default(),
        NestedIntList::Node(vec![
            NestedIntList::Leaf(151),
            NestedIntList::Leaf(104),
            NestedIntList::Node(vec![NestedIntList::Leaf(170), NestedIntList::Leaf(225)]),
            NestedIntList::Leaf(157),
            NestedIntList::Node(vec![NestedIntList::Node(vec![
                NestedIntList::Node(vec![NestedIntList::Leaf(101)]),
                NestedIntList::Leaf(195),
                NestedIntList::Leaf(125),
            ])]),
            NestedIntList::Leaf(162),
        ]),
    );

    assert_eq!(
        test_contract
            .get_visited_segments(&HashSet::from([807, 907, 0, 1, 255, 425, 431, 1103]))
            .unwrap(),
        [0, 255, 425, 807, 1103]
    );

    assert!(matches!(
        test_contract
            .get_visited_segments(&HashSet::from([907, 0, 1, 255, 425, 431, 1103]))
            .unwrap_err(),
        TransactionExecutionError::InvalidSegmentStructure(907, 807)
    ));
}

fn entry_point(selector: u128, offset: usize) -> EntryPointV1 {
    EntryPointV1 {
        selector: EntryPointSelector(Felt::from_u128(selector)),
        offset: EntryPointOffset(offset),
        builtins: vec![],
    }
}

#[test]
fn test_partial_eq() {
    let make = |selector: u128| {
        class_with(
            EntryPointsByType {
                constructor: vec![],
                external: vec![entry_point(selector, 0)],
                l1_handler: vec![],
            },
            NestedIntList::Leaf(0),
        )
    };
    let contract_a = make(0x1234);
    let contract_b = make(0x5678);
    assert_eq!(contract_b, contract_b);
    assert_eq!(contract_a, contract_a);
    assert_ne!(
        contract_a, contract_b,
        "Contracts should be considered different because they have different entry points. \
         Specifically, the selectors are different due to having different names."
    );
}
