use std::sync::Arc;

use compiled_class::builtins::BuiltinName;
use compiled_class::compiled_class::{
    CompiledClassV0, CompiledClassV0Inner, CompiledClassV1, CompiledClassV1Inner,
    GasVectorComputationMode, TrackedResource,
};
use compiled_class::entry_points::{
    CallEntryPoint, EntryPointOffset, EntryPointSelector, EntryPointType, EntryPointV0,
    EntryPointV1, EntryPointsByType, PreExecutionError,
};
use compiled_class::felt::Felt;
use compiled_class::program::{HintTable, Program};
use compiled_class::runnable::RunnableCompiledClass;
use compiled_class::segments::NestedIntList;
use compiled_class::version::CompilerVersion;

fn selector(n: u128) -> EntryPointSelector {
    EntryPointSelector(Felt::from_u128(n))
}

fn ep(sel: u128, offset: usize, builtins: Vec<BuiltinName>) -> EntryPointV1 {
    EntryPointV1 { selector: selector(sel), offset: EntryPointOffset(offset), builtins }
}

fn table() -> EntryPointsByType<EntryPointV1> {
    EntryPointsByType {
        constructor: vec![ep(7, 0, vec![])],
        external: vec![
            ep(1, 10, vec![BuiltinName::RangeCheck]),
            ep(2, 20, vec![BuiltinName::Poseidon, BuiltinName::Pedersen]),
            ep(2, 30, vec![]),
        ],
        l1_handler: vec![ep(1, 40, vec![])],
    }
}

fn call(entry_point_type: EntryPointType, sel: u128) -> CallEntryPoint {
    CallEntryPoint { entry_point_type, entry_point_selector: selector(sel) }
}

fn v1(version: &str, entry_points_by_type: EntryPointsByType<EntryPointV1>) -> CompiledClassV1 {
    CompiledClassV1(Arc::new(CompiledClassV1Inner {
        program: Program::default(),
        entry_points_by_type,
        hints: HintTable::new(),
        compiler_version: CompilerVersion::parse(version).unwrap(),
        bytecode_segment_lengths: NestedIntList::Leaf(0),
    }))
}

#[test]
fn single_match_is_returned_unchanged() {
    let found = table().get_entry_point(&call(EntryPointType::External, 1)).unwrap();
    assert_eq!(found, ep(1, 10, vec![BuiltinName::RangeCheck]));
    assert_eq!(found.pc(), 10);
}

#[test]
fn lookup_is_per_kind() {
    let found = table().get_entry_point(&call(EntryPointType::L1Handler, 1)).unwrap();
    assert_eq!(found.pc(), 40);
}

#[test]
fn missing_selector_is_not_found() {
    assert_eq!(
        table().get_entry_point(&call(EntryPointType::Constructor, 1)),
        Err(PreExecutionError::EntryPointNotFound(selector(1)))
    );
}

#[test]
fn shared_selector_is_duplicated() {
    assert_eq!(
        table().get_entry_point(&call(EntryPointType::External, 2)),
        Err(PreExecutionError::DuplicatedEntryPointSelector {
            selector: selector(2),
            typ: EntryPointType::External,
        })
    );
}

#[test]
fn v0_lookup_and_index() {
    let t = EntryPointsByType {
        constructor: vec![],
        external: vec![EntryPointV0 { selector: selector(5), offset: EntryPointOffset(3) }],
        l1_handler: vec![],
    };
    assert_eq!(t.index(EntryPointType::External).len(), 1);
    assert_eq!(
        t.get_entry_point(&call(EntryPointType::External, 5)).unwrap().offset,
        EntryPointOffset(3)
    );
}

#[test]
fn class_lookup_goes_to_its_table() {
    let class = v1("1.0.0", table());
    assert_eq!(class.get_entry_point(&call(EntryPointType::External, 1)).unwrap().pc(), 10);
}

#[test]
fn constructor_selector_is_the_first() {
    let class = v1("1.0.0", table());
    assert_eq!(class.constructor_selector(), Some(selector(7)));
    let empty = v1(
        "1.0.0",
        EntryPointsByType { constructor: vec![], external: vec![], l1_handler: vec![] },
    );
    assert_eq!(empty.constructor_selector(), None);
    assert_eq!(RunnableCompiledClass::V1(class).constructor_selector(), Some(selector(7)));
}

#[test]
fn tracked_resource_by_version() {
    let min = CompilerVersion::parse("2.7.0").unwrap();
    assert_eq!(v1("2.7.0", table()).tracked_resource(&min), TrackedResource::SierraGas);
    assert_eq!(v1("2.10.1", table()).tracked_resource(&min), TrackedResource::SierraGas);
    assert_eq!(v1("2.6.9", table()).tracked_resource(&min), TrackedResource::CairoSteps);
    assert_eq!(v1("2.7.0-rc.1", table()).tracked_resource(&min), TrackedResource::CairoSteps);
    let runnable = RunnableCompiledClass::V1(v1("2.8.0", table()));
    assert_eq!(
        runnable.tracked_resource(&min, GasVectorComputationMode::All),
        TrackedResource::SierraGas
    );
    assert_eq!(
        runnable.tracked_resource(&min, GasVectorComputationMode::NoL2Gas),
        TrackedResource::CairoSteps
    );
    assert_eq!(TrackedResource::default(), TrackedResource::CairoSteps);
}

fn v0() -> CompiledClassV0 {
    let builtins = vec![BuiltinName::Pedersen, BuiltinName::RangeCheck];
    let data = (0..5).map(Felt::from_u128).collect();
    let program = Program::new(builtins, data, vec![]).unwrap();
    let e = |n: u128| EntryPointV0 { selector: selector(n), offset: EntryPointOffset(0) };
    CompiledClassV0(Arc::new(CompiledClassV0Inner {
        program,
        entry_points_by_type: EntryPointsByType {
            constructor: vec![e(1)],
            external: vec![e(2), e(3)],
            l1_handler: vec![],
        },
    }))
}

#[test]
fn v0_class_operations() {
    let class = v0();
    assert_eq!(class.n_entry_points(), 3);
    assert_eq!(class.n_builtins(), 2);
    assert_eq!(class.bytecode_length(), 5);
    assert_eq!(class.constructor_selector(), Some(selector(1)));
    assert_eq!(class.tracked_resource(), TrackedResource::CairoSteps);
    let r = class.estimate_casm_hash_computation_resources();
    assert_eq!(r.n_steps(), 8 * 14);
    assert_eq!(r.n_memory_holes(), 0);
    assert_eq!(r.builtin_count(BuiltinName::Pedersen), 14);
    assert_eq!(r.builtin_count(BuiltinName::Poseidon), 0);
    let runnable = RunnableCompiledClass::V0(class);
    assert_eq!(runnable.bytecode_length(), 5);
    assert_eq!(
        runnable.tracked_resource(
            &CompilerVersion::parse("0.0.1").unwrap(),
            GasVectorComputationMode::All
        ),
        TrackedResource::CairoSteps
    );
    assert_eq!(runnable.estimate_casm_hash_computation_resources().unwrap().n_steps(), 112);
}

#[test]
fn builtin_names_parse_in_both_spellings() {
    assert_eq!(BuiltinName::parse("poseidon"), Some(BuiltinName::Poseidon));
    assert_eq!(BuiltinName::parse("range_check96"), Some(BuiltinName::RangeCheck96));
    assert_eq!(BuiltinName::parse("segment_arena_builtin"), Some(BuiltinName::SegmentArena));
    assert_eq!(BuiltinName::parse("output_builtin"), Some(BuiltinName::Output));
    assert_eq!(BuiltinName::parse("sha256"), None);
    assert_eq!(BuiltinName::parse(""), None);
    assert_eq!(BuiltinName::MulMod.to_str(), "mul_mod");
    assert_eq!(BuiltinName::MulMod.to_suffixed_string(), "mul_mod_builtin");
    assert_eq!(BuiltinName::RangeCheck96.to_suffixed_string(), "range_check96_builtin");
}

#[test]
fn compiler_version_parsing() {
    assert!(CompilerVersion::parse("2.9.0-dev.0").is_some());
    assert!(CompilerVersion::parse("v2.9.0").is_none());
    assert!(CompilerVersion::parse("2.9").is_none());
    assert_eq!(CompilerVersion::parse("1.2.3").unwrap().as_str(), "1.2.3");
    let a = CompilerVersion::parse("1.2.3").unwrap();
    let b = CompilerVersion::parse("1.10.0").unwrap();
    assert!(a.le(&b));
    assert!(!b.le(&a));
}
