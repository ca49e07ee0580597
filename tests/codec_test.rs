use compiled_class::builtins::BuiltinName;
use compiled_class::casm::{CasmContractClass, CasmContractEntryPoint, CasmContractEntryPoints};
use compiled_class::compiled_class::CompiledClassV1;
use compiled_class::felt::Felt;
use compiled_class::program::{Hint, HintTable, ProgramError};
use compiled_class::segments::NestedIntList;

const HINT_A: &str = "{\"AllocSegment\":{\"dst\":{\"register\":\"AP\",\"offset\":0}}}";
const HINT_B: &str = "{\"TestLessThan\":{\"lhs\":{\"Deref\":{\"register\":\"AP\",\"offset\":-1}}}}";

fn wire_ep(selector: Vec<u8>, offset: usize, builtins: &[&str]) -> CasmContractEntryPoint {
    CasmContractEntryPoint {
        selector,
        offset,
        builtins: builtins.iter().map(|b| b.to_string()).collect(),
    }
}

fn wire_class() -> CasmContractClass {
    CasmContractClass {
        prime: "0x800000000000011000000000000000000000000000000000000000000000001".to_string(),
        compiler_version: "2.9.2".to_string(),
        bytecode: vec![vec![0x48, 0x07], vec![0x01], vec![], vec![0x20, 0x80, 0x7f, 0xfd]],
        bytecode_segment_lengths: None,
        hints: vec![
            (0, vec![Hint(HINT_A.to_string())]),
            (3, vec![Hint(HINT_B.to_string()), Hint(HINT_A.to_string())]),
        ],
        entry_points_by_type: CasmContractEntryPoints {
            constructor: vec![],
            external: vec![
                wire_ep(vec![0x12, 0x34], 0, &["range_check", "poseidon_builtin"]),
                wire_ep(vec![0x56], 2, &[]),
            ],
            l1_handler: vec![wire_ep(vec![0x01, 0x00], 3, &["pedersen"])],
        },
    }
}

fn felt(n: u128) -> Felt {
    Felt::from_u128(n)
}

#[test]
fn decode_reads_bytecode_entry_points_and_defaults() {
    let class = CompiledClassV1::try_from_casm(wire_class()).unwrap();
    assert_eq!(class.bytecode_length(), 4);
    assert_eq!(
        class.0.program.data(),
        &vec![felt(0x4807), felt(1), felt(0), felt(0x20807ffd)]
    );
    assert_eq!(class.bytecode_segment_lengths(), &NestedIntList::Leaf(4));
    assert_eq!(class.0.compiler_version.as_str(), "2.9.2");
    let external = &class.0.entry_points_by_type.external;
    assert_eq!(external.len(), 2);
    assert_eq!(external[0].selector.0, felt(0x1234));
    assert_eq!(external[0].builtins, vec![BuiltinName::RangeCheck, BuiltinName::Poseidon]);
    assert_eq!(external[1].pc(), 2);
    assert_eq!(class.0.entry_points_by_type.l1_handler[0].selector.0, felt(0x100));
    assert_eq!(class.0.entry_points_by_type.l1_handler[0].builtins, vec![BuiltinName::Pedersen]);
}

#[test]
fn decode_groups_hints_and_builds_their_table() {
    let class = CompiledClassV1::try_from_casm(wire_class()).unwrap();
    let hints = class.0.program.hints();
    assert_eq!(hints.len(), 2);
    assert_eq!(hints[0].0, 0);
    assert_eq!(hints[0].1[0].code, HINT_A);
    assert_eq!(hints[1].0, 3);
    assert_eq!(hints[1].1.len(), 2);
    assert_eq!(hints[1].1[0].code, HINT_B);
    assert!(hints[1].1[0].accessible_scopes.is_empty());
    assert_eq!(class.0.hints.len(), 2);
    assert_eq!(class.0.hints.lookup(&HINT_A.to_string()), Some(Hint(HINT_A.to_string())));
    assert_eq!(class.0.hints.lookup(&HINT_B.to_string()), Some(Hint(HINT_B.to_string())));
    assert_eq!(class.0.hints.lookup(&"{}".to_string()), None);
}

#[test]
fn decode_keeps_declared_segments() {
    let mut w = wire_class();
    let tree = NestedIntList::Node(vec![NestedIntList::Leaf(1), NestedIntList::Leaf(3)]);
    w.bytecode_segment_lengths = Some(tree.clone());
    let class = CompiledClassV1::try_from_casm(w).unwrap();
    assert_eq!(class.bytecode_segment_lengths(), &tree);
}

#[test]
fn decode_reduces_values_modulo_the_prime() {
    let mut prime_plus_one = vec![0x08, 0, 0, 0, 0, 0, 0, 0x11];
    prime_plus_one.extend(vec![0; 23]);
    prime_plus_one.push(2);
    let mut w = wire_class();
    w.bytecode[1] = prime_plus_one;
    let class = CompiledClassV1::try_from_casm(w).unwrap();
    assert_eq!(class.0.program.data()[1], felt(1));
}

#[test]
fn decode_rejects_unknown_builtin() {
    let mut w = wire_class();
    w.entry_points_by_type.constructor = vec![wire_ep(vec![1], 0, &["sha512"])];
    assert_eq!(CompiledClassV1::try_from_casm(w), Err(ProgramError::UnrecognizedBuiltin));
}

#[test]
fn decode_rejects_bad_version() {
    let mut w = wire_class();
    w.compiler_version = "two".to_string();
    assert_eq!(CompiledClassV1::try_from_casm(w), Err(ProgramError::InvalidCompilerVersion));
}

#[test]
fn decode_rejects_hint_past_bytecode() {
    let mut w = wire_class();
    w.hints.push((9, vec![]));
    w.hints.push((5, vec![]));
    assert_eq!(CompiledClassV1::try_from_casm(w), Err(ProgramError::InvalidHintPc(9, 4)));
}

#[test]
fn decode_encode_decode_keeps_the_class() {
    let first = CompiledClassV1::try_from_casm(wire_class()).unwrap();
    let written = first.to_casm().unwrap();
    assert_eq!(written.bytecode[0].len(), 32);
    assert_eq!(written.bytecode[0][30..], [0x48, 0x07]);
    assert_eq!(written.entry_points_by_type.external[0].builtins, vec!["range_check_builtin", "poseidon_builtin"]);
    assert_eq!(written.bytecode_segment_lengths, Some(NestedIntList::Leaf(4)));
    assert_eq!(written.compiler_version, "2.9.2");
    assert_eq!(written.prime, wire_class().prime);
    assert_eq!(written.hints, wire_class().hints);
    let second = CompiledClassV1::try_from_casm(written).unwrap();
    assert_eq!(second, first);
}

#[test]
fn encode_needs_every_hint_in_the_table() {
    let first = CompiledClassV1::try_from_casm(wire_class()).unwrap();
    let mut inner = compiled_class::compiled_class::CompiledClassV1Inner {
        program: compiled_class::program::Program::new(
            vec![],
            first.0.program.data().clone(),
            vec![(0, vec![compiled_class::program::HintParams {
                code: "{}".to_string(),
                accessible_scopes: vec![],
            }])],
        )
        .unwrap(),
        entry_points_by_type: compiled_class::entry_points::EntryPointsByType {
            constructor: vec![],
            external: vec![],
            l1_handler: vec![],
        },
        hints: HintTable::new(),
        compiler_version: first.0.compiler_version.clone(),
        bytecode_segment_lengths: NestedIntList::Leaf(4),
    };
    let missing = CompiledClassV1(std::sync::Arc::new(inner));
    assert_eq!(missing.to_casm(), Err(ProgramError::HintNotFound));
    inner = compiled_class::compiled_class::CompiledClassV1Inner {
        hints: HintTable::new().insert(&Hint("{}".to_string())),
        ..std::sync::Arc::try_unwrap(missing.0).unwrap()
    };
    let present = CompiledClassV1(std::sync::Arc::new(inner));
    assert_eq!(present.to_casm().unwrap().hints, vec![(0, vec![Hint("{}".to_string())])]);
}

#[test]
fn felt_bytes_round_trip() {
    let f = felt(0x0102_0304);
    let bytes = f.to_be_bytes();
    assert_eq!(bytes[28..], [1, 2, 3, 4]);
    assert!(bytes[..28].iter().all(|b| *b == 0));
    assert_eq!(Felt::from_be_bytes(&bytes), f);
    assert_eq!(f.to_be_vec(), bytes.to_vec());
    assert_ne!(felt(1), felt(2));
    let mut prime = vec![0x08, 0, 0, 0, 0, 0, 0, 0x11];
    prime.extend(vec![0; 23]);
    prime.push(1);
    assert_eq!(Felt::from_be_bytes(&prime), felt(0));
}
