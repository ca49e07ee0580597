use std::sync::Arc;

use vstd::prelude::*;

use crate::builtins::BuiltinName;
use crate::casm::{CasmContractClass, CasmContractEntryPoint, CasmContractEntryPoints};
use crate::compiled_class::{CompiledClassV1, CompiledClassV1Inner};
use crate::entry_points::{EntryPointOffset, EntryPointSelector, EntryPointV1, EntryPointsByType};
use crate::felt::{be_value, felt_values, field_prime, Felt};
use crate::program::{
    codes,
    hint_codes,
    max_pc,
    pcs_below,
    table_has,
    table_wf,
    Hint,
    HintParams,
    HintTable,
    Program,
    ProgramError,
};
use crate::segments::{shape, NestedIntList, SegmentShape};
use crate::version::{is_semver, CompilerVersion};

verus! {

/// `s` is a spelling of builtin `b`: `b` is the builtin whose plain name `s` is, or, when `s`
/// is no plain name, the builtin whose suffixed name it is.
pub open spec fn parsed_as(s: Seq<char>, b: BuiltinName) -> bool {
    &&& (s == b.name() || s == b.suffixed_name())
    &&& forall|c: BuiltinName| s == c.name() ==> c == b
    &&& (forall|c: BuiltinName| s != c.name()) ==> forall|c: BuiltinName|
        s == c.suffixed_name() ==> c == b
}

/// `s` spells some builtin.
pub open spec fn known_builtin(s: Seq<char>) -> bool {
    exists|b: BuiltinName| s == b.name() || s == b.suffixed_name()
}

/// Every builtin named by the wire entry points is known.
pub open spec fn known_builtins(w: Seq<CasmContractEntryPoint>) -> bool {
    forall|i: int, j: int|
        0 <= i < w.len() && 0 <= j < w[i].builtins@.len() ==> known_builtin(w[i].builtins@[j]@)
}

/// `ep` is what the wire entry point `w` reads as.
pub open spec fn decodes_entry_point(w: CasmContractEntryPoint, ep: EntryPointV1) -> bool {
    &&& ep.selector.0@ == be_value(w.selector@) % field_prime()
    &&& ep.offset.0 == w.offset
    &&& ep.builtins@.len() == w.builtins@.len()
    &&& forall|j: int| 0 <= j < w.builtins@.len() ==> parsed_as(w.builtins@[j]@, ep.builtins@[j])
}

/// `e` is what the wire entry points `w` read as, one for one.
pub open spec fn decodes_entry_points(w: Seq<CasmContractEntryPoint>, e: Seq<EntryPointV1>) -> bool {
    &&& w.len() == e.len()
    &&& forall|i: int| 0 <= i < w.len() ==> decodes_entry_point(w[i], e[i])
}

fn convert_builtins(names: &Vec<String>) -> (r: Result<Vec<BuiltinName>, ProgramError>)
    ensures
        match r {
            Ok(v) => (forall|j: int| 0 <= j < names@.len() ==> known_builtin(names@[j]@))
                && v@.len() == names@.len() && forall|j: int|
                0 <= j < names@.len() ==> parsed_as(names@[j]@, v@[j]),
            Err(e) => e == ProgramError::UnrecognizedBuiltin && exists|j: int|
                0 <= j < names@.len() && !known_builtin(names@[j]@),
        },
{
    let mut v: Vec<BuiltinName> = Vec::new();
    let mut j: usize = 0;
    while j < names.len()
        invariant
            j <= names@.len(),
            v@.len() == j,
            forall|k: int| 0 <= k < j ==> known_builtin(names@[k]@),
            forall|k: int| 0 <= k < j ==> parsed_as(names@[k]@, v@[k]),
        decreases names@.len() - j,
    {
        match BuiltinName::parse(names[j].as_str()) {
            Some(b) => {
                v.push(b);
            },
            None => {
                return Err(ProgramError::UnrecognizedBuiltin);
            },
        }
        j = j + 1;
    }
    Ok(v)
}

/// Reads the wire entry points: selectors become field elements, offsets are kept, and each
/// builtin name is read by its plain spelling first, then by its suffixed one.
fn convert_entry_points_v1(external: &Vec<CasmContractEntryPoint>) -> (r: Result<
    Vec<EntryPointV1>,
    ProgramError,
>)
    ensures
        match r {
            Ok(v) => known_builtins(external@) && decodes_entry_points(external@, v@),
            Err(e) => e == ProgramError::UnrecognizedBuiltin && !known_builtins(external@),
        },
{
    let mut v: Vec<EntryPointV1> = Vec::new();
    let mut i: usize = 0;
    while i < external.len()
        invariant
            i <= external@.len(),
            v@.len() == i,
            forall|k: int, j: int|
                0 <= k < i && 0 <= j < external@[k].builtins@.len() ==> known_builtin(
                    external@[k].builtins@[j]@,
                ),
            forall|k: int| 0 <= k < i ==> decodes_entry_point(external@[k], v@[k]),
        decreases external@.len() - i,
    {
        let ep = &external[i];
        let builtins = match convert_builtins(&ep.builtins) {
            Ok(b) => b,
            Err(e) => {
                return Err(e);
            },
        };
        let selector = EntryPointSelector(Felt::from_be_bytes(ep.selector.as_slice()));
        v.push(EntryPointV1 { selector, offset: EntryPointOffset(ep.offset), builtins });
        i = i + 1;
    }
    Ok(v)
}

/// The hints of the wire format by pc: each pc with the texts of its hints.
pub open spec fn hint_texts(h: Seq<(usize, Vec<Hint>)>) -> Seq<(usize, Seq<Seq<char>>)> {
    Seq::new(h.len(), |i: int| (h[i].0, Seq::new(h[i].1@.len(), |j: int| h[i].1@[j].0@)))
}

/// Some hint of the groups before position `i` has the text `t`.
pub open spec fn hint_text_before(h: Seq<(usize, Vec<Hint>)>, i: int, t: Seq<char>) -> bool {
    exists|a: int, b: int| 0 <= a < i && 0 <= b < h[a].1@.len() && #[trigger] h[a].1@[b].0@ == t
}

/// No hint of the program runs in a scope.
pub open spec fn no_scopes(h: Seq<(usize, Vec<HintParams>)>) -> bool {
    forall|i: int, j: int|
        0 <= i < h.len() && 0 <= j < h[i].1@.len() ==> (#[trigger] h[i].1@[j]).accessible_scopes@.len() == 0
}

/// Every builtin that the wire entry points name is known.
pub open spec fn all_builtins_known(e: CasmContractEntryPoints) -> bool {
    &&& known_builtins(e.constructor@)
    &&& known_builtins(e.external@)
    &&& known_builtins(e.l1_handler@)
}

/// The wire class reads as a class: its hints stand inside the bytecode, its builtins are
/// known, and its compiler version is a semantic version.
pub open spec fn decode_ok(w: CasmContractClass) -> bool {
    &&& pcs_below(w.hints@, w.bytecode@.len())
    &&& all_builtins_known(w.entry_points_by_type)
    &&& is_semver(w.compiler_version@)
}

/// The error reading the wire class gives, the first of its checks that fails.
pub open spec fn decode_error(w: CasmContractClass) -> ProgramError {
    if !pcs_below(w.hints@, w.bytecode@.len()) {
        ProgramError::InvalidHintPc(max_pc(w.hints@), w.bytecode@.len() as usize)
    } else if !all_builtins_known(w.entry_points_by_type) {
        ProgramError::UnrecognizedBuiltin
    } else {
        ProgramError::InvalidCompilerVersion
    }
}

/// The field elements that the big-endian numbers of `b` denote.
pub open spec fn wire_felts(b: Seq<Vec<u8>>) -> Seq<nat> {
    Seq::new(b.len(), |i: int| be_value(b[i]@) % field_prime())
}

/// The segment layout the wire class declares; one segment over the whole bytecode when it
/// declares none.
pub open spec fn declared_shape(w: CasmContractClass) -> SegmentShape {
    match w.bytecode_segment_lengths {
        Some(t) => shape(t),
        None => SegmentShape::Leaf(w.bytecode@.len()),
    }
}

/// `c` is what the wire class `w` reads as.
pub open spec fn decoded(w: CasmContractClass, c: CompiledClassV1) -> bool {
    let e = w.entry_points_by_type;
    &&& felt_values(c.0.program.data_spec()) == wire_felts(w.bytecode@)
    &&& hint_codes(c.0.program.hints_spec()) == hint_texts(w.hints@)
    &&& no_scopes(c.0.program.hints_spec())
    &&& table_wf(c.0.hints@)
    &&& forall|t: Seq<char>| table_has(c.0.hints@, t) ==> hint_text_before(w.hints@, w.hints@.len() as int, t)
    &&& forall|i: int, j: int|
        0 <= i < w.hints@.len() && 0 <= j < w.hints@[i].1@.len() ==> table_has(
            c.0.hints@,
            w.hints@[i].1@[j].0@,
        )
    &&& decodes_entry_points(e.constructor@, c.0.entry_points_by_type.constructor@)
    &&& decodes_entry_points(e.external@, c.0.entry_points_by_type.external@)
    &&& decodes_entry_points(e.l1_handler@, c.0.entry_points_by_type.l1_handler@)
    &&& c.0.compiler_version@ == w.compiler_version@
    &&& shape(c.0.bytecode_segment_lengths) == declared_shape(w)
}

proof fn lemma_same_pcs<T, U>(a: Seq<(usize, T)>, b: Seq<(usize, U)>)
    requires
        a.len() == b.len(),
        forall|i: int| 0 <= i < a.len() ==> a[i].0 == b[i].0,
    ensures
        max_pc(a) == max_pc(b),
        forall|n: nat| pcs_below(a, n) <==> pcs_below(b, n),
    decreases a.len(),
{
    if a.len() > 0 {
        lemma_same_pcs(a.drop_last(), b.drop_last());
    }
}

/// `w` is how the wire format writes the entry point `ep`.
pub open spec fn encodes_entry_point(ep: EntryPointV1, w: CasmContractEntryPoint) -> bool {
    &&& be_value(w.selector@) == ep.selector.0@
    &&& w.offset == ep.offset.0
    &&& w.builtins@.len() == ep.builtins@.len()
    &&& forall|j: int|
        0 <= j < w.builtins@.len() ==> w.builtins@[j]@ == ep.builtins@[j].suffixed_name()
}

/// `w` is how the wire format writes the entry points `e`, one for one.
pub open spec fn encodes_entry_points(e: Seq<EntryPointV1>, w: Seq<CasmContractEntryPoint>) -> bool {
    &&& w.len() == e.len()
    &&& forall|i: int| 0 <= i < e.len() ==> encodes_entry_point(e[i], w[i])
}

/// Every hint of the class's program has an entry in the class's table of hints.
pub open spec fn encode_ok(c: CompiledClassV1) -> bool {
    let h = c.0.program.hints_spec();
    forall|i: int, j: int|
        0 <= i < h.len() && 0 <= j < h[i].1@.len() ==> table_has(c.0.hints@, h[i].1@[j].code@)
}

/// `w` is how the wire format writes the class `c`.
pub open spec fn encoded(c: CompiledClassV1, w: CasmContractClass) -> bool {
    let d = c.0.program.data_spec();
    let h = c.0.program.hints_spec();
    let e = c.0.entry_points_by_type;
    &&& w.bytecode@.len() == d.len()
    &&& forall|i: int| 0 <= i < d.len() ==> be_value(w.bytecode@[i]@) == d[i]@
    &&& w.hints@.len() == h.len()
    &&& forall|i: int|
        0 <= i < h.len() ==> w.hints@[i].0 == h[i].0 && w.hints@[i].1@.len() == h[i].1@.len()
    &&& forall|i: int, j: int|
        0 <= i < h.len() && 0 <= j < h[i].1@.len() ==> w.hints@[i].1@[j].0@ == h[i].1@[j].code@
    &&& encodes_entry_points(e.constructor@, w.entry_points_by_type.constructor@)
    &&& encodes_entry_points(e.external@, w.entry_points_by_type.external@)
    &&& encodes_entry_points(e.l1_handler@, w.entry_points_by_type.l1_handler@)
    &&& w.bytecode_segment_lengths matches Some(t) && shape(t) == shape(c.0.bytecode_segment_lengths)
    &&& w.compiler_version@ == c.0.compiler_version@
    &&& w.prime@ == "0x800000000000011000000000000000000000000000000000000000000000001"@
}

fn casm_entry_points(e: &Vec<EntryPointV1>) -> (r: Vec<CasmContractEntryPoint>)
    ensures
        encodes_entry_points(e@, r@),
{
    let mut r: Vec<CasmContractEntryPoint> = Vec::new();
    let mut i: usize = 0;
    while i < e.len()
        invariant
            i <= e@.len(),
            r@.len() == i,
            forall|k: int| 0 <= k < i ==> encodes_entry_point(e@[k], r@[k]),
        decreases e@.len() - i,
    {
        let ep = &e[i];
        let mut builtins: Vec<String> = Vec::new();
        let mut j: usize = 0;
        while j < ep.builtins.len()
            invariant
                j <= ep.builtins@.len(),
                builtins@.len() == j,
                forall|m: int| 0 <= m < j ==> builtins@[m]@ == ep.builtins@[m].suffixed_name(),
            decreases ep.builtins@.len() - j,
        {
            builtins.push(ep.builtins[j].to_suffixed_string());
            j = j + 1;
        }
        r.push(
            CasmContractEntryPoint {
                selector: ep.selector.0.to_be_vec(),
                offset: ep.offset.0,
                builtins,
            },
        );
        i = i + 1;
    }
    r
}

/// The hint as the program holds it: its text, with no scopes.
fn hint_to_hint_params(hint: &Hint) -> (r: HintParams)
    ensures
        r.code@ == hint.0@,
        r.accessible_scopes@.len() == 0,
{
    HintParams { code: hint.0.clone(), accessible_scopes: Vec::new() }
}

impl CompiledClassV1 {
    /// Reads a class from the CASM wire format. Bytecode values and selectors become field
    /// elements; hints are grouped by pc for the program and gathered in a table keyed by their
    /// text; builtin names are read by their plain spelling first, then by the suffixed one; a
    /// class that declares no segments is one segment over its whole bytecode.
    pub fn try_from_casm(class: CasmContractClass) -> (r: Result<CompiledClassV1, ProgramError>)
        ensures
            r is Ok <==> decode_ok(class),
            r matches Ok(c) ==> decoded(class, c),
            r matches Err(e) ==> e == decode_error(class),
    {
        let ghost w = class;
        let CasmContractClass {
            prime: _,
            compiler_version,
            bytecode,
            bytecode_segment_lengths,
            hints: class_hints,
            entry_points_by_type,
        } = class;
        let mut data: Vec<Felt> = Vec::new();
        let mut i: usize = 0;
        while i < bytecode.len()
            invariant
                i <= bytecode@.len(),
                data@.len() == i,
                felt_values(data@) == wire_felts(bytecode@).take(i as int),
            decreases bytecode@.len() - i,
        {
            let f = Felt::from_be_bytes(bytecode[i].as_slice());
            let ghost d0 = data@;
            data.push(f);
            proof {
                assert(data@ == d0.push(f));
                assert forall|k: int| 0 <= k < i + 1 implies felt_values(data@)[k] == wire_felts(
                    bytecode@,
                ).take(i + 1)[k] by {
                    if k < i {
                        assert(felt_values(d0)[k] == wire_felts(bytecode@).take(i as int)[k]);
                    }
                }
                assert(felt_values(data@) =~= wire_felts(bytecode@).take(i + 1));
            }
            i = i + 1;
        }
        proof {
            assert(wire_felts(bytecode@).take(i as int) =~= wire_felts(bytecode@));
        }
        let mut hints: Vec<(usize, Vec<HintParams>)> = Vec::new();
        let mut string_to_hint = HintTable::new();
        let mut i: usize = 0;
        while i < class_hints.len()
            invariant
                i <= class_hints@.len(),
                hints@.len() == i,
                no_scopes(hints@),
                hint_codes(hints@) == hint_texts(class_hints@).take(i as int),
                table_wf(string_to_hint@),
                forall|t: Seq<char>| table_has(string_to_hint@, t) ==> hint_text_before(class_hints@, i as int, t),
                forall|a: int, b: int|
                    0 <= a < i && 0 <= b < class_hints@[a].1@.len() ==> table_has(
                        string_to_hint@,
                        class_hints@[a].1@[b].0@,
                    ),
            decreases class_hints@.len() - i,
        {
            let hint_list = &class_hints[i].1;
            let mut params: Vec<HintParams> = Vec::new();
            let mut j: usize = 0;
            while j < hint_list.len()
                invariant
                    i < class_hints@.len(),
                    *hint_list == class_hints@[i as int].1,
                    j <= hint_list@.len(),
                    params@.len() == j,
                    forall|b: int| 0 <= b < j ==> (#[trigger] params@[b]).accessible_scopes@.len() == 0,
                    codes(params@) == hint_texts(class_hints@)[i as int].1.take(j as int),
                    table_wf(string_to_hint@),
                    forall|t: Seq<char>|
                        table_has(string_to_hint@, t) ==> hint_text_before(class_hints@, i as int, t)
                            || exists|b: int| 0 <= b < j && class_hints@[i as int].1@[b].0@ == t,
                    forall|a: int, b: int|
                        0 <= a < i && 0 <= b < class_hints@[a].1@.len() ==> table_has(
                            string_to_hint@,
                            class_hints@[a].1@[b].0@,
                        ),
                    forall|b: int|
                        0 <= b < j ==> table_has(string_to_hint@, class_hints@[i as int].1@[b].0@),
                decreases hint_list@.len() - j,
            {
                let hint = &hint_list[j];
                let p = hint_to_hint_params(hint);
                let ghost p0 = params@;
                params.push(p);
                proof {
                    let target = hint_texts(class_hints@)[i as int].1;
                    assert(params@ == p0.push(p));
                    assert forall|k: int| 0 <= k < j + 1 implies codes(params@)[k] == target.take(
                        j + 1,
                    )[k] by {
                        if k < j {
                            assert(codes(p0)[k] == target.take(j as int)[k]);
                        }
                    }
                }
                let ghost table0 = string_to_hint@;
                string_to_hint = string_to_hint.insert(hint);
                proof {
                    assert forall|t: Seq<char>| table_has(string_to_hint@, t) implies hint_text_before(class_hints@, i as int, t)
                        || exists|b: int| 0 <= b < j + 1 && class_hints@[i as int].1@[b].0@ == t by {
                        if !table_has(table0, t) {
                            assert(class_hints@[i as int].1@[j as int].0@ == t);
                        }
                    }
                }
                proof {
                    assert(codes(params@) =~= hint_texts(class_hints@)[i as int].1.take(j + 1));
                }
                j = j + 1;
            }
            proof {
                assert(hint_texts(class_hints@)[i as int].1.take(j as int) =~= hint_texts(
                    class_hints@,
                )[i as int].1);
            }
            proof {
                assert forall|t: Seq<char>| table_has(string_to_hint@, t) implies hint_text_before(class_hints@, i + 1, t) by {
                    if !hint_text_before(class_hints@, i as int, t) {
                        let b = choose|b: int| 0 <= b < j && class_hints@[i as int].1@[b].0@ == t;
                        assert(class_hints@[i as int].1@[b].0@ == t);
                    } else {
                        let (a, b) = choose|a: int, b: int| 0 <= a < i && 0 <= b < class_hints@[a].1@.len() && #[trigger] class_hints@[a].1@[b].0@ == t;
                        assert(class_hints@[a].1@[b].0@ == t);
                    }
                }
            }
            let ghost h0 = hints@;
            hints.push((class_hints[i].0, params));
            proof {
                assert(hints@ == h0.push((class_hints@[i as int].0, params)));
                assert forall|k: int| 0 <= k < i + 1 implies hint_codes(hints@)[k] == hint_texts(
                    class_hints@,
                ).take(i + 1)[k] by {
                    if k < i {
                        assert(hint_codes(h0)[k] == hint_texts(class_hints@).take(i as int)[k]);
                    } else {
                        assert(codes(params@) =~= hint_texts(class_hints@)[i as int].1);
                    }
                }
                assert(hint_codes(hints@) =~= hint_texts(class_hints@).take(i + 1));
            }
            i = i + 1;
        }
        proof {
            assert(hint_texts(class_hints@).take(i as int) =~= hint_texts(class_hints@));
        }
        proof {
            assert forall|k: int| 0 <= k < hints@.len() implies hints@[k].0 == class_hints@[k].0 by {
                assert(hint_codes(hints@)[k] == hint_texts(class_hints@)[k]);
            }
            lemma_same_pcs(hints@, class_hints@);
        }
        let program = match Program::new(Vec::new(), data, hints) {
            Ok(p) => p,
            Err(e) => {
                return Err(e);
            },
        };
        let constructor = match convert_entry_points_v1(&entry_points_by_type.constructor) {
            Ok(v) => v,
            Err(e) => {
                return Err(e);
            },
        };
        let external = match convert_entry_points_v1(&entry_points_by_type.external) {
            Ok(v) => v,
            Err(e) => {
                return Err(e);
            },
        };
        let l1_handler = match convert_entry_points_v1(&entry_points_by_type.l1_handler) {
            Ok(v) => v,
            Err(e) => {
                return Err(e);
            },
        };
        let bytecode_segment_lengths = match bytecode_segment_lengths {
            Some(t) => t,
            None => NestedIntList::Leaf(program.data_len()),
        };
        let compiler_version = match CompilerVersion::parse(compiler_version.as_str()) {
            Some(v) => v,
            None => {
                return Err(ProgramError::InvalidCompilerVersion);
            },
        };
        Ok(
            CompiledClassV1(
                Arc::new(
                    CompiledClassV1Inner {
                        program,
                        entry_points_by_type: EntryPointsByType { constructor, external, l1_handler },
                        hints: string_to_hint,
                        compiler_version,
                        bytecode_segment_lengths,
                    },
                ),
            ),
        )
    }
}

/// An entry point as a mathematical value: selector, offset and builtins.
pub open spec fn entry_point_model(ep: EntryPointV1) -> (nat, usize, Seq<BuiltinName>) {
    (ep.selector.0@, ep.offset.0, ep.builtins@)
}

/// The entry points of a list as mathematical values.
pub open spec fn entry_points_model(s: Seq<EntryPointV1>) -> Seq<(nat, usize, Seq<BuiltinName>)> {
    Seq::new(s.len(), |i: int| entry_point_model(s[i]))
}

proof fn lemma_entry_points_round_trip(
    w: Seq<CasmContractEntryPoint>,
    e1: Seq<EntryPointV1>,
    x: Seq<CasmContractEntryPoint>,
    e2: Seq<EntryPointV1>,
)
    requires
        decodes_entry_points(w, e1),
        encodes_entry_points(e1, x),
        decodes_entry_points(x, e2),
    ensures
        entry_points_model(e2) == entry_points_model(e1),
        known_builtins(x),
{
    assert forall|i: int| 0 <= i < e1.len() implies entry_point_model(e2[i]) == entry_point_model(
        e1[i],
    ) by {
        let v = be_value(w[i].selector@);
        vstd::arithmetic::div_mod::lemma_mod_bound(v as int, field_prime() as int);
        vstd::arithmetic::div_mod::lemma_small_mod(v % field_prime(), field_prime());
        assert forall|j: int| 0 <= j < e1[i].builtins@.len() implies e2[i].builtins@[j]
            == e1[i].builtins@[j] by {
            let b = e1[i].builtins@[j];
            assert forall|c: BuiltinName| x[i].builtins@[j]@ != c.name() by {
                b.lemma_suffixed_is_not_plain(c);
            }
            assert(parsed_as(x[i].builtins@[j]@, e2[i].builtins@[j]));
        }
        assert(e2[i].builtins@ =~= e1[i].builtins@);
    }
    assert(entry_points_model(e2) =~= entry_points_model(e1));
    assert forall|i: int, j: int|
        0 <= i < x.len() && 0 <= j < x[i].builtins@.len() implies known_builtin(
        x[i].builtins@[j]@,
    ) by {
        let b = e1[i].builtins@[j];
        assert(x[i].builtins@[j]@ == b.suffixed_name());
    }
}

/// A class read from the wire can be written back: every hint of its program is in its table.
pub proof fn lemma_decoded_encodes(w: CasmContractClass, c1: CompiledClassV1)
    requires
        decoded(w, c1),
    ensures
        encode_ok(c1),
{
    let h = c1.0.program.hints_spec();
    assert(hint_codes(h).len() == hint_texts(w.hints@).len());
    assert forall|i: int, j: int| 0 <= i < h.len() && 0 <= j < h[i].1@.len() implies table_has(
        c1.0.hints@,
        h[i].1@[j].code@,
    ) by {
        assert(h.len() == hint_codes(h).len());
        assert(hint_codes(h)[i] == hint_texts(w.hints@)[i]);
        assert(codes(h[i].1@).len() == h[i].1@.len());
        assert(hint_texts(w.hints@)[i].1.len() == w.hints@[i].1@.len());
        assert(codes(h[i].1@)[j] == h[i].1@[j].code@);
        assert(hint_texts(w.hints@)[i].1[j] == w.hints@[i].1@[j].0@);
    }
}

/// What is written from a class read from a well-formed wire class reads again.
pub proof fn lemma_encoded_decodes(w: CasmContractClass, c1: CompiledClassV1, e: CasmContractClass)
    requires
        decode_ok(w),
        decoded(w, c1),
        encoded(c1, e),
    ensures
        decode_ok(e),
{
    let h = c1.0.program.hints_spec();
    let d1 = c1.0.program.data_spec();
    assert(felt_values(d1).len() == wire_felts(w.bytecode@).len());
    assert(e.bytecode@.len() == w.bytecode@.len());
    assert(hint_codes(h).len() == hint_texts(w.hints@).len());
    assert(e.hints@.len() == w.hints@.len());
    assert forall|i: int| 0 <= i < e.hints@.len() implies (e.hints@[i].0 as nat) < e.bytecode@.len() by {
        assert(hint_codes(h)[i] == hint_texts(w.hints@)[i]);
        assert(e.hints@[i].0 == h[i].0);
        assert(w.hints@[i].0 < w.bytecode@.len());
    }
    let x = &e.entry_points_by_type;
    let t1 = &c1.0.entry_points_by_type;
    assert forall|i: int, j: int|
        0 <= i < x.constructor@.len() && 0 <= j < x.constructor@[i].builtins@.len() implies known_builtin(
        x.constructor@[i].builtins@[j]@,
    ) by {
        assert(x.constructor@[i].builtins@[j]@ == t1.constructor@[i].builtins@[j].suffixed_name());
    }
    assert forall|i: int, j: int|
        0 <= i < x.external@.len() && 0 <= j < x.external@[i].builtins@.len() implies known_builtin(
        x.external@[i].builtins@[j]@,
    ) by {
        assert(x.external@[i].builtins@[j]@ == t1.external@[i].builtins@[j].suffixed_name());
    }
    assert forall|i: int, j: int|
        0 <= i < x.l1_handler@.len() && 0 <= j < x.l1_handler@[i].builtins@.len() implies known_builtin(
        x.l1_handler@[i].builtins@[j]@,
    ) by {
        assert(x.l1_handler@[i].builtins@[j]@ == t1.l1_handler@[i].builtins@[j].suffixed_name());
    }
}

/// Reading a wire class, writing it back and reading that again gives the bytecode, entry
/// points, compiler version and segment layout of the first reading.
pub proof fn lemma_round_trip(
    w: CasmContractClass,
    c1: CompiledClassV1,
    e: CasmContractClass,
    c2: CompiledClassV1,
)
    requires
        decoded(w, c1),
        encoded(c1, e),
        decoded(e, c2),
    ensures
        felt_values(c2.0.program.data_spec()) == felt_values(c1.0.program.data_spec()),
        entry_points_model(c2.0.entry_points_by_type.constructor@) == entry_points_model(
            c1.0.entry_points_by_type.constructor@,
        ),
        entry_points_model(c2.0.entry_points_by_type.external@) == entry_points_model(
            c1.0.entry_points_by_type.external@,
        ),
        entry_points_model(c2.0.entry_points_by_type.l1_handler@) == entry_points_model(
            c1.0.entry_points_by_type.l1_handler@,
        ),
        c2.0.compiler_version@ == c1.0.compiler_version@,
        shape(c2.0.bytecode_segment_lengths) == shape(c1.0.bytecode_segment_lengths),
{
    let d1 = c1.0.program.data_spec();
    let d2 = c2.0.program.data_spec();
    assert(felt_values(d1).len() == wire_felts(w.bytecode@).len());
    assert(felt_values(d2).len() == wire_felts(e.bytecode@).len());
    assert forall|i: int| 0 <= i < d1.len() implies felt_values(d2)[i] == felt_values(d1)[i] by {
        assert(be_value(e.bytecode@[i]@) == d1[i]@);
        assert(felt_values(d1)[i] == wire_felts(w.bytecode@)[i]);
        assert(felt_values(d2)[i] == wire_felts(e.bytecode@)[i]);
        let v = be_value(w.bytecode@[i]@);
        vstd::arithmetic::div_mod::lemma_mod_bound(v as int, field_prime() as int);
        vstd::arithmetic::div_mod::lemma_small_mod(v % field_prime(), field_prime());
    }
    assert(felt_values(d2) =~= felt_values(d1));
    let (x, y) = (&w.entry_points_by_type, &e.entry_points_by_type);
    let (t1, t2) = (&c1.0.entry_points_by_type, &c2.0.entry_points_by_type);
    lemma_entry_points_round_trip(x.constructor@, t1.constructor@, y.constructor@, t2.constructor@);
    lemma_entry_points_round_trip(x.external@, t1.external@, y.external@, t2.external@);
    lemma_entry_points_round_trip(x.l1_handler@, t1.l1_handler@, y.l1_handler@, t2.l1_handler@);
}

impl CompiledClassV1 {
    /// Writes the class in the CASM wire format: bytecode values and selectors as big-endian
    /// numbers, builtins by their names with the `_builtin` suffix, the segment layout as it is, and the hints
    /// grouped by pc, each looked up by its text in the class's table of hints. Fails with
    /// `HintNotFound` when a hint of the program is missing from the table.
    pub fn to_casm(&self) -> (r: Result<CasmContractClass, ProgramError>)
        ensures
            r is Ok <==> encode_ok(*self),
            r matches Ok(w) ==> encoded(*self, w),
            r matches Err(e) ==> e == ProgramError::HintNotFound,
    {
        let inner: &CompiledClassV1Inner = &self.0;
        let data = inner.program.data();
        let mut bytecode: Vec<Vec<u8>> = Vec::new();
        let mut i: usize = 0;
        while i < data.len()
            invariant
                i <= data@.len(),
                bytecode@.len() == i,
                forall|k: int| 0 <= k < i ==> be_value(bytecode@[k]@) == data@[k]@,
            decreases data@.len() - i,
        {
            bytecode.push(data[i].to_be_vec());
            i = i + 1;
        }
        let program_hints = inner.program.hints();
        let ghost h = program_hints@;
        let mut hints: Vec<(usize, Vec<Hint>)> = Vec::new();
        let mut i: usize = 0;
        while i < program_hints.len()
            invariant
                h == program_hints@,
                h == inner.program.hints_spec(),
                h == self.0.program.hints_spec(),
                inner.hints@ == self.0.hints@,
                i <= h.len(),
                hints@.len() == i,
                forall|k: int|
                    0 <= k < i ==> hints@[k].0 == h[k].0 && hints@[k].1@.len() == h[k].1@.len(),
                forall|k: int, j: int|
                    0 <= k < i && 0 <= j < h[k].1@.len() ==> hints@[k].1@[j].0@ == h[k].1@[j].code@,
                forall|k: int, j: int|
                    0 <= k < i && 0 <= j < h[k].1@.len() ==> table_has(
                        inner.hints@,
                        h[k].1@[j].code@,
                    ),
            decreases h.len() - i,
        {
            let params = &program_hints[i].1;
            let mut list: Vec<Hint> = Vec::new();
            let mut j: usize = 0;
            while j < params.len()
                invariant
                    i < h.len(),
                    *params == h[i as int].1,
                    h == self.0.program.hints_spec(),
                    inner.hints@ == self.0.hints@,
                    j <= params@.len(),
                    list@.len() == j,
                    forall|m: int| 0 <= m < j ==> list@[m].0@ == params@[m].code@,
                    forall|m: int| 0 <= m < j ==> table_has(inner.hints@, params@[m].code@),
                decreases params@.len() - j,
            {
                match inner.hints.lookup(&params[j].code) {
                    Some(hint) => {
                        list.push(hint);
                    },
                    None => {
                        proof {
                            assert(!table_has(self.0.hints@, h[i as int].1@[j as int].code@));
                        }
                        return Err(ProgramError::HintNotFound);
                    },
                }
                j = j + 1;
            }
            hints.push((program_hints[i].0, list));
            i = i + 1;
        }
        let entry_points_by_type = CasmContractEntryPoints {
            constructor: casm_entry_points(&inner.entry_points_by_type.constructor),
            external: casm_entry_points(&inner.entry_points_by_type.external),
            l1_handler: casm_entry_points(&inner.entry_points_by_type.l1_handler),
        };
        Ok(
            CasmContractClass {
                prime: inner.program.prime().to_string(),
                compiler_version: inner.compiler_version.as_str().to_string(),
                bytecode,
                bytecode_segment_lengths: Some(inner.bytecode_segment_lengths.clone()),
                hints,
                entry_points_by_type,
            },
        )
    }
}

} // verus!
