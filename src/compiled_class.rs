use std::collections::HashSet;
use std::sync::Arc;

use vstd::prelude::*;

use crate::builtins::BuiltinName;
use crate::cost::{
    depth_supported,
    estimate,
    estimate_casm_hash_computation_resources,
    CostEstimationError,
};
use crate::entry_points::{
    match_count,
    selects,
    CallEntryPoint,
    EntryPointSelector,
    EntryPointV0,
    EntryPointV1,
    EntryPointsByType,
    HasSelector,
    PreExecutionError,
};
use crate::program::{HintTable, Program};
use crate::resources::{ExecutionResources, ResourceCount};
use crate::segments::NestedIntList;
use crate::version::{is_semver, semver_le, CompilerVersion};
use crate::visited::{ascending_of, seq_result, visited_segments, walk, TransactionExecutionError};

verus! {

/// A compiled class of the second generation: its program, entry points, table of hints by
/// canonical text, compiler version, and the layout of its bytecode in segments.
#[derive(Debug, PartialEq, Eq)]
pub struct CompiledClassV1Inner {
    pub program: Program,
    pub entry_points_by_type: EntryPointsByType<EntryPointV1>,
    pub hints: HintTable,
    pub compiler_version: CompilerVersion,
    pub bytecode_segment_lengths: NestedIntList,
}

/// A runnable compiled class of the second generation, shared and never changed once built.
#[derive(Debug, PartialEq, Eq)]
pub struct CompiledClassV1(pub Arc<CompiledClassV1Inner>);

/// The resource a contract function is run and billed in.
#[derive(Clone, Copy, Debug, PartialEq, Eq, Structural)]
pub enum TrackedResource {
    /// VM steps.
    CairoSteps,
    /// Gas of the higher-level language.
    SierraGas,
}

impl Default for TrackedResource {
    fn default() -> (r: TrackedResource)
        ensures
            r == TrackedResource::CairoSteps,
    {
        TrackedResource::CairoSteps
    }
}

/// Which gas the transaction is billed in.
#[derive(Clone, Copy, Debug, PartialEq, Eq, Structural)]
pub enum GasVectorComputationMode {
    /// All kinds of gas, second-layer gas included.
    All,
    /// No second-layer gas: everything is billed in steps.
    NoL2Gas,
}

/// Words of hashed data per entry point of a first-generation class.
pub const CAIRO0_ENTRY_POINT_STRUCT_SIZE: usize = 2;

/// VM steps per Pedersen hash.
pub const N_STEPS_PER_PEDERSEN: usize = 8;

/// A compiled class of the first generation: its program and entry points.
#[derive(Debug, PartialEq, Eq)]
pub struct CompiledClassV0Inner {
    pub program: Program,
    pub entry_points_by_type: EntryPointsByType<EntryPointV0>,
}

/// A runnable compiled class of the first generation, shared and never changed once built.
#[derive(Debug, PartialEq, Eq)]
pub struct CompiledClassV0(pub Arc<CompiledClassV0Inner>);

/// The number of words hashed to compute the hash of a first-generation class.
pub open spec fn v0_hashed_data_size(c: CompiledClassV0) -> nat {
    let e = c.0.entry_points_by_type;
    (CAIRO0_ENTRY_POINT_STRUCT_SIZE * (e.constructor@.len() + e.external@.len()
        + e.l1_handler@.len()) + c.0.program.builtins_spec().len() + c.0.program.data_spec().len()
        + 1) as nat
}

/// The first constructor's selector, if any.
pub open spec fn first_selector<EP: HasSelector>(l: Seq<EP>) -> Option<
    EntryPointSelector,
> {
    if l.len() > 0 {
        Some(l[0].spec_selector())
    } else {
        None
    }
}

impl CompiledClassV0 {
    /// The selector of the first constructor, if the class has one.
    pub fn constructor_selector(&self) -> (r: Option<EntryPointSelector>)
        ensures
            r == first_selector(self.0.entry_points_by_type.constructor@),
    {
        let constructor = &self.0.entry_points_by_type.constructor;
        if constructor.len() > 0 {
            Some(constructor[0].selector)
        } else {
            None
        }
    }

    /// The number of entry points of all kinds.
    pub fn n_entry_points(&self) -> (r: usize)
        requires
            self.0.entry_points_by_type.constructor@.len() + self.0.entry_points_by_type.external@.len()
                + self.0.entry_points_by_type.l1_handler@.len() <= usize::MAX,
        ensures
            r == self.0.entry_points_by_type.constructor@.len()
                + self.0.entry_points_by_type.external@.len()
                + self.0.entry_points_by_type.l1_handler@.len(),
    {
        let e = &self.0.entry_points_by_type;
        e.constructor.len() + e.external.len() + e.l1_handler.len()
    }

    /// The number of builtins the program uses.
    pub fn n_builtins(&self) -> (r: usize)
        ensures
            r == self.0.program.builtins_spec().len(),
    {
        self.0.program.builtins_len()
    }

    /// The number of words of bytecode.
    pub fn bytecode_length(&self) -> (r: usize)
        ensures
            r == self.0.program.data_spec().len(),
    {
        self.0.program.data_len()
    }

    /// Estimated VM resources for computing the class hash: one Pedersen hash per hashed word
    /// (the entry points, the builtins, the bytecode and the hinted class hash).
    pub fn estimate_casm_hash_computation_resources(&self) -> (r: ExecutionResources)
        requires
            N_STEPS_PER_PEDERSEN * v0_hashed_data_size(*self) <= usize::MAX,
        ensures
            r@ =~= ResourceCount::of(
                (N_STEPS_PER_PEDERSEN * v0_hashed_data_size(*self)) as nat,
                0,
                BuiltinName::Pedersen,
                v0_hashed_data_size(*self),
            ),
    {
        let hashed_data_size = CAIRO0_ENTRY_POINT_STRUCT_SIZE * self.n_entry_points()
            + self.n_builtins() + self.bytecode_length() + 1;
        let n_steps = N_STEPS_PER_PEDERSEN * hashed_data_size;
        ExecutionResources::new(n_steps, 0).with_builtin(BuiltinName::Pedersen, hashed_data_size)
    }

    /// First-generation classes are always run in steps.
    pub fn tracked_resource(&self) -> (r: TrackedResource)
        ensures
            r == TrackedResource::CairoSteps,
    {
        TrackedResource::CairoSteps
    }
}

impl CompiledClassV1 {
    /// The selector of the first constructor, if the class has one.
    pub fn constructor_selector(&self) -> (r: Option<EntryPointSelector>)
        ensures
            r == first_selector(self.0.entry_points_by_type.constructor@),
    {
        let constructor = &self.0.entry_points_by_type.constructor;
        if constructor.len() > 0 {
            Some(constructor[0].selector)
        } else {
            None
        }
    }

    /// The number of words of bytecode.
    pub fn bytecode_length(&self) -> (r: usize)
        ensures
            r == self.0.program.data_spec().len(),
    {
        self.0.program.data_len()
    }

    /// The layout of the bytecode in segments.
    pub fn bytecode_segment_lengths(&self) -> (r: &NestedIntList)
        ensures
            *r == self.0.bytecode_segment_lengths,
    {
        &self.0.bytecode_segment_lengths
    }

    /// The one entry point of the call's kind that its selector finds (see
    /// `EntryPointsByType::get_entry_point`).
    pub fn get_entry_point(&self, call: &CallEntryPoint) -> (r: Result<
        EntryPointV1,
        PreExecutionError,
    >)
        ensures
            ({
                let l = self.0.entry_points_by_type.of_type(call.entry_point_type);
                let sel = call.entry_point_selector;
                match r {
                    Ok(ep) => match_count(l, sel) == 1 && exists|i: int|
                        0 <= i < l.len() && selects(l[i], sel) && ep.selector == l[i].selector
                            && ep.offset == l[i].offset && ep.builtins@ == l[i].builtins@,
                    Err(PreExecutionError::EntryPointNotFound(s)) => match_count(l, sel) == 0
                        && s == sel,
                    Err(PreExecutionError::DuplicatedEntryPointSelector { selector, typ }) =>
                        match_count(l, sel) >= 2 && selector == sel && typ
                        == call.entry_point_type,
                }
            }),
    {
        self.0.entry_points_by_type.get_entry_point(call)
    }

    /// Whether the class runs in gas: it does when its compiler version is at least
    /// `min_sierra_version`, and in steps otherwise.
    pub fn tracked_resource(&self, min_sierra_version: &CompilerVersion) -> (r: TrackedResource)
        ensures
            r == if semver_le(min_sierra_version@, self.0.compiler_version@) {
                TrackedResource::SierraGas
            } else {
                TrackedResource::CairoSteps
            },
            r == TrackedResource::SierraGas ==> forall|c: Seq<char>|
                is_semver(c) && semver_le(self.0.compiler_version@, c) ==> semver_le(
                    min_sierra_version@,
                    c,
                ),
    {
        if min_sierra_version.le(&self.0.compiler_version) {
            TrackedResource::SierraGas
        } else {
            TrackedResource::CairoSteps
        }
    }

    /// Estimated VM resources for computing the class hash, from the layout of the bytecode.
    pub fn estimate_casm_hash_computation_resources(&self) -> (r: Result<
        ExecutionResources,
        CostEstimationError,
    >)
        requires
            depth_supported(self.0.bytecode_segment_lengths) ==> estimate(
                self.0.bytecode_segment_lengths,
            ).fits(),
        ensures
            match r {
                Ok(res) => depth_supported(self.0.bytecode_segment_lengths) && res@ =~= estimate(
                    self.0.bytecode_segment_lengths,
                ),
                Err(e) => !depth_supported(self.0.bytecode_segment_lengths) && e
                    == CostEstimationError::UnsupportedSegmentDepth,
            },
    {
        estimate_casm_hash_computation_resources(&self.0.bytecode_segment_lengths)
    }

    /// The starts of the segments that the visited pcs fall in, in bytecode order; each must
    /// have its first pc visited (see `visited_segments`).
    pub fn get_visited_segments(&self, visited_pcs: &HashSet<usize>) -> (r: Result<
        Vec<usize>,
        TransactionExecutionError,
    >)
        ensures
            seq_result(r) == walk(
                self.0.bytecode_segment_lengths,
                ascending_of(visited_pcs@),
                0,
                0,
            ).result,
    {
        visited_segments(&self.0.bytecode_segment_lengths, visited_pcs)
    }
}

} // verus!
