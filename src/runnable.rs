use std::collections::HashSet;

use vstd::prelude::*;

use crate::compiled_class::{
    first_selector,
    v0_hashed_data_size,
    CompiledClassV0,
    CompiledClassV1,
    GasVectorComputationMode,
    TrackedResource,
    N_STEPS_PER_PEDERSEN,
};
use crate::cost::{depth_supported, estimate, CostEstimationError};
use crate::entry_points::EntryPointSelector;
use crate::resources::{ExecutionResources, ResourceCount};
use crate::builtins::BuiltinName;
use crate::version::{semver_le, CompilerVersion};
use crate::visited::{ascending_of, seq_result, walk, TransactionExecutionError};

verus! {

/// A compiled class that the VM can run, of either generation.
#[derive(Debug, PartialEq, Eq)]
pub enum RunnableCompiledClass {
    V0(CompiledClassV0),
    V1(CompiledClassV1),
}

/// The cost of hashing the class fits machine words.
pub open spec fn hash_cost_fits(c: RunnableCompiledClass) -> bool {
    match c {
        RunnableCompiledClass::V0(class) => N_STEPS_PER_PEDERSEN * v0_hashed_data_size(class)
            <= usize::MAX,
        RunnableCompiledClass::V1(class) => depth_supported(class.0.bytecode_segment_lengths)
            ==> estimate(class.0.bytecode_segment_lengths).fits(),
    }
}

impl RunnableCompiledClass {
    /// The selector of the first constructor, if the class has one.
    pub fn constructor_selector(&self) -> (r: Option<EntryPointSelector>)
        ensures
            r == match self {
                RunnableCompiledClass::V0(c) => first_selector(c.0.entry_points_by_type.constructor@),
                RunnableCompiledClass::V1(c) => first_selector(c.0.entry_points_by_type.constructor@),
            },
    {
        match self {
            RunnableCompiledClass::V0(class) => class.constructor_selector(),
            RunnableCompiledClass::V1(class) => class.constructor_selector(),
        }
    }

    /// Estimated VM resources for computing the class hash: Pedersen hashes over the hashed
    /// data for the first generation, the segment model for the second.
    pub fn estimate_casm_hash_computation_resources(&self) -> (r: Result<
        ExecutionResources,
        CostEstimationError,
    >)
        requires
            hash_cost_fits(*self),
        ensures
            match self {
                RunnableCompiledClass::V0(c) => r matches Ok(res) && res@ =~= ResourceCount::of(
                    (N_STEPS_PER_PEDERSEN * v0_hashed_data_size(*c)) as nat,
                    0,
                    BuiltinName::Pedersen,
                    v0_hashed_data_size(*c),
                ),
                RunnableCompiledClass::V1(c) => {
                    let t = c.0.bytecode_segment_lengths;
                    match r {
                        Ok(res) => depth_supported(t) && res@ =~= estimate(t),
                        Err(e) => !depth_supported(t) && e
                            == CostEstimationError::UnsupportedSegmentDepth,
                    }
                },
            },
    {
        match self {
            RunnableCompiledClass::V0(class) => Ok(class.estimate_casm_hash_computation_resources()),
            RunnableCompiledClass::V1(class) => class.estimate_casm_hash_computation_resources(),
        }
    }

    /// The starts of the visited segments; defined for second-generation classes only.
    pub fn get_visited_segments(&self, visited_pcs: &HashSet<usize>) -> (r: Result<
        Vec<usize>,
        TransactionExecutionError,
    >)
        ensures
            match self {
                RunnableCompiledClass::V0(_) => r == Err::<Vec<usize>, TransactionExecutionError>(
                    TransactionExecutionError::UnsupportedOperationForVariant,
                ),
                RunnableCompiledClass::V1(c) => seq_result(r) == walk(
                    c.0.bytecode_segment_lengths,
                    ascending_of(visited_pcs@),
                    0,
                    0,
                ).result,
            },
    {
        match self {
            RunnableCompiledClass::V0(_) => Err(
                TransactionExecutionError::UnsupportedOperationForVariant,
            ),
            RunnableCompiledClass::V1(class) => class.get_visited_segments(visited_pcs),
        }
    }

    /// The number of words of bytecode.
    pub fn bytecode_length(&self) -> (r: usize)
        ensures
            r == match self {
                RunnableCompiledClass::V0(c) => c.0.program.data_spec().len(),
                RunnableCompiledClass::V1(c) => c.0.program.data_spec().len(),
            },
    {
        match self {
            RunnableCompiledClass::V0(class) => class.bytecode_length(),
            RunnableCompiledClass::V1(class) => class.bytecode_length(),
        }
    }

    /// Whether the class runs in steps or in gas: in steps when second-layer gas is not
    /// billed and for first-generation classes; otherwise in gas exactly when the class's
    /// compiler version is at least `min_sierra_version`.
    pub fn tracked_resource(
        &self,
        min_sierra_version: &CompilerVersion,
        gas_mode: GasVectorComputationMode,
    ) -> (r: TrackedResource)
        ensures
            r == match (gas_mode, self) {
                (GasVectorComputationMode::All, RunnableCompiledClass::V1(c)) => if semver_le(
                    min_sierra_version@,
                    c.0.compiler_version@,
                ) {
                    TrackedResource::SierraGas
                } else {
                    TrackedResource::CairoSteps
                },
                _ => TrackedResource::CairoSteps,
            },
    {
        match gas_mode {
            GasVectorComputationMode::All => match self {
                RunnableCompiledClass::V0(class) => class.tracked_resource(),
                RunnableCompiledClass::V1(class) => class.tracked_resource(min_sierra_version),
            },
            GasVectorComputationMode::NoL2Gas => TrackedResource::CairoSteps,
        }
    }
}

} // verus!
