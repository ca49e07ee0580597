use vstd::prelude::*;

use crate::program::Hint;
use crate::segments::NestedIntList;

verus! {

/// An entry point as the CASM wire format writes it: the selector as a big-endian number, the
/// offset of its code, and the names of the builtins it needs.
#[derive(Debug, PartialEq, Eq)]
pub struct CasmContractEntryPoint {
    pub selector: Vec<u8>,
    pub offset: usize,
    pub builtins: Vec<String>,
}

/// The entry points of a class in the CASM wire format, by kind.
#[derive(Debug, PartialEq, Eq)]
pub struct CasmContractEntryPoints {
    pub constructor: Vec<CasmContractEntryPoint>,
    pub external: Vec<CasmContractEntryPoint>,
    pub l1_handler: Vec<CasmContractEntryPoint>,
}

/// A compiled class in the CASM wire format. Big integers are held as their big-endian bytes;
/// hints as their canonical JSON text, grouped by the pc they stand at.
#[derive(Debug, PartialEq, Eq)]
pub struct CasmContractClass {
    pub prime: String,
    pub compiler_version: String,
    pub bytecode: Vec<Vec<u8>>,
    pub bytecode_segment_lengths: Option<NestedIntList>,
    pub hints: Vec<(usize, Vec<Hint>)>,
    pub entry_points_by_type: CasmContractEntryPoints,
}

} // verus!
