//! Compiled contract classes of the Starknet VM: their model, their CASM wire form, the cost of
//! hashing their bytecode, and the reconstruction of the bytecode segments an execution visited.

pub mod builtins;
pub mod casm;
pub mod codec;
pub mod compiled_class;
pub mod cost;
pub mod crypto;
pub mod entry_points;
pub mod felt;
pub mod monitoring;
pub mod program;
pub mod resources;
pub mod runnable;
pub mod segments;
pub mod version;
pub mod visited;
