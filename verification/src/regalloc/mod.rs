//! The register allocator: blocks, liveness, the register file and the
//! assembly of each instruction.

pub mod allocate;
pub mod code_block;
pub mod instruction;
pub mod live_set;
pub mod liveness_analysis;
pub mod reg_table;


pub use live_set::LiveSet;
pub use allocate::from_instructions;
