//! Three-address code: operands, labels, instructions and their stream.

pub mod instruction;
pub mod instructions;
pub mod label;
pub mod laws;
pub mod operand;
pub mod optimize;

pub use instruction::Bank;
pub use instruction::Instruction;
pub use instruction::Variant;
pub use instructions::Count;
pub use instructions::Instructions;
pub use label::Label;
pub use operand::Operand;
