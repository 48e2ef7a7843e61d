//! The typed syntax tree and its construction from a parse tree.

pub mod call;
pub mod climbers;
pub mod construct;
pub mod node;
pub mod shape;
pub mod typing;

pub use node::BinOp;
pub use node::CondOp;
pub use node::Node;
