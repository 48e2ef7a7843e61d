//! A whole-program compiler for Micro-C: typed syntax trees, a scoped symbol
//! table, three-address code and a register allocator that emits assembly.

pub mod ast;
pub mod error;
pub mod gencode;
pub mod parser;
pub mod regalloc;
pub mod symtable;
pub mod text;
pub mod three_ac;
