//! Types and the scoped symbol table.

pub mod ctype;
pub mod entry;
pub mod global;
pub mod local;
pub mod object;
pub mod scope;
pub mod table;

pub use ctype::CType;
pub use entry::Entry;
pub use entry::SymbolType;
pub use object::SymTable;
