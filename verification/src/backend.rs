//! The evaluator and its supporting data structures: runtime values, the
//! lexical scope chain, the specification-level semantics, and the
//! tree-walking interpreter itself.

pub mod interp;
pub mod laws;
pub mod result;
pub mod scope;
pub mod sem;
pub mod value;

pub use interp::{Interpreter, DEFAULT_FUEL};
pub use result::{Error, EvalResult, Exit};
pub use scope::{Symbol, SymbolTable, SymbolTables};
pub use value::CrValue;
