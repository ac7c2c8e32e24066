//! A tree-walking interpreter for a small dynamically typed scripting
//! language: arbitrary-precision integers, lists, constants, variables,
//! user-defined functions, conditionals, and loops with `break` and
//! `continue`.
//!
//! The heart of the crate is the evaluator ([`backend::Interpreter`]) and
//! the lexical scope chain ([`backend::SymbolTables`]) it resolves names in.
//! Every construct's meaning is pinned down once, by the specification-level
//! evaluator in [`backend::sem`]; the executable evaluator is proved to
//! return exactly what that specification says, for the resulting value or
//! fault, the scope chain, and the printed output alike.  General laws of
//! the language — scoping, constant immutability, exact arithmetic,
//! division and index safety — are stated and proved in [`backend::laws`].
//!
//! The front end ([`frontend::Lexer`], [`frontend::Parser`]) turns source
//! text into the abstract syntax tree of [`ast`] and an interned identifier
//! table; every tree it produces is well-formed, and malformed input is an
//! error value, never a panic.  Integer arithmetic lives in [`bigint`],
//! carried out by the `dashu_int` crate behind small trusted wrappers whose
//! contracts state the exact mathematical result.

pub mod ast;
pub mod backend;
pub mod bigint;
pub mod frontend;
