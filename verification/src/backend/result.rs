//! Errors and control-flow signals of the evaluator.
//!
//! True faults and the three non-local exits (`break`, `continue`, `return`)
//! are kept apart: a statement evaluates to a value, a [`Exit::Fault`], or a
//! control-flow signal that the nearest enclosing loop or function call must
//! consume.

use vstd::prelude::*;

use super::value::CrValue;

verus! {

/// A user-facing evaluation fault.
#[derive(Debug, Clone, Copy, PartialEq, Eq, Structural)]
pub enum Error {
    /// No scope in the chain binds the identifier.
    SymbolNotFound,
    /// Reserved; the evaluator currently never raises it.
    DuplicatedDef,
    /// Write to a `const` or function binding.
    BadAssign,
    /// A function binding, or a non-numeric or non-list value, used where a
    /// value of another shape is needed.
    UseVoidValue,
    /// Built-in called with the wrong number or shape of arguments.
    ArgMismatch,
    /// Reserved for operators outside the fixed set; unreachable on the
    /// operator enum of this crate.
    UnknownOperator,
    /// Division with a zero divisor.
    DivisionByZero,
    /// Remainder with a zero divisor.
    ModuloByZero,
    /// List access or insertion outside the valid positions.
    IndexOutOfRange,
    /// A shift amount, list size or loop step outside the representable or
    /// allowed range.
    ValueOutOfRange,
    /// `print` called before a sink was installed.
    NoPrinter,
    /// `break` or `continue` reached the top of the program without an
    /// enclosing loop.
    NotInLoop,
    /// `return` reached the top of the program without an enclosing call.
    RetValInVoidFunc,
    /// The evaluation budget ran out; the bound on recursion and loop work
    /// that stands in for the host call stack limit.
    OutOfFuel,
}

impl Error {
    /// A human-readable description.
    pub fn message(&self) -> (r: String)
        ensures
            r@ == error_message(*self),
    {
        match self {
            Error::SymbolNotFound => "symbol not found".to_owned(),
            Error::DuplicatedDef => "duplicated symbol definition".to_owned(),
            Error::BadAssign => "assigning to constant".to_owned(),
            Error::UseVoidValue => "using a void value".to_owned(),
            Error::ArgMismatch => "argument mismatch".to_owned(),
            Error::UnknownOperator => "unknown operator".to_owned(),
            Error::DivisionByZero => "division by zero".to_owned(),
            Error::ModuloByZero => "modulo by zero".to_owned(),
            Error::IndexOutOfRange => "index out of range".to_owned(),
            Error::ValueOutOfRange => "value out of range".to_owned(),
            Error::NoPrinter => "no printer installed".to_owned(),
            Error::NotInLoop => "using break/continue outside of loop".to_owned(),
            Error::RetValInVoidFunc => "returning value in void function".to_owned(),
            Error::OutOfFuel => "evaluation budget exhausted".to_owned(),
        }
    }
}

/// The text [`Error::message`] returns for each fault.
pub open spec fn error_message(e: Error) -> Seq<char> {
    match e {
        Error::SymbolNotFound => "symbol not found"@,
        Error::DuplicatedDef => "duplicated symbol definition"@,
        Error::BadAssign => "assigning to constant"@,
        Error::UseVoidValue => "using a void value"@,
        Error::ArgMismatch => "argument mismatch"@,
        Error::UnknownOperator => "unknown operator"@,
        Error::DivisionByZero => "division by zero"@,
        Error::ModuloByZero => "modulo by zero"@,
        Error::IndexOutOfRange => "index out of range"@,
        Error::ValueOutOfRange => "value out of range"@,
        Error::NoPrinter => "no printer installed"@,
        Error::NotInLoop => "using break/continue outside of loop"@,
        Error::RetValInVoidFunc => "returning value in void function"@,
        Error::OutOfFuel => "evaluation budget exhausted"@,
    }
}

/// The outcome of a statement that did not produce a value: a true fault or a
/// non-local exit that an enclosing construct consumes.
#[derive(Debug)]
pub enum Exit {
    Break,
    Continue,
    Return(CrValue),
    Fault(Error),
}

/// Result type of the evaluator.
pub type EvalResult = Result<CrValue, Exit>;

} // verus!
