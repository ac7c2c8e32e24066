//! The front end: the tokenizer and the recursive-descent parser that turn
//! source text into the abstract syntax tree and the interned identifier
//! table the evaluator is constructed with.

pub mod lexer;
pub mod parser;

pub use lexer::{KeywordTypes, LexError, Lexer, Token};
pub use parser::{ParseError, Parser};
