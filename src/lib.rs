//! A lexical scanner for a small scripting language: source text in, a
//! sequence of tokens out, each step stated and proved against a
//! mathematical model of the grammar.

pub mod classify;
pub mod grammar;
pub mod laws;
pub mod scanner;
pub mod token;

pub use scanner::{Scanner, find_matching_block_comment, lex, run};
pub use token::{IntFault, LexError, Token};
