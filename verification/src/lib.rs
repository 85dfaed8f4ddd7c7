//! Front end for a small expression language whose operators are declared by
//! the caller: a tokenizer that tracks byte offsets and recovers from bad
//! input, a table of operator definitions, and a precedence-climbing parser
//! that turns the tokens into an expression tree.

pub mod ast;
pub mod error;
pub mod lexer;
pub mod operator;
pub mod parser;
pub mod text;
pub mod token;
