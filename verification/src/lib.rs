//! Front end of an interactive compiler for a small expression language:
//! a lexer, a precedence-aware recursive-descent parser, and a statement
//! driver that turns one line of input into typed AST units.

pub mod ast;
pub mod driver;
pub mod lexer;
pub mod parser;
pub mod token;
