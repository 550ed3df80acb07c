//! The `${{ }}` expression language: tokens, lexer, syntax tree and parser.
pub mod token;
pub mod lexer;
pub mod expr;
pub mod describe;
pub mod grammar;
pub mod parser;
pub mod template;
pub mod functions;
