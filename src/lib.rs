//! Front end of a small Lox-family scripting language: a scanner that turns
//! source text into tokens, an expression parser that turns tokens into a
//! syntax tree, and a traversal mechanism over that tree.

pub mod token;
pub mod lox;
pub mod scan_laws;
pub mod expr;
pub mod lox_parser;
