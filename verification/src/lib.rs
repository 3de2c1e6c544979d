//! Front end of a small statically-typed scripting language: a lexical
//! scanner, a recursive-descent parser with operator-precedence climbing,
//! and a scope-aware type checker, all with verified contracts.

pub mod ast;
pub mod checker;
pub mod error;
pub mod lexer;
pub mod location;
pub mod numeric;
pub mod parser;
pub mod program;
pub mod scope;
pub mod text;
pub mod tokens;
pub mod types;
