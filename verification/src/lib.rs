//! Front end and evaluator of a small expression-oriented language: a lexer
//! that turns source text into tokens, a recursive-descent parser that builds
//! an abstract syntax tree of statements and expressions, and a tree-walking
//! interpreter that evaluates that tree against a chain of lexical scopes.
//!
//! Every public operation carries a contract that relates it to a
//! specification-level model: sequences of token views, view-level syntax
//! trees, and maps from names to value views.

pub mod ast;
pub mod environment;
pub mod errors;
pub mod float;
pub mod interpreter;
pub mod parser;
pub mod run;
pub mod scanner;
pub mod syntax;
pub mod taco;
pub mod text;
pub mod token;
