//! Front end of a small expression language: a scanner that turns source
//! text into tokens, a recursive-descent parser that builds an expression
//! tree, and an evaluator that reduces the tree to a runtime value.
//!
//! Integer, string and boolean work is carried out here. Float work is
//! decided here and kept as terms (`interpreter::FloatTerm`,
//! `interpreter::Truth`) for the host to carry out with IEEE 754 arithmetic.

pub mod errors;
pub mod expr;
pub mod interpreter;
pub mod parser;
pub mod pipeline;
pub mod scanner;
pub mod text;
pub mod token;
