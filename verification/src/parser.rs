//! The parser: executable functions that yield what the grammar says.

pub mod expression;
pub mod statement;
