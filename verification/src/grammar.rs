//! The grammar of the language, stated as functions from the input to the
//! outcome of each production.

pub mod expression;
pub mod statement;
