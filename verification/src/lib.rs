//! Front-end parser for the liva scripting language.
//!
//! The parser turns source text into a syntax tree. It does no type checking,
//! no name resolution and no execution. [`parse_source`] reads a whole program
//! and yields its [`Block`] or a [`ParseError`]; the other functions read
//! single productions of the grammar, each from a [`Span`] and with the input
//! that is left as part of its result.
//!
//! ```text
//! let x = [1, 2.5, "three"]          // a declaration
//! point.x = x[0] * -2 ^ 2            // an assignment
//! if x < 3 and not_done do print(x) else return x end
//! for item in items do total = total + item end
//! fun area(w, h) return w * h end
//! class Shape fun init(self) end end
//! external import geometry.shapes as shapes
//! ```
//!
//! What each function returns is stated by the grammar in [`grammar`], a set of
//! mathematical functions from the input to the outcome of a production, over
//! the models of the tree in [`ast`]. [`precedence`] states how a flat list of
//! operands and operators becomes a tree, and [`laws`] holds what follows for
//! all inputs.
//!
//! The library holds no floating-point numbers: a floating-point literal keeps
//! the text of the number, from which its value can be computed.

pub mod ast;
pub mod error;
pub mod grammar;
pub mod laws;
pub mod lexical;
pub mod literals;
pub mod parser;
pub mod precedence;
pub mod span;
pub mod tokens;

pub use ast::{
    Assignment, BinaryOp, Block, Call, Class, Collection, ExprOrVarname, ExprSuffix, Expression,
    For, Function, Identifier, If, Import, LAssignment, Literal, PrefixExpr, ReturnStmt,
    Statement, TableEntry, Token, UnaryOp, Variable, While,
};
pub use error::{Label, ParseError, Res};
pub use grammar::expression::{ExprHead, Expression2};
pub use lexical::{opt_line_ending, parse_comment, sp};
pub use literals::{
    float_token, parse_boolean, parse_false, parse_float, parse_int, parse_literal, parse_nil,
    parse_num, parse_str,
    parse_str_raw, parse_str_raw_double, parse_str_raw_single, parse_true, parse_variable,
    parse_variable_raw,
};
pub use parser::expression::{
    args, flat_expr_from_components, parse_array, parse_bin_op_chain, parse_binary, parse_call,
    parse_collection, parse_expression, parse_expression2, parse_flatexp, parse_head,
    parse_key_value, parse_map, prefixexpr, prefixexpr2, prefixexpr3, tuple_to_flat_vec,
};
pub use parser::statement::{
    else_statements, if_condition, parse_assignment, parse_block, parse_class, parse_class_name,
    parse_for, parse_function, parse_function_arguments, parse_function_call,
    parse_function_name, parse_if, parse_import, parse_iter_item, parse_iterator,
    parse_lassignment, parse_methods, parse_parameter_list, parse_return_list,
    parse_return_stmt, parse_source, parse_statement, parse_while, while_condition,
};
pub use precedence::{
    merge_all_binops, merge_all_unops, merge_nodes_binop, merge_nodes_unop, resolve, FlatExpr,
    OpOrExp,
};
pub use span::Span;
pub use tokens::{
    binop_precedence, is_reserved, keyword, keywords, parse_binary_operator, parse_tokens,
    parse_unary_operator, punct, symbol, unops, Operator, UnOperator, UnOrBinOp,
};
