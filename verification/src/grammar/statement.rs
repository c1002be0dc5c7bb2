//! The grammar of statements and blocks.
//!
//! A block is any number of statements and after them at most one return
//! statement. The alternatives of a statement are tried in a fixed order: a
//! declaration with `let`, an assignment, `if`, `for`, `while`, a function, a
//! class, an import, and at last a call that stands for itself. The keywords
//! `let`, `fun`, `class`, `if`, `while`, `for` and `import` commit: after one of
//! them every failure is fatal, and so is every failure after `else` and `as`.

use vstd::prelude::*;
use crate::ast::{
    AssignmentV, BlockV, ClassV, ExpressionV, ForV, FunctionV, IfV, ImportV, LAssignmentV, LiteralV,
    PrefixExprV, ReturnStmtV, StatementV, TokenV, WhileV,
};
use crate::error::{Label, Outcome};
use crate::grammar::expression::{spec_expression, spec_expression_list, spec_prefixexpr};
use crate::lexical::{spec_opt_line_ending, spec_sp};
use crate::literals::{spec_variable, spec_variable_raw};
use crate::span::SpanV;
use crate::tokens::{spec_byte, spec_keyword};

verus! {

/// The values of a return statement: after blank space, a list of expressions.
#[verifier::opaque]
pub open spec fn spec_return_list(input: SpanV) -> Outcome<Seq<ExpressionV>> {
    spec_expression_list(spec_sp(input)).context(input, Label::ReturnList)
}

/// A return statement: `return` and the values.
#[verifier::opaque]
pub open spec fn spec_return_stmt(input: SpanV) -> Outcome<ReturnStmtV> {
    match spec_keyword(spec_sp(input), "return", Label::Return) {
        Outcome::Failed { error } => Outcome::<ReturnStmtV>::Failed { error },
        Outcome::Done { rest, value } => spec_return_list(spec_sp(rest)).map(
            |values: Seq<ExpressionV>| ReturnStmtV { values },
        ),
    }.context(input, Label::ReturnStmt)
}

/// An assignment: a prefix expression, `=` and an expression.
#[verifier::opaque]
pub open spec fn spec_assignment(input: SpanV) -> Outcome<AssignmentV> {
    match spec_prefixexpr(spec_sp(input)) {
        Outcome::Failed { error } => Outcome::<AssignmentV>::Failed { error },
        Outcome::Done { rest, value: variable } => match spec_byte(
            spec_sp(rest),
            '=' as u8,
            Label::Assign,
        ) {
            Outcome::Failed { error } => Outcome::Failed { error },
            Outcome::Done { rest, value } => spec_expression(rest).map(
                |expression: ExpressionV| AssignmentV { variable, expression },
            ),
        },
    }.context(input, Label::Assignment)
}

/// A declaration: `let`, a variable, `=` and an expression.
#[verifier::opaque]
pub open spec fn spec_lassignment(input: SpanV) -> Outcome<LAssignmentV> {
    match spec_keyword(spec_sp(input), "let", Label::Let) {
        Outcome::Failed { error } => Outcome::<LAssignmentV>::Failed { error },
        Outcome::Done { rest, value } => match spec_variable(spec_sp(rest)) {
            Outcome::Failed { error } => Outcome::<LAssignmentV>::Failed { error },
            Outcome::Done { rest, value: variable } => match spec_byte(
                spec_sp(rest),
                '=' as u8,
                Label::Assign,
            ) {
                Outcome::Failed { error } => Outcome::Failed { error },
                Outcome::Done { rest, value } => spec_expression(rest).map(
                    |expression: ExpressionV| LAssignmentV { variable, expression },
                ),
            },
        }.cut(),
    }.context(input, Label::LAssignment)
}

/// A call that stands for itself: a prefix expression whose last suffix is a
/// call.
#[verifier::opaque]
pub open spec fn spec_function_call(input: SpanV) -> Outcome<PrefixExprV> {
    match spec_prefixexpr(input) {
        Outcome::Failed { error } => Outcome::<PrefixExprV>::Failed { error },
        Outcome::Done { rest, value } => if value.suffix_chain.len() > 0
            && value.suffix_chain.last() is FuncCall {
            Outcome::Done { rest, value }
        } else {
            Outcome::fail(input, Label::Call)
        },
    }.context(input, Label::FuncCall)
}

/// A condition between the keyword `opening` and `do`. The keyword commits.
#[verifier::opaque]
pub open spec fn spec_condition(input: SpanV, opening: &str, label: Label) -> Outcome<ExpressionV> {
    match spec_keyword(spec_sp(input), opening, label) {
        Outcome::Failed { error } => Outcome::<ExpressionV>::Failed { error },
        Outcome::Done { rest, value } => match spec_expression(spec_sp(rest)) {
            Outcome::Failed { error } => Outcome::<ExpressionV>::Failed { error },
            Outcome::Done { rest, value: cond } => match spec_keyword(
                spec_sp(rest),
                "do",
                Label::Do,
            ) {
                Outcome::Failed { error } => Outcome::Failed { error },
                Outcome::Done { rest, value } => Outcome::Done { rest, value: cond },
            },
        }.cut(),
    }
}

/// The condition of an `if`: `if`, an expression and `do`.
pub open spec fn spec_if_condition(input: SpanV) -> Outcome<ExpressionV> {
    spec_condition(input, "if", Label::If).context(input, Label::IfCond)
}

/// The condition of a `while`: `while`, an expression and `do`.
pub open spec fn spec_while_condition(input: SpanV) -> Outcome<ExpressionV> {
    spec_condition(input, "while", Label::While).context(input, Label::WhileCond)
}

/// The item of a `for`: `for` and a variable. The keyword commits.
#[verifier::opaque]
pub open spec fn spec_iter_item(input: SpanV) -> Outcome<TokenV<Seq<char>>> {
    match spec_keyword(spec_sp(input), "for", Label::For) {
        Outcome::Failed { error } => Outcome::<TokenV<Seq<char>>>::Failed { error },
        Outcome::Done { rest, value } => spec_variable(spec_sp(rest)).cut(),
    }.context(input, Label::ForIterItem)
}

/// The iterator of a `for`: `in`, an expression and `do`.
#[verifier::opaque]
pub open spec fn spec_iterator(input: SpanV) -> Outcome<ExpressionV> {
    match spec_keyword(spec_sp(input), "in", Label::In) {
        Outcome::Failed { error } => Outcome::<ExpressionV>::Failed { error },
        Outcome::Done { rest, value } => match spec_expression(spec_sp(rest)) {
            Outcome::Failed { error } => Outcome::<ExpressionV>::Failed { error },
            Outcome::Done { rest, value: iterator } => match spec_keyword(
                spec_sp(rest),
                "do",
                Label::Do,
            ) {
                Outcome::Failed { error } => Outcome::Failed { error },
                Outcome::Done { rest, value } => Outcome::Done { rest, value: iterator },
            },
        },
    }.context(input, Label::ForIterator)
}

/// The name of a function: after line endings and blank space, `fun` and an
/// identifier. The keyword commits.
#[verifier::opaque]
pub open spec fn spec_function_name(input: SpanV) -> Outcome<Seq<char>> {
    match spec_keyword(spec_sp(spec_opt_line_ending(input)), "fun", Label::Fun) {
        Outcome::Failed { error } => Outcome::<Seq<char>>::Failed { error },
        Outcome::Done { rest, value } => spec_variable_raw(spec_sp(rest)).map(
            |name: SpanV| name.text(),
        ).cut(),
    }.context(input, Label::FuncName)
}

/// The rest of a list of variables: any number of pairs of a comma and a
/// variable, gathered after `acc`.
pub open spec fn spec_variable_list_tail(input: SpanV, acc: Seq<TokenV<Seq<char>>>) -> Outcome<
    Seq<TokenV<Seq<char>>>,
>
    decreases input.len(),
{
    match spec_byte(spec_sp(input), ',' as u8, Label::Comma) {
        Outcome::Failed { error } => Outcome::Done { rest: input, value: acc },
        Outcome::Done { rest: after_comma, value: comma } => match spec_variable(
            spec_sp(after_comma),
        ).within(after_comma) {
            Outcome::Failed { error } => Outcome::Done { rest: input, value: acc },
            Outcome::Done { rest, value } => spec_variable_list_tail(rest, acc.push(value)),
        },
    }
}

/// A list of variables with commas between them; it may be empty.
#[verifier::opaque]
pub open spec fn spec_variable_list(input: SpanV) -> Outcome<Seq<TokenV<Seq<char>>>> {
    match spec_variable(spec_sp(input)) {
        Outcome::Failed { error } => Outcome::Done { rest: input, value: Seq::empty() },
        Outcome::Done { rest, value } => spec_variable_list_tail(rest, seq![value]),
    }
}

/// A list of parameters: after blank space, variables in parentheses.
#[verifier::opaque]
pub open spec fn spec_parameter_list(input: SpanV) -> Outcome<Seq<TokenV<Seq<char>>>> {
    match spec_byte(spec_sp(input), '(' as u8, Label::LeftParen) {
        Outcome::Failed { error } => Outcome::<Seq<TokenV<Seq<char>>>>::Failed { error },
        Outcome::Done { rest, value } => match spec_variable_list(rest) {
            Outcome::Failed { error } => Outcome::<Seq<TokenV<Seq<char>>>>::Failed { error },
            Outcome::Done { rest, value: parameters } => match spec_byte(
                spec_sp(rest),
                ')' as u8,
                Label::RightParen,
            ) {
                Outcome::Failed { error } => Outcome::Failed { error },
                Outcome::Done { rest, value } => Outcome::Done { rest, value: parameters },
            },
        },
    }.context(input, Label::ParameterList)
}

/// The variables of a list as literals.
pub open spec fn as_literals(variables: Seq<TokenV<Seq<char>>>) -> Seq<LiteralV> {
    Seq::new(variables.len(), |i: int| LiteralV::Variable(variables[i]))
}

/// The parameters of a function, each a variable literal.
#[verifier::opaque]
pub open spec fn spec_function_arguments(input: SpanV) -> Outcome<Seq<LiteralV>> {
    spec_parameter_list(input).map(|v: Seq<TokenV<Seq<char>>>| as_literals(v))
}

/// The name of a class: `class` and an identifier. The keyword commits.
#[verifier::opaque]
pub open spec fn spec_class_name(input: SpanV) -> Outcome<SpanV> {
    match spec_keyword(spec_sp(input), "class", Label::Class) {
        Outcome::Failed { error } => Outcome::<SpanV>::Failed { error },
        Outcome::Done { rest, value } => spec_variable_raw(spec_sp(rest)).cut(),
    }.context(input, Label::ClassName)
}

/// The rest of a dotted path: any number of pairs of a dot and a variable,
/// gathered after `acc`.
pub open spec fn spec_path_tail(input: SpanV, acc: Seq<LiteralV>) -> Outcome<Seq<LiteralV>>
    decreases input.len(),
{
    match spec_byte(spec_sp(input), '.' as u8, Label::Dot) {
        Outcome::Failed { error } => Outcome::Done { rest: input, value: acc },
        Outcome::Done { rest: after_dot, value: dot } => match spec_variable(
            spec_sp(after_dot),
        ).within(after_dot) {
            Outcome::Failed { error } => Outcome::Done { rest: input, value: acc },
            Outcome::Done { rest, value } => spec_path_tail(
                rest,
                acc.push(LiteralV::Variable(value)),
            ),
        },
    }
}

/// A dotted path: one variable or more with dots between them.
#[verifier::opaque]
pub open spec fn spec_path(input: SpanV) -> Outcome<Seq<LiteralV>> {
    match spec_variable(spec_sp(input)) {
        Outcome::Failed { error } => Outcome::Failed { error },
        Outcome::Done { rest, value } => spec_path_tail(rest, seq![LiteralV::Variable(value)]),
    }
}

/// The alias of an import, which may be left out: `as` and a variable.
#[verifier::opaque]
pub open spec fn spec_alias(input: SpanV) -> Outcome<Option<LiteralV>> {
    match spec_keyword(spec_sp(input), "as", Label::As) {
        Outcome::Failed { error } => Outcome::Done { rest: input, value: None },
        Outcome::Done { rest, value } => spec_variable(spec_sp(rest)).map(
            |v: TokenV<Seq<char>>| Some(LiteralV::Variable(v)),
        ).cut(),
    }
}

/// An import: `external`, which may be left out, `import`, a dotted path and an
/// alias, which may be left out.
#[verifier::opaque]
pub open spec fn spec_import(input: SpanV) -> Outcome<ImportV> {
    let start = spec_sp(input);
    let marked = spec_keyword(spec_sp(start), "external", Label::External);
    let (at, external) = match marked {
        Outcome::Done { rest, value } => (rest, true),
        Outcome::Failed { error } => (start, false),
    };
    match spec_keyword(spec_sp(at), "import", Label::Import) {
        Outcome::Failed { error } => Outcome::<ImportV>::Failed { error },
        Outcome::Done { rest, value } => match spec_path(rest) {
            Outcome::Failed { error } => Outcome::<ImportV>::Failed { error },
            Outcome::Done { rest, value: path } => spec_alias(rest).map(
                |alias: Option<LiteralV>| ImportV { external, path, alias },
            ),
        }.cut(),
    }.context(input, Label::Import)
}

/// A block: any number of statements, then at most one return statement.
pub open spec fn spec_block(input: SpanV) -> Outcome<BlockV>
    decreases input.len(), 12int,
{
    match spec_statements(input, Seq::empty()) {
        Outcome::Failed { error } => Outcome::<BlockV>::Failed { error },
        Outcome::Done { rest, value: statements } => match spec_return_stmt(rest) {
            Outcome::Failed { error } => if error.fatal {
                Outcome::Failed { error }
            } else {
                Outcome::Done { rest, value: BlockV { statements, return_stmt: None } }
            },
            Outcome::Done { rest, value } => Outcome::Done {
                rest,
                value: BlockV { statements, return_stmt: Some(value) },
            },
        },
    }.context(input, Label::Block)
}

/// Any number of statements, gathered after `acc`.
pub open spec fn spec_statements(input: SpanV, acc: Seq<StatementV>) -> Outcome<Seq<StatementV>>
    decreases input.len(), 11int,
{
    match spec_statement(input) {
        Outcome::Failed { error } => if error.fatal {
            Outcome::Failed { error }
        } else {
            Outcome::Done { rest: input, value: acc }
        },
        Outcome::Done { rest, value } => if rest.len() < input.len() {
            spec_statements(rest, acc.push(value))
        } else {
            Outcome::fail(input, Label::Stmt)
        },
    }
}

/// A statement, after blank space.
pub open spec fn spec_statement(input: SpanV) -> Outcome<StatementV>
    decreases input.len(), 10int,
{
    let at = spec_sp(input);
    spec_lassignment(at).map(|s: LAssignmentV| StatementV::LAssignment(s)).or(
        spec_assignment(at).map(|s: AssignmentV| StatementV::Assignment(s)),
    ).or(spec_if(at).map(|s: IfV| StatementV::If(Box::new(s)))).or(
        spec_for(at).map(|s: ForV| StatementV::For(Box::new(s))),
    ).or(spec_while(at).map(|s: WhileV| StatementV::While(Box::new(s)))).or(
        spec_function(at).map(|s: FunctionV| StatementV::Fun(Box::new(s))),
    ).or(spec_class(at).map(|s: ClassV| StatementV::Class(s))).or(
        spec_import(at).map(|s: ImportV| StatementV::Import(s)),
    ).or(spec_function_call(at).map(|s: PrefixExprV| StatementV::FuncCall(s))).context(
        input,
        Label::Stmt,
    )
}

/// The `end` that closes a block, after blank space.
pub open spec fn spec_end(input: SpanV) -> Outcome<SpanV> {
    spec_keyword(spec_sp(input), "end", Label::End)
}

/// The branch of an `if` for the case that the condition does not hold: `else`
/// and a block.
pub open spec fn spec_else_statements(input: SpanV) -> Outcome<BlockV>
    decreases input.len(), 4int,
{
    match spec_keyword(spec_sp(input), "else", Label::Else) {
        Outcome::Failed { error } => Outcome::<BlockV>::Failed { error },
        Outcome::Done { rest, value } => spec_block(rest).cut(),
    }.context(input, Label::ElseStmt)
}

/// An `if`: the condition, a block, an `else` branch, which may be left out,
/// and `end`.
pub open spec fn spec_if(input: SpanV) -> Outcome<IfV>
    decreases input.len(), 5int,
{
    match spec_if_condition(input).advancing(input) {
        Outcome::Failed { error } => Outcome::<IfV>::Failed { error },
        Outcome::Done { rest, value: cond } => match spec_block(rest).within(rest) {
            Outcome::Failed { error } => Outcome::<IfV>::Failed { error },
            Outcome::Done { rest, value: stmts } => match spec_else_statements(rest) {
                Outcome::Failed { error } => if error.fatal {
                    Outcome::<IfV>::Failed { error }
                } else {
                    spec_end(rest).map(|e: SpanV| IfV { cond, stmts, else_statements: None })
                },
                Outcome::Done { rest, value } => spec_end(rest).map(
                    |e: SpanV| IfV { cond, stmts, else_statements: Some(value) },
                ),
            },
        }.cut(),
    }.context(input, Label::If)
}

/// A `for`: the item, the iterator, a block and `end`.
pub open spec fn spec_for(input: SpanV) -> Outcome<ForV>
    decreases input.len(), 5int,
{
    match spec_iter_item(input).advancing(input) {
        Outcome::Failed { error } => Outcome::<ForV>::Failed { error },
        Outcome::Done { rest, value: iter_item } => match spec_iterator(rest).within(rest) {
            Outcome::Failed { error } => Outcome::<ForV>::Failed { error },
            Outcome::Done { rest, value: iterator } => match spec_block(rest) {
                Outcome::Failed { error } => Outcome::<ForV>::Failed { error },
                Outcome::Done { rest, value: block } => spec_end(rest).map(
                    |e: SpanV| ForV { iter_item, iterator, block },
                ),
            },
        }.cut(),
    }.context(input, Label::For)
}

/// A `while`: the condition, a block and `end`.
pub open spec fn spec_while(input: SpanV) -> Outcome<WhileV>
    decreases input.len(), 5int,
{
    match spec_while_condition(input).advancing(input) {
        Outcome::Failed { error } => Outcome::<WhileV>::Failed { error },
        Outcome::Done { rest, value: cond } => match spec_block(rest) {
            Outcome::Failed { error } => Outcome::<WhileV>::Failed { error },
            Outcome::Done { rest, value: block } => spec_end(rest).map(
                |e: SpanV| WhileV { cond, block },
            ),
        }.cut(),
    }.context(input, Label::While)
}

/// A function: the name, the parameters, a block and `end`.
pub open spec fn spec_function(input: SpanV) -> Outcome<FunctionV>
    decreases input.len(), 5int,
{
    match spec_function_name(input).advancing(input) {
        Outcome::Failed { error } => Outcome::<FunctionV>::Failed { error },
        Outcome::Done { rest, value: name } => match spec_function_arguments(rest).within(rest) {
            Outcome::Failed { error } => Outcome::<FunctionV>::Failed { error },
            Outcome::Done { rest, value: parameters } => match spec_block(rest) {
                Outcome::Failed { error } => Outcome::<FunctionV>::Failed { error },
                Outcome::Done { rest, value: block } => spec_end(rest).map(
                    |e: SpanV| FunctionV { name, parameters, block },
                ),
            },
        }.cut(),
    }.context(input, Label::Func)
}

/// Any number of functions, gathered after `acc`.
pub open spec fn spec_functions(input: SpanV, acc: Seq<FunctionV>) -> Outcome<Seq<FunctionV>>
    decreases input.len(), 6int,
{
    match spec_function(input) {
        Outcome::Failed { error } => if error.fatal {
            Outcome::Failed { error }
        } else {
            Outcome::Done { rest: input, value: acc }
        },
        Outcome::Done { rest, value } => if rest.len() < input.len() {
            spec_functions(rest, acc.push(value))
        } else {
            Outcome::fail(input, Label::Methods)
        },
    }
}

/// The methods of a class: after blank space, any number of functions, and
/// after them line endings.
pub open spec fn spec_methods(input: SpanV) -> Outcome<Seq<FunctionV>>
    decreases input.len(), 7int,
{
    match spec_functions(spec_sp(input), Seq::empty()) {
        Outcome::Failed { error } => Outcome::<Seq<FunctionV>>::Failed { error },
        Outcome::Done { rest, value } => Outcome::Done {
            rest: spec_opt_line_ending(rest),
            value,
        },
    }.context(input, Label::Methods)
}

/// A class: after blank space, the name, the methods and `end`.
pub open spec fn spec_class(input: SpanV) -> Outcome<ClassV>
    decreases input.len(), 8int,
{
    match spec_class_name(spec_sp(input)).advancing(input) {
        Outcome::Failed { error } => Outcome::<ClassV>::Failed { error },
        Outcome::Done { rest, value: name } => match spec_methods(rest) {
            Outcome::Failed { error } => Outcome::<ClassV>::Failed { error },
            Outcome::Done { rest, value: methods } => spec_end(rest).map(
                |e: SpanV| ClassV { name: name.text(), methods },
            ),
        }.cut(),
    }.context(input, Label::Class)
}

/// A whole source text: a block, and after it nothing but blank space.
pub open spec fn spec_source(input: SpanV) -> Outcome<BlockV> {
    match spec_block(input) {
        Outcome::Failed { error } => Outcome::<BlockV>::Failed { error },
        Outcome::Done { rest, value } => if spec_sp(rest).len() == 0 {
            Outcome::Done { rest: spec_sp(rest), value }
        } else {
            Outcome::fail(spec_sp(rest), Label::Eof)
        },
    }.context(input, Label::Root)
}

} // verus!
