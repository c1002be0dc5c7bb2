//! The parser of statements and blocks: one function for each production of
//! [`crate::grammar::statement`], which yields what the production says.

use vstd::prelude::*;
use vstd::string::*;
use crate::ast::{
    lemma_functions_view, lemma_statements_view, lemma_suffixes_view, Assignment, Block, BlockV,
    Class, Expression, ExprSuffix, For, Function, If, Import, LAssignment, Literal, LiteralV,
    PrefixExpr, ReturnStmt, Statement, Variable, While,
};
use crate::error::{committed, fail, in_context, outcome, Label, Outcome, ParseError, Res};
use crate::grammar::statement::{
    as_literals, spec_alias, spec_assignment, spec_block, spec_class, spec_class_name,
    spec_condition, spec_else_statements, spec_end, spec_for, spec_function,
    spec_function_arguments, spec_function_call, spec_function_name, spec_functions, spec_if,
    spec_if_condition, spec_import, spec_iter_item, spec_iterator, spec_lassignment, spec_methods,
    spec_parameter_list, spec_path, spec_path_tail, spec_return_list, spec_return_stmt, spec_source,
    spec_statement, spec_statements, spec_variable_list, spec_variable_list_tail, spec_while,
    spec_while_condition,
};
use crate::lexical::{opt_line_ending, skip_blank};
use crate::literals::{parse_variable, parse_variable_raw};
use crate::parser::expression::{parse_expression, parse_expression_list, prefixexpr};
use crate::span::Span;
use crate::tokens::{keyword, punct};

verus! {

/// Parses the values of a return statement: after blank space, a list of
/// expressions.
pub fn parse_return_list<'a>(input: Span<'a>) -> (r: Res<'a, Vec<Expression<'a>>>)
    ensures
        outcome(r) == spec_return_list(input@),
        outcome(r).shrinks(input@),
{
    reveal(spec_return_list);
    in_context(parse_expression_list(skip_blank(input)), input, Label::ReturnList)
}

/// Parses a return statement: `return` and the values.
pub fn parse_return_stmt<'a>(input: Span<'a>) -> (r: Res<'a, ReturnStmt<'a>>)
    ensures
        outcome(r) == spec_return_stmt(input@),
        outcome(r).shrinks(input@),
{
    reveal(spec_return_stmt);
    let r: Res<'a, ReturnStmt<'a>> = match keyword(skip_blank(input), "return", Label::Return) {
        Err(e) => Err(e),
        Ok((rest, _)) => match parse_return_list(skip_blank(rest)) {
            Err(e) => Err(e),
            Ok((rest, values)) => Ok((rest, ReturnStmt { values })),
        },
    };
    in_context(r, input, Label::ReturnStmt)
}

/// Parses an assignment: a prefix expression, `=` and an expression.
pub fn parse_assignment<'a>(input: Span<'a>) -> (r: Res<'a, Assignment<'a>>)
    ensures
        outcome(r) == spec_assignment(input@),
        outcome(r).shrinks(input@),
{
    reveal(spec_assignment);
    let r: Res<'a, Assignment<'a>> = match prefixexpr(skip_blank(input)) {
        Err(e) => Err(e),
        Ok((rest, variable)) => match punct(skip_blank(rest), '=' as u8, Label::Assign) {
            Err(e) => Err(e),
            Ok((rest, _)) => match parse_expression(rest) {
                Err(e) => Err(e),
                Ok((rest, expression)) => Ok((rest, Assignment { variable, expression })),
            },
        },
    };
    in_context(r, input, Label::Assignment)
}

/// Parses a declaration: `let`, a variable, `=` and an expression.
pub fn parse_lassignment<'a>(input: Span<'a>) -> (r: Res<'a, LAssignment<'a>>)
    ensures
        outcome(r) == spec_lassignment(input@),
        outcome(r).shrinks(input@),
{
    reveal(spec_lassignment);
    let r: Res<'a, LAssignment<'a>> = match keyword(skip_blank(input), "let", Label::Let) {
        Err(e) => Err(e),
        Ok((rest, _)) => {
            let inner: Res<'a, LAssignment<'a>> = match parse_variable(skip_blank(rest)) {
                Err(e) => Err(e),
                Ok((rest, variable)) => match punct(skip_blank(rest), '=' as u8, Label::Assign) {
                    Err(e) => Err(e),
                    Ok((rest, _)) => match parse_expression(rest) {
                        Err(e) => Err(e),
                        Ok((rest, expression)) => Ok((rest, LAssignment { variable, expression })),
                    },
                },
            };
            committed(inner)
        },
    };
    in_context(r, input, Label::LAssignment)
}

/// Parses a call that stands for itself: a prefix expression whose last suffix
/// is a call.
pub fn parse_function_call<'a>(input: Span<'a>) -> (r: Res<'a, PrefixExpr<'a>>)
    ensures
        outcome(r) == spec_function_call(input@),
        outcome(r).shrinks(input@),
{
    reveal(spec_function_call);
    let r: Res<'a, PrefixExpr<'a>> = match prefixexpr(input) {
        Err(e) => Err(e),
        Ok((rest, p)) => {
            let n = p.suffix_chain.len();
            let is_call = n > 0 && match &p.suffix_chain[n - 1] {
                ExprSuffix::FuncCall(_) => true,
                _ => false,
            };
            proof {
                lemma_suffixes_view(p.suffix_chain);
            }
            if is_call {
                Ok((rest, p))
            } else {
                fail(input, Label::Call)
            }
        },
    };
    in_context(r, input, Label::FuncCall)
}

fn parse_condition<'a>(input: Span<'a>, opening: &str, label: Label) -> (r: Res<
    'a,
    Expression<'a>,
>)
    ensures
        outcome(r) == spec_condition(input@, opening, label),
        outcome(r).advances(input@),
{
    reveal(spec_condition);
    match keyword(skip_blank(input), opening, label) {
        Err(e) => Err(e),
        Ok((rest, _)) => {
            let inner: Res<'a, Expression<'a>> = match parse_expression(skip_blank(rest)) {
                Err(e) => Err(e),
                Ok((rest, cond)) => match keyword(skip_blank(rest), "do", Label::Do) {
                    Err(e) => Err(e),
                    Ok((rest, _)) => Ok((rest, cond)),
                },
            };
            committed(inner)
        },
    }
}

/// Parses the condition of an `if`: `if`, an expression and `do`.
pub fn if_condition<'a>(input: Span<'a>) -> (r: Res<'a, Expression<'a>>)
    ensures
        outcome(r) == spec_if_condition(input@),
        outcome(r).advances(input@),
{
    in_context(parse_condition(input, "if", Label::If), input, Label::IfCond)
}

/// Parses the condition of a `while`: `while`, an expression and `do`.
pub fn while_condition<'a>(input: Span<'a>) -> (r: Res<'a, Expression<'a>>)
    ensures
        outcome(r) == spec_while_condition(input@),
        outcome(r).advances(input@),
{
    in_context(parse_condition(input, "while", Label::While), input, Label::WhileCond)
}

/// Parses the item of a `for`: `for` and a variable.
pub fn parse_iter_item<'a>(input: Span<'a>) -> (r: Res<'a, Variable<'a>>)
    ensures
        outcome(r) == spec_iter_item(input@),
        outcome(r).advances(input@),
{
    reveal(spec_iter_item);
    let r: Res<'a, Variable<'a>> = match keyword(skip_blank(input), "for", Label::For) {
        Err(e) => Err(e),
        Ok((rest, _)) => committed(parse_variable(skip_blank(rest))),
    };
    in_context(r, input, Label::ForIterItem)
}

/// Parses the iterator of a `for`: `in`, an expression and `do`.
pub fn parse_iterator<'a>(input: Span<'a>) -> (r: Res<'a, Expression<'a>>)
    ensures
        outcome(r) == spec_iterator(input@),
        outcome(r).advances(input@),
{
    reveal(spec_iterator);
    let r: Res<'a, Expression<'a>> = match keyword(skip_blank(input), "in", Label::In) {
        Err(e) => Err(e),
        Ok((rest, _)) => match parse_expression(skip_blank(rest)) {
            Err(e) => Err(e),
            Ok((rest, iterator)) => match keyword(skip_blank(rest), "do", Label::Do) {
                Err(e) => Err(e),
                Ok((rest, _)) => Ok((rest, iterator)),
            },
        },
    };
    in_context(r, input, Label::ForIterator)
}

/// Parses the name of a function: after line endings and blank space, `fun` and
/// an identifier.
pub fn parse_function_name<'a>(input: Span<'a>) -> (r: Res<'a, &'a str>)
    ensures
        outcome(r) == spec_function_name(input@),
        outcome(r).advances(input@),
{
    reveal(spec_function_name);
    let after_lines = match opt_line_ending(input) {
        Ok((rest, _)) => rest,
        Err(_) => input,
    };
    let r: Res<'a, &'a str> = match keyword(skip_blank(after_lines), "fun", Label::Fun) {
        Err(e) => Err(e),
        Ok((rest, _)) => {
            let inner: Res<'a, &'a str> = match parse_variable_raw(skip_blank(rest)) {
                Err(e) => Err(e),
                Ok((rest, name)) => Ok((rest, name.fragment())),
            };
            committed(inner)
        },
    };
    in_context(r, input, Label::FuncName)
}

fn parse_variable_list_tail<'a>(input: Span<'a>, first: Vec<Variable<'a>>) -> (r: Res<
    'a,
    Vec<Variable<'a>>,
>)
    ensures
        outcome(r) == spec_variable_list_tail(input@, first.deep_view()),
        outcome(r).shrinks(input@),
{
    let mut cur = input;
    let mut acc = first;
    loop
        invariant
            cur@.len() <= input@.len(),
            spec_variable_list_tail(cur@, acc.deep_view()) == spec_variable_list_tail(
                input@,
                first.deep_view(),
            ),
        decreases cur@.len(),
    {
        match punct(skip_blank(cur), ',' as u8, Label::Comma) {
            Err(_) => {
                return Ok((cur, acc));
            },
            Ok((after_comma, _)) => match parse_variable(skip_blank(after_comma)) {
                Err(_) => {
                    return Ok((cur, acc));
                },
                Ok((rest, item)) => {
                    let ghost before = acc.deep_view();
                    acc.push(item);
                    assert(acc.deep_view() =~= before.push(item.deep_view()));
                    cur = rest;
                },
            },
        }
    }
}

fn parse_variable_list<'a>(input: Span<'a>) -> (r: Res<'a, Vec<Variable<'a>>>)
    ensures
        outcome(r) == spec_variable_list(input@),
        outcome(r).shrinks(input@),
{
    reveal(spec_variable_list);
    let mut acc: Vec<Variable<'a>> = Vec::new();
    assert(acc.deep_view() =~= Seq::empty());
    match parse_variable(skip_blank(input)) {
        Err(_) => Ok((input, acc)),
        Ok((rest, first)) => {
            acc.push(first);
            assert(acc.deep_view() =~= seq![first.deep_view()]);
            parse_variable_list_tail(rest, acc)
        },
    }
}

/// Parses a list of parameters: after blank space, variables in parentheses.
pub fn parse_parameter_list<'a>(input: Span<'a>) -> (r: Res<'a, Vec<Variable<'a>>>)
    ensures
        outcome(r) == spec_parameter_list(input@),
        outcome(r).shrinks(input@),
{
    reveal(spec_parameter_list);
    let r: Res<'a, Vec<Variable<'a>>> = match punct(
        skip_blank(input),
        '(' as u8,
        Label::LeftParen,
    ) {
        Err(e) => Err(e),
        Ok((rest, _)) => match parse_variable_list(rest) {
            Err(e) => Err(e),
            Ok((rest, parameters)) => match punct(skip_blank(rest), ')' as u8, Label::RightParen) {
                Err(e) => Err(e),
                Ok((rest, _)) => Ok((rest, parameters)),
            },
        },
    };
    in_context(r, input, Label::ParameterList)
}

/// Parses the parameters of a function, each a variable literal.
pub fn parse_function_arguments<'a>(input: Span<'a>) -> (r: Res<'a, Vec<Literal<'a>>>)
    ensures
        outcome(r) == spec_function_arguments(input@),
        outcome(r).shrinks(input@),
{
    reveal(spec_function_arguments);
    match parse_parameter_list(input) {
        Err(e) => Err(e),
        Ok((rest, variables)) => {
            let mut literals: Vec<Literal<'a>> = Vec::new();
            let mut i: usize = 0;
            while i < variables.len()
                invariant
                    i <= variables@.len(),
                    literals@.len() == i,
                    forall|j: int|
                        0 <= j < i ==> (#[trigger] literals@[j]).deep_view() == LiteralV::Variable(
                            variables@[j].deep_view(),
                        ),
                decreases variables@.len() - i,
            {
                literals.push(Literal::Variable(variables[i]));
                i += 1;
            }
            assert(literals.deep_view() =~= as_literals(variables.deep_view()));
            Ok((rest, literals))
        },
    }
}

/// Parses the name of a class: `class` and an identifier.
pub fn parse_class_name<'a>(input: Span<'a>) -> (r: Res<'a, Span<'a>>)
    ensures
        outcome(r) == spec_class_name(input@),
        outcome(r).advances(input@),
{
    reveal(spec_class_name);
    let r: Res<'a, Span<'a>> = match keyword(skip_blank(input), "class", Label::Class) {
        Err(e) => Err(e),
        Ok((rest, _)) => committed(parse_variable_raw(skip_blank(rest))),
    };
    in_context(r, input, Label::ClassName)
}

fn parse_path_tail<'a>(input: Span<'a>, first: Vec<Literal<'a>>) -> (r: Res<'a, Vec<Literal<'a>>>)
    ensures
        outcome(r) == spec_path_tail(input@, first.deep_view()),
        outcome(r).shrinks(input@),
{
    let mut cur = input;
    let mut acc = first;
    loop
        invariant
            cur@.len() <= input@.len(),
            spec_path_tail(cur@, acc.deep_view()) == spec_path_tail(input@, first.deep_view()),
        decreases cur@.len(),
    {
        match punct(skip_blank(cur), '.' as u8, Label::Dot) {
            Err(_) => {
                return Ok((cur, acc));
            },
            Ok((after_dot, _)) => match parse_variable(skip_blank(after_dot)) {
                Err(_) => {
                    return Ok((cur, acc));
                },
                Ok((rest, item)) => {
                    let ghost before = acc.deep_view();
                    acc.push(Literal::Variable(item));
                    assert(acc.deep_view() =~= before.push(LiteralV::Variable(item.deep_view())));
                    cur = rest;
                },
            },
        }
    }
}

fn parse_path<'a>(input: Span<'a>) -> (r: Res<'a, Vec<Literal<'a>>>)
    ensures
        outcome(r) == spec_path(input@),
        outcome(r).shrinks(input@),
{
    reveal(spec_path);
    match parse_variable(skip_blank(input)) {
        Err(e) => Err(e),
        Ok((rest, first)) => {
            let mut acc: Vec<Literal<'a>> = Vec::new();
            acc.push(Literal::Variable(first));
            assert(acc.deep_view() =~= seq![LiteralV::Variable(first.deep_view())]);
            parse_path_tail(rest, acc)
        },
    }
}

fn parse_alias<'a>(input: Span<'a>) -> (r: Res<'a, Option<Literal<'a>>>)
    ensures
        outcome(r) == spec_alias(input@),
        outcome(r).shrinks(input@),
{
    reveal(spec_alias);
    match keyword(skip_blank(input), "as", Label::As) {
        Err(_) => Ok((input, None)),
        Ok((rest, _)) => match parse_variable(skip_blank(rest)) {
            Err(e) => Err(e.cut()),
            Ok((rest, v)) => Ok((rest, Some(Literal::Variable(v)))),
        },
    }
}

/// Parses an import: `external`, which may be left out, `import`, a dotted path
/// and an alias, which may be left out.
pub fn parse_import<'a>(input: Span<'a>) -> (r: Res<'a, Import<'a>>)
    ensures
        outcome(r) == spec_import(input@),
        outcome(r).shrinks(input@),
{
    reveal(spec_import);
    let start = skip_blank(input);
    let (at, external) = match keyword(skip_blank(start), "external", Label::External) {
        Ok((rest, _)) => (rest, true),
        Err(_) => (start, false),
    };
    let r: Res<'a, Import<'a>> = match keyword(skip_blank(at), "import", Label::Import) {
        Err(e) => Err(e),
        Ok((rest, _)) => {
            let inner: Res<'a, Import<'a>> = match parse_path(rest) {
                Err(e) => Err(e),
                Ok((rest, path)) => match parse_alias(rest) {
                    Err(e) => Err(e),
                    Ok((rest, alias)) => Ok((rest, Import { external, path, alias })),
                },
            };
            committed(inner)
        },
    };
    in_context(r, input, Label::Import)
}

/// Parses a block: any number of statements, then at most one return
/// statement.
pub fn parse_block<'a>(input: Span<'a>) -> (r: Res<'a, Block<'a>>)
    ensures
        outcome(r) == spec_block(input@),
        outcome(r).shrinks(input@),
    decreases input@.len(), 12int,
{
    let acc: Vec<Statement<'a>> = Vec::new();
    assert(acc.deep_view() =~= Seq::empty());
    let r: Res<'a, Block<'a>> = match parse_statements(input, acc) {
        Err(e) => Err(e),
        Ok((rest, statements)) => {
            proof {
                lemma_statements_view(statements);
            }
            match parse_return_stmt(rest) {
                Err(e) => if e.fatal {
                    Err(e)
                } else {
                    Ok((rest, Block { statements, return_stmt: None }))
                },
                Ok((rest, value)) => Ok((rest, Block { statements, return_stmt: Some(value) })),
            }
        },
    };
    in_context(r, input, Label::Block)
}

/// Parses any number of statements, and gathers them after `first`.
pub fn parse_statements<'a>(input: Span<'a>, first: Vec<Statement<'a>>) -> (r: Res<
    'a,
    Vec<Statement<'a>>,
>)
    ensures
        outcome(r) == spec_statements(input@, first.deep_view()),
        outcome(r).shrinks(input@),
    decreases input@.len(), 11int,
{
    let mut cur = input;
    let mut acc = first;
    loop
        invariant
            cur@.len() <= input@.len(),
            spec_statements(cur@, acc.deep_view()) == spec_statements(input@, first.deep_view()),
        decreases cur@.len(),
    {
        match parse_statement(cur) {
            Err(e) => {
                if e.fatal {
                    return Err(e);
                }
                return Ok((cur, acc));
            },
            Ok((rest, statement)) => {
                if rest.len() >= cur.len() {
                    return fail(cur, Label::Stmt);
                }
                let ghost before = acc.deep_view();
                let ghost item = statement.deep_view();
                acc.push(statement);
                assert(acc.deep_view() =~= before.push(item));
                cur = rest;
            },
        }
    }
}

/// Parses a statement, after blank space.
pub fn parse_statement<'a>(input: Span<'a>) -> (r: Res<'a, Statement<'a>>)
    ensures
        outcome(r) == spec_statement(input@),
        outcome(r).shrinks(input@),
    decreases input@.len(), 10int,
{
    let at = skip_blank(input);
    match parse_lassignment(at) {
        Ok((rest, s)) => {
            return in_context(Ok((rest, Statement::LAssignment(s))), input, Label::Stmt);
        },
        Err(e) => if e.fatal {
            return in_context(Err(e), input, Label::Stmt);
        },
    }
    match parse_assignment(at) {
        Ok((rest, s)) => {
            return in_context(Ok((rest, Statement::Assignment(s))), input, Label::Stmt);
        },
        Err(e) => if e.fatal {
            return in_context(Err(e), input, Label::Stmt);
        },
    }
    match parse_if(at) {
        Ok((rest, s)) => {
            return in_context(Ok((rest, Statement::If(s))), input, Label::Stmt);
        },
        Err(e) => if e.fatal {
            return in_context(Err(e), input, Label::Stmt);
        },
    }
    match parse_for(at) {
        Ok((rest, s)) => {
            return in_context(Ok((rest, Statement::For(s))), input, Label::Stmt);
        },
        Err(e) => if e.fatal {
            return in_context(Err(e), input, Label::Stmt);
        },
    }
    match parse_while(at) {
        Ok((rest, s)) => {
            return in_context(Ok((rest, Statement::While(s))), input, Label::Stmt);
        },
        Err(e) => if e.fatal {
            return in_context(Err(e), input, Label::Stmt);
        },
    }
    match parse_function(at) {
        Ok((rest, s)) => {
            return in_context(Ok((rest, Statement::Fun(s))), input, Label::Stmt);
        },
        Err(e) => if e.fatal {
            return in_context(Err(e), input, Label::Stmt);
        },
    }
    match parse_class(at) {
        Ok((rest, s)) => {
            return in_context(Ok((rest, Statement::Class(s))), input, Label::Stmt);
        },
        Err(e) => if e.fatal {
            return in_context(Err(e), input, Label::Stmt);
        },
    }
    match parse_import(at) {
        Ok((rest, s)) => {
            return in_context(Ok((rest, Statement::Import(s))), input, Label::Stmt);
        },
        Err(e) => if e.fatal {
            return in_context(Err(e), input, Label::Stmt);
        },
    }
    match parse_function_call(at) {
        Ok((rest, s)) => in_context(Ok((rest, Statement::FuncCall(s))), input, Label::Stmt),
        Err(e) => in_context(Err(e), input, Label::Stmt),
    }
}

fn parse_end<'a>(input: Span<'a>) -> (r: Res<'a, Span<'a>>)
    ensures
        outcome(r) == spec_end(input@),
        outcome(r).shrinks(input@),
{
    keyword(skip_blank(input), "end", Label::End)
}

/// Parses the branch of an `if` for the case that the condition does not hold:
/// `else` and a block.
pub fn else_statements<'a>(input: Span<'a>) -> (r: Res<'a, Block<'a>>)
    ensures
        outcome(r) == spec_else_statements(input@),
        outcome(r).shrinks(input@),
    decreases input@.len(), 4int,
{
    let r: Res<'a, Block<'a>> = match keyword(skip_blank(input), "else", Label::Else) {
        Err(e) => Err(e),
        Ok((rest, _)) => committed(parse_block(rest)),
    };
    in_context(r, input, Label::ElseStmt)
}

/// Parses an `if`: the condition, a block, an `else` branch, which may be left
/// out, and `end`.
pub fn parse_if<'a>(input: Span<'a>) -> (r: Res<'a, If<'a>>)
    ensures
        outcome(r) == spec_if(input@),
        outcome(r).shrinks(input@),
    decreases input@.len(), 5int,
{
    let r: Res<'a, If<'a>> = match if_condition(input) {
        Err(e) => Err(e),
        Ok((rest, cond)) => {
            let inner: Res<'a, If<'a>> = match parse_block(rest) {
                Err(e) => Err(e),
                Ok((rest, stmts)) => match else_statements(rest) {
                    Err(e) => if e.fatal {
                        Err(e)
                    } else {
                        match parse_end(rest) {
                            Err(e) => Err(e),
                            Ok((rest, _)) => Ok((rest, If { cond, stmts, else_statements: None })),
                        }
                    },
                    Ok((rest, other)) => match parse_end(rest) {
                        Err(e) => Err(e),
                        Ok((rest, _)) => Ok(
                            (rest, If { cond, stmts, else_statements: Some(other) }),
                        ),
                    },
                },
            };
            committed(inner)
        },
    };
    in_context(r, input, Label::If)
}

/// Parses a `for`: the item, the iterator, a block and `end`.
pub fn parse_for<'a>(input: Span<'a>) -> (r: Res<'a, For<'a>>)
    ensures
        outcome(r) == spec_for(input@),
        outcome(r).shrinks(input@),
    decreases input@.len(), 5int,
{
    let r: Res<'a, For<'a>> = match parse_iter_item(input) {
        Err(e) => Err(e),
        Ok((rest, iter_item)) => {
            let inner: Res<'a, For<'a>> = match parse_iterator(rest) {
                Err(e) => Err(e),
                Ok((rest, iterator)) => match parse_block(rest) {
                    Err(e) => Err(e),
                    Ok((rest, block)) => match parse_end(rest) {
                        Err(e) => Err(e),
                        Ok((rest, _)) => Ok((rest, For { iter_item, iterator, block })),
                    },
                },
            };
            committed(inner)
        },
    };
    in_context(r, input, Label::For)
}

/// Parses a `while`: the condition, a block and `end`.
pub fn parse_while<'a>(input: Span<'a>) -> (r: Res<'a, While<'a>>)
    ensures
        outcome(r) == spec_while(input@),
        outcome(r).shrinks(input@),
    decreases input@.len(), 5int,
{
    let r: Res<'a, While<'a>> = match while_condition(input) {
        Err(e) => Err(e),
        Ok((rest, cond)) => {
            let inner: Res<'a, While<'a>> = match parse_block(rest) {
                Err(e) => Err(e),
                Ok((rest, block)) => match parse_end(rest) {
                    Err(e) => Err(e),
                    Ok((rest, _)) => Ok((rest, While { cond, block })),
                },
            };
            committed(inner)
        },
    };
    in_context(r, input, Label::While)
}

/// Parses a function: the name, the parameters, a block and `end`.
pub fn parse_function<'a>(input: Span<'a>) -> (r: Res<'a, Function<'a>>)
    ensures
        outcome(r) == spec_function(input@),
        outcome(r).shrinks(input@),
    decreases input@.len(), 5int,
{
    let r: Res<'a, Function<'a>> = match parse_function_name(input) {
        Err(e) => Err(e),
        Ok((rest, name)) => {
            let inner: Res<'a, Function<'a>> = match parse_function_arguments(rest) {
                Err(e) => Err(e),
                Ok((rest, parameters)) => match parse_block(rest) {
                    Err(e) => Err(e),
                    Ok((rest, block)) => match parse_end(rest) {
                        Err(e) => Err(e),
                        Ok((rest, _)) => Ok((rest, Function { name, parameters, block })),
                    },
                },
            };
            committed(inner)
        },
    };
    in_context(r, input, Label::Func)
}

/// Parses any number of functions, and gathers them after `first`.
pub fn parse_functions<'a>(input: Span<'a>, first: Vec<Function<'a>>) -> (r: Res<
    'a,
    Vec<Function<'a>>,
>)
    ensures
        outcome(r) == spec_functions(input@, first.deep_view()),
        outcome(r).shrinks(input@),
    decreases input@.len(), 6int,
{
    let mut cur = input;
    let mut acc = first;
    loop
        invariant
            cur@.len() <= input@.len(),
            spec_functions(cur@, acc.deep_view()) == spec_functions(input@, first.deep_view()),
        decreases cur@.len(),
    {
        match parse_function(cur) {
            Err(e) => {
                if e.fatal {
                    return Err(e);
                }
                return Ok((cur, acc));
            },
            Ok((rest, function)) => {
                if rest.len() >= cur.len() {
                    return fail(cur, Label::Methods);
                }
                let ghost before = acc.deep_view();
                let ghost item = function.deep_view();
                acc.push(function);
                assert(acc.deep_view() =~= before.push(item));
                cur = rest;
            },
        }
    }
}

/// Parses the methods of a class: after blank space, any number of functions,
/// and after them line endings.
pub fn parse_methods<'a>(input: Span<'a>) -> (r: Res<'a, Vec<Function<'a>>>)
    ensures
        outcome(r) == spec_methods(input@),
        outcome(r).shrinks(input@),
    decreases input@.len(), 7int,
{
    let acc: Vec<Function<'a>> = Vec::new();
    assert(acc.deep_view() =~= Seq::empty());
    let r: Res<'a, Vec<Function<'a>>> = match parse_functions(skip_blank(input), acc) {
        Err(e) => Err(e),
        Ok((rest, methods)) => match opt_line_ending(rest) {
            Ok((rest, _)) => Ok((rest, methods)),
            Err(e) => Err(e),
        },
    };
    in_context(r, input, Label::Methods)
}

/// Parses a class: after blank space, the name, the methods and `end`.
pub fn parse_class<'a>(input: Span<'a>) -> (r: Res<'a, Class<'a>>)
    ensures
        outcome(r) == spec_class(input@),
        outcome(r).shrinks(input@),
    decreases input@.len(), 8int,
{
    let r: Res<'a, Class<'a>> = match parse_class_name(skip_blank(input)) {
        Err(e) => Err(e),
        Ok((rest, name)) => {
            let inner: Res<'a, Class<'a>> = match parse_methods(rest) {
                Err(e) => Err(e),
                Ok((rest, methods)) => match parse_end(rest) {
                    Err(e) => Err(e),
                    Ok((rest, _)) => {
                        proof {
                            lemma_functions_view(methods);
                        }
                        Ok((rest, Class { name: name.fragment().to_owned(), methods }))
                    },
                },
            };
            committed(inner)
        },
    };
    in_context(r, input, Label::Class)
}

/// Parses a whole source text. The text is a block, and after the block
/// nothing but blank space may follow.
pub fn parse_source<'a>(input: Span<'a>) -> (r: Result<Block<'a>, ParseError<'a>>)
    ensures
        match r {
            Ok(block) => spec_source(input@) matches Outcome::Done { rest, value } && value
                == block.deep_view(),
            Err(e) => spec_source(input@) == (Outcome::<BlockV>::Failed { error: e.deep_view() }),
        },
{
    match parse_block(input) {
        Err(e) => Err(e.context(input, Label::Root)),
        Ok((rest, block)) => {
            let end = skip_blank(rest);
            if end.len() == 0 {
                Ok(block)
            } else {
                Err(ParseError::new(end, Label::Eof).context(input, Label::Root))
            }
        },
    }
}

} // verus!
