//! The parser of expressions: one function for each production of
//! [`crate::grammar::expression`], which yields what the production says.

use vstd::prelude::*;
use crate::ast::{
    lemma_entries_view, lemma_expressions_view, lemma_suffixes_view, BinaryOp, Call, Collection,
    Expression, ExprOrVarname, ExprSuffix, Literal, PrefixExpr, TableEntry, TableEntryV,
};
use crate::error::{committed, fail, in_context, outcome, recoverable, Label, Res};
use crate::grammar::expression::{
    flat_items, head_items, key_index, lemma_flat_items_alternate, spec_args, spec_array,
    spec_bin_op_chain, spec_binary, spec_call, spec_call_args, spec_chain_items, spec_collection,
    spec_dot_suffix, spec_entries, spec_entries_tail, spec_expression, spec_expression2,
    spec_expression_list, spec_expression_list_tail, spec_flatexp, spec_head, spec_index_suffix,
    spec_key_value, spec_map, spec_parenthesized, spec_prefixexpr, spec_prefixexpr2,
    spec_prefixexpr3, spec_suffixes, spec_unary_operators, table_of, Expression2, ExprHead,
};
use crate::lexical::skip_blank;
use crate::literals::{parse_literal, parse_str_raw, parse_variable};
use crate::precedence::{FlatExpr, OpOrExp, OpOrExpV};
use crate::span::Span;
use crate::tokens::{
    parse_binary_operator, parse_unary_operator, punct, Operator, UnOperator, UnOrBinOp,
};

verus! {

/// The flat list of a head: its unary operators, then its operand.
pub fn tuple_to_flat_vec<'a>(head: ExprHead<'a>) -> (v: Vec<OpOrExp<'a>>)
    ensures
        v.deep_view() == head_items(head.deep_view()),
{
    let ExprHead { un_ops, expr } = head;
    let mut v: Vec<OpOrExp<'a>> = Vec::new();
    let mut i: usize = 0;
    while i < un_ops.len()
        invariant
            i <= un_ops@.len(),
            v@.len() == i,
            forall|j: int| 0 <= j < i ==> v@[j] == OpOrExp::<'a>::Op(UnOrBinOp::UnOp(un_ops@[j])),
        decreases un_ops@.len() - i,
    {
        v.push(OpOrExp::Op(UnOrBinOp::UnOp(un_ops[i])));
        i += 1;
    }
    let operand = match expr {
        Expression2::Literal(l) => Expression::Literal(l),
        Expression2::PrefixExpr(p) => Expression::PrefixExpr(Box::new(p)),
        Expression2::Collection(c) => Expression::Collection(c),
    };
    v.push(OpOrExp::Exp(operand));
    assert(v.deep_view() =~= head_items(head.deep_view()));
    v
}

/// The flat expression of a head and the pairs of operator and head that
/// follow it.
pub fn flat_expr_from_components<'a>(
    head: ExprHead<'a>,
    binop_chain: Vec<(Operator, ExprHead<'a>)>,
) -> (flat: FlatExpr<'a>)
    ensures
        flat.deep_view() == flat_items(head.deep_view(), binop_chain.deep_view()),
{
    let ghost chain = binop_chain.deep_view();
    let ghost first = head.deep_view();
    let n = binop_chain.len();
    let mut pending = binop_chain;
    let mut backwards: Vec<(Operator, ExprHead<'a>)> = Vec::new();
    while pending.len() > 0
        invariant
            pending@.len() + backwards@.len() == n,
            n == chain.len(),
            forall|j: int|
                0 <= j < pending@.len() ==> (#[trigger] pending@[j]).deep_view() == chain[j],
            forall|j: int|
                0 <= j < backwards@.len() ==> (#[trigger] backwards@[j]).deep_view() == chain[n - 1
                    - j],
        decreases pending@.len(),
    {
        let last = pending.pop().unwrap();
        backwards.push(last);
    }
    let mut acc = tuple_to_flat_vec(head);
    let mut k: usize = 0;
    assert(chain.take(0) =~= Seq::empty());
    while backwards.len() > 0
        invariant
            k + backwards@.len() == n,
            n == chain.len(),
            forall|j: int|
                0 <= j < backwards@.len() ==> (#[trigger] backwards@[j]).deep_view() == chain[n - 1
                    - j],
            acc.deep_view() == flat_items(first, chain.take(k as int)),
        decreases backwards@.len(),
    {
        let (op, next) = backwards.pop().unwrap();
        let ghost before = acc.deep_view();
        let mut items = tuple_to_flat_vec(next);
        let ghost added = items.deep_view();
        acc.push(OpOrExp::Op(UnOrBinOp::BinOp(op)));
        acc.append(&mut items);
        proof {
            assert(chain.take(k + 1).drop_last() =~= chain.take(k as int));
            assert(chain.take(k + 1).last() == chain[k as int]);
            assert(acc.deep_view() =~= before.push(OpOrExpV::Op(UnOrBinOp::BinOp(op))) + added);
        }
        k += 1;
    }
    assert(chain.take(k as int) =~= chain);
    proof {
        lemma_flat_items_alternate(first, chain);
    }
    FlatExpr::new(acc)
}

/// Parses an expression.
pub fn parse_expression<'a>(input: Span<'a>) -> (r: Res<'a, Expression<'a>>)
    ensures
        outcome(r) == spec_expression(input@),
        outcome(r).shrinks(input@),
    decreases input@.len(), 9int,
{
    match parse_flatexp(input) {
        Err(e) => Err(e),
        Ok((rest, flat)) => Ok((rest, Expression::from(flat))),
    }
}

/// Parses a flat expression: a head, then the chain of operators and heads.
pub fn parse_flatexp<'a>(input: Span<'a>) -> (r: Res<'a, FlatExpr<'a>>)
    ensures
        outcome(r) == spec_flatexp(input@),
        outcome(r).shrinks(input@),
    decreases input@.len(), 8int,
{
    let r: Res<'a, FlatExpr<'a>> = match parse_head(input) {
        Err(e) => Err(e),
        Ok((rest, head)) => match parse_bin_op_chain(rest) {
            Err(e) => Err(e),
            Ok((rest, chain)) => Ok((rest, flat_expr_from_components(head, chain))),
        },
    };
    in_context(r, input, Label::FlatExpr)
}

/// Parses any number of pairs of a binary operator and a head, and gathers
/// them after `first`.
pub fn parse_chain_items<'a>(input: Span<'a>, first: Vec<(Operator, ExprHead<'a>)>) -> (r: Res<
    'a,
    Vec<(Operator, ExprHead<'a>)>,
>)
    ensures
        outcome(r) == spec_chain_items(input@, first.deep_view()),
        outcome(r).shrinks(input@),
    decreases input@.len(), 6int,
{
    let mut cur = input;
    let mut acc = first;
    loop
        invariant
            cur@.len() <= input@.len(),
            spec_chain_items(cur@, acc.deep_view()) == spec_chain_items(input@, first.deep_view()),
        decreases cur@.len(),
    {
        match parse_binary_operator(cur) {
            Err(_) => {
                return Ok((cur, acc));
            },
            Ok((after_op, op)) => {
                match parse_head(skip_blank(after_op)) {
                    Err(e) => {
                        if e.fatal {
                            return Err(e);
                        }
                        return Ok((cur, acc));
                    },
                    Ok((rest, head)) => {
                        if rest.len() >= cur.len() {
                            return fail(cur, Label::OpChain);
                        }
                        let ghost before = acc.deep_view();
                        let ghost item = (op, head.deep_view());
                        acc.push((op, head));
                        assert(acc.deep_view() =~= before.push(item));
                        cur = rest;
                    },
                }
            },
        }
    }
}

/// Parses the chain of a flat expression: after blank space, any number of
/// pairs of a binary operator and a head.
pub fn parse_bin_op_chain<'a>(input: Span<'a>) -> (r: Res<'a, Vec<(Operator, ExprHead<'a>)>>)
    ensures
        outcome(r) == spec_bin_op_chain(input@),
        outcome(r).shrinks(input@),
    decreases input@.len(), 7int,
{
    let acc: Vec<(Operator, ExprHead<'a>)> = Vec::new();
    assert(acc.deep_view() =~= Seq::empty());
    in_context(parse_chain_items(skip_blank(input), acc), input, Label::OpChain)
}

/// Parses any number of unary operators, and gathers them after `first`.
pub fn parse_unary_operators<'a>(input: Span<'a>, first: Vec<UnOperator>) -> (r: Res<
    'a,
    Vec<UnOperator>,
>)
    ensures
        outcome(r) == spec_unary_operators(input@, first@),
        outcome(r).shrinks(input@),
{
    let mut cur = input;
    let mut acc = first;
    loop
        invariant
            cur@.len() <= input@.len(),
            spec_unary_operators(cur@, acc@) == spec_unary_operators(input@, first@),
        decreases cur@.len(),
    {
        match parse_unary_operator(cur) {
            Err(_) => {
                assert(acc.deep_view() =~= acc@);
                return Ok((cur, acc));
            },
            Ok((rest, op)) => {
                if rest.len() >= cur.len() {
                    return fail(cur, Label::UnaryOperator);
                }
                acc.push(op);
                cur = rest;
            },
        }
    }
}

/// Parses a head: after blank space, any number of unary operators and a
/// primary expression.
pub fn parse_head<'a>(input: Span<'a>) -> (r: Res<'a, ExprHead<'a>>)
    ensures
        outcome(r) == spec_head(input@),
        outcome(r).shrinks(input@),
    decreases input@.len(), 5int,
{
    let r: Res<'a, ExprHead<'a>> = match parse_unary_operators(skip_blank(input), Vec::new()) {
        Err(e) => Err(e),
        Ok((rest, un_ops)) => {
            assert(un_ops.deep_view() =~= un_ops@);
            match parse_expression2(skip_blank(rest)) {
                Err(e) => Err(e),
                Ok((rest, expr)) => Ok((rest, ExprHead { un_ops, expr })),
            }
        },
    };
    in_context(r, input, Label::NestedExpression)
}

/// Parses a primary expression, after blank space: a prefix expression, a
/// literal or a collection.
pub fn parse_expression2<'a>(input: Span<'a>) -> (r: Res<'a, Expression2<'a>>)
    ensures
        outcome(r) == spec_expression2(input@),
        outcome(r).shrinks(input@),
    decreases input@.len(), 4int,
{
    let at = skip_blank(input);
    let r: Res<'a, Expression2<'a>> = match prefixexpr(at) {
        Ok((rest, p)) => Ok((rest, Expression2::PrefixExpr(p))),
        Err(e) => if e.fatal {
            Err(e)
        } else {
            match parse_literal(at) {
                Ok((rest, l)) => Ok((rest, Expression2::Literal(l))),
                Err(e) => if e.fatal {
                    Err(e)
                } else {
                    match parse_collection(at) {
                        Ok((rest, c)) => Ok((rest, Expression2::Collection(c))),
                        Err(e) => Err(e),
                    }
                },
            }
        },
    };
    in_context(r, input, Label::Expression2)
}

/// Parses any number of suffixes, and gathers them after `first`.
pub fn parse_suffixes<'a>(input: Span<'a>, first: Vec<ExprSuffix<'a>>) -> (r: Res<
    'a,
    Vec<ExprSuffix<'a>>,
>)
    ensures
        outcome(r) == spec_suffixes(input@, first.deep_view()),
        outcome(r).shrinks(input@),
    decreases input@.len(), 2int,
{
    let mut cur = input;
    let mut acc = first;
    loop
        invariant
            cur@.len() <= input@.len(),
            spec_suffixes(cur@, acc.deep_view()) == spec_suffixes(input@, first.deep_view()),
        decreases cur@.len(),
    {
        match prefixexpr3(cur) {
            Err(e) => {
                if e.fatal {
                    return Err(e);
                }
                return Ok((cur, acc));
            },
            Ok((rest, suffix)) => {
                if rest.len() >= cur.len() {
                    return fail(cur, Label::PrefixExpr);
                }
                let ghost before = acc.deep_view();
                let ghost item = suffix.deep_view();
                acc.push(suffix);
                assert(acc.deep_view() =~= before.push(item));
                cur = rest;
            },
        }
    }
}

/// Parses a prefix expression, after blank space: a primary operand and its
/// suffixes.
pub fn prefixexpr<'a>(input: Span<'a>) -> (r: Res<'a, PrefixExpr<'a>>)
    ensures
        outcome(r) == spec_prefixexpr(input@),
        outcome(r).shrinks(input@),
    decreases input@.len(), 3int,
{
    let r: Res<'a, PrefixExpr<'a>> = match prefixexpr2(skip_blank(input)) {
        Err(e) => Err(e),
        Ok((rest, prefix)) => {
            let acc: Vec<ExprSuffix<'a>> = Vec::new();
            assert(acc.deep_view() =~= Seq::empty());
            match parse_suffixes(rest, acc) {
                Err(e) => Err(e),
                Ok((rest, suffix_chain)) => {
                    proof {
                        lemma_suffixes_view(suffix_chain);
                    }
                    Ok((rest, PrefixExpr { prefix, suffix_chain }))
                },
            }
        },
    };
    in_context(r, input, Label::PrefixExpr)
}

fn parse_parenthesized<'a>(input: Span<'a>) -> (r: Res<'a, Expression<'a>>)
    ensures
        outcome(r) == spec_parenthesized(input@),
        outcome(r).shrinks(input@),
    decreases input@.len(), 0int,
{
    match punct(input, '(' as u8, Label::LeftParen) {
        Err(e) => Err(e),
        Ok((rest, _)) => match parse_expression(rest) {
            Err(e) => Err(e),
            Ok((rest, e)) => match punct(rest, ')' as u8, Label::RightParen) {
                Err(e) => Err(e),
                Ok((rest, _)) => Ok((rest, e)),
            },
        },
    }
}

/// Parses the primary operand of a prefix expression, after blank space: an
/// expression in parentheses or a variable.
pub fn prefixexpr2<'a>(input: Span<'a>) -> (r: Res<'a, ExprOrVarname<'a>>)
    ensures
        outcome(r) == spec_prefixexpr2(input@),
        outcome(r).shrinks(input@),
    decreases input@.len(), 1int,
{
    let at = skip_blank(input);
    match parse_parenthesized(at) {
        Ok((rest, e)) => Ok((rest, ExprOrVarname::Exp(e))),
        Err(e) => if e.fatal {
            Err(e)
        } else {
            match parse_variable(at) {
                Ok((rest, v)) => Ok((rest, ExprOrVarname::Varname(Literal::Variable(v)))),
                Err(e) => Err(e),
            }
        },
    }
}

fn parse_dot_suffix<'a>(input: Span<'a>) -> (r: Res<'a, ExprSuffix<'a>>)
    ensures
        outcome(r) == spec_dot_suffix(input@),
        outcome(r).shrinks(input@),
{
    match punct(input, '.' as u8, Label::Dot) {
        Err(e) => Err(e),
        Ok((rest, _)) => match parse_variable(rest) {
            Err(e) => Err(e),
            Ok((rest, v)) => Ok((rest, ExprSuffix::TableDot(Literal::Variable(v)))),
        },
    }
}

fn parse_index_suffix<'a>(input: Span<'a>) -> (r: Res<'a, ExprSuffix<'a>>)
    ensures
        outcome(r) == spec_index_suffix(input@),
        outcome(r).shrinks(input@),
    decreases input@.len(), 0int,
{
    match punct(input, '[' as u8, Label::LeftBracket) {
        Err(e) => Err(e),
        Ok((rest, _)) => match parse_expression(rest) {
            Err(e) => Err(e),
            Ok((rest, e)) => match punct(rest, ']' as u8, Label::RightBracket) {
                Err(e) => Err(e),
                Ok((rest, _)) => Ok((rest, ExprSuffix::TableIdx(e))),
            },
        },
    }
}

fn parse_call_args<'a>(input: Span<'a>) -> (r: Res<'a, Vec<Expression<'a>>>)
    ensures
        outcome(r) == spec_call_args(input@),
        outcome(r).shrinks(input@),
    decreases input@.len(), 0int,
{
    match punct(skip_blank(input), '(' as u8, Label::LeftParen) {
        Err(e) => Err(e),
        Ok((rest, _)) => match args(skip_blank(rest)) {
            Err(e) => Err(e),
            Ok((rest, list)) => match punct(skip_blank(rest), ')' as u8, Label::RightParen) {
                Err(e) => Err(e),
                Ok((rest, _)) => Ok((rest, list)),
            },
        },
    }
}

/// Parses a suffix, after blank space: `.name`, `[index]` or `(arguments)`.
pub fn prefixexpr3<'a>(input: Span<'a>) -> (r: Res<'a, ExprSuffix<'a>>)
    ensures
        outcome(r) == spec_prefixexpr3(input@),
        outcome(r).shrinks(input@),
    decreases input@.len(), 1int,
{
    let at = skip_blank(input);
    let r = parse_dot_suffix(at);
    if !recoverable(&r) {
        return r;
    }
    let r = parse_index_suffix(at);
    if !recoverable(&r) {
        return r;
    }
    let r: Res<'a, ExprSuffix<'a>> = match parse_call_args(at) {
        Err(e) => Err(e),
        Ok((rest, list)) => {
            proof {
                lemma_expressions_view(list);
            }
            Ok((rest, ExprSuffix::FuncCall(Call { callee: None, args: list })))
        },
    };
    in_context(r, at, Label::Call)
}

/// Parses a call: the name of the callee, which may be left out, and the
/// arguments in parentheses.
pub fn parse_call<'a>(input: Span<'a>) -> (r: Res<'a, Call<'a>>)
    ensures
        outcome(r) == spec_call(input@),
        outcome(r).shrinks(input@),
{
    let r: Res<'a, Call<'a>> = match parse_variable(skip_blank(input)) {
        Ok((rest, name)) => match parse_call_args(rest) {
            Err(e) => Err(e),
            Ok((rest, list)) => {
                proof {
                    lemma_expressions_view(list);
                }
                Ok((rest, Call { callee: Some(name), args: list }))
            },
        },
        Err(_) => match parse_call_args(input) {
            Err(e) => Err(e),
            Ok((rest, list)) => {
                proof {
                    lemma_expressions_view(list);
                }
                Ok((rest, Call { callee: None, args: list }))
            },
        },
    };
    in_context(r, input, Label::Call)
}

/// Parses a binary operator between two expressions, each after blank space.
pub fn parse_binary<'a>(input: Span<'a>) -> (r: Res<'a, BinaryOp<'a>>)
    ensures
        outcome(r) == spec_binary(input@),
        outcome(r).shrinks(input@),
{
    let r: Res<'a, BinaryOp<'a>> = match parse_expression(skip_blank(input)) {
        Err(e) => Err(e),
        Ok((rest, left)) => match parse_binary_operator(skip_blank(rest)) {
            Err(e) => Err(e),
            Ok((rest, op)) => match parse_expression(skip_blank(rest)) {
                Err(e) => Err(e),
                Ok((rest, right)) => Ok((rest, BinaryOp { left, right, op })),
            },
        },
    };
    in_context(r, input, Label::Binary)
}

/// Parses the rest of a list of expressions: any number of pairs of a comma
/// and an expression, gathered after `first`.
pub fn parse_expression_list_tail<'a>(input: Span<'a>, first: Vec<Expression<'a>>) -> (r: Res<
    'a,
    Vec<Expression<'a>>,
>)
    ensures
        outcome(r) == spec_expression_list_tail(input@, first.deep_view()),
        outcome(r).shrinks(input@),
    decreases input@.len(), 10int,
{
    let mut cur = input;
    let mut acc = first;
    loop
        invariant
            cur@.len() <= input@.len(),
            spec_expression_list_tail(cur@, acc.deep_view()) == spec_expression_list_tail(
                input@,
                first.deep_view(),
            ),
        decreases cur@.len(),
    {
        match punct(skip_blank(cur), ',' as u8, Label::Comma) {
            Err(_) => {
                return Ok((cur, acc));
            },
            Ok((after_comma, _)) => match parse_expression(after_comma) {
                Err(e) => {
                    if e.fatal {
                        return Err(e);
                    }
                    return Ok((cur, acc));
                },
                Ok((rest, item)) => {
                    let ghost before = acc.deep_view();
                    let ghost item_view = item.deep_view();
                    acc.push(item);
                    assert(acc.deep_view() =~= before.push(item_view));
                    cur = rest;
                },
            },
        }
    }
}

/// Parses a list of expressions with commas between them; it may be empty.
pub fn parse_expression_list<'a>(input: Span<'a>) -> (r: Res<'a, Vec<Expression<'a>>>)
    ensures
        outcome(r) == spec_expression_list(input@),
        outcome(r).shrinks(input@),
    decreases input@.len(), 11int,
{
    match parse_expression(input) {
        Err(e) => if e.fatal {
            Err(e)
        } else {
            let acc: Vec<Expression<'a>> = Vec::new();
            assert(acc.deep_view() =~= Seq::empty());
            Ok((input, acc))
        },
        Ok((rest, first)) => {
            let mut acc: Vec<Expression<'a>> = Vec::new();
            let ghost first_view = first.deep_view();
            acc.push(first);
            assert(acc.deep_view() =~= seq![first_view]);
            parse_expression_list_tail(rest, acc)
        },
    }
}

/// Parses the arguments of a call: a list of expressions.
pub fn args<'a>(input: Span<'a>) -> (r: Res<'a, Vec<Expression<'a>>>)
    ensures
        outcome(r) == spec_args(input@),
        outcome(r).shrinks(input@),
    decreases input@.len(), 12int,
{
    in_context(parse_expression_list(input), input, Label::Args)
}

/// Parses an array: `[`, a list of expressions, `]`.
pub fn parse_array<'a>(input: Span<'a>) -> (r: Res<'a, Collection<'a>>)
    ensures
        outcome(r) == spec_array(input@),
        outcome(r).shrinks(input@),
    decreases input@.len(), 0int,
{
    match punct(input, '[' as u8, Label::LeftBracket) {
        Err(e) => in_context(Err(e), input, Label::Array),
        Ok((rest, _)) => {
            let inner: Res<'a, Collection<'a>> = match parse_expression_list(rest) {
                Err(e) => Err(e),
                Ok((rest, items)) => match punct(
                    skip_blank(rest),
                    ']' as u8,
                    Label::RightBracket,
                ) {
                    Err(e) => Err(e),
                    Ok((rest, _)) => {
                        proof {
                            lemma_expressions_view(items);
                        }
                        Ok((rest, Collection::Array(items)))
                    },
                },
            };
            in_context(committed(inner), input, Label::Array)
        },
    }
}

/// Parses an entry of a table: a string literal, a colon and an expression.
pub fn parse_key_value<'a>(input: Span<'a>) -> (r: Res<'a, (Span<'a>, Expression<'a>)>)
    ensures
        outcome(r) == spec_key_value(input@),
        outcome(r).shrinks(input@),
    decreases input@.len(), 0int,
{
    match parse_str_raw(skip_blank(input)) {
        Err(e) => Err(e),
        Ok((rest, key)) => match punct(skip_blank(rest), ':' as u8, Label::Colon) {
            Err(e) => Err(e.cut()),
            Ok((rest, _)) => match parse_expression(rest) {
                Err(e) => Err(e),
                Ok((rest, value)) => Ok((rest, (key, value))),
            },
        },
    }
}

fn parse_entries_tail<'a>(input: Span<'a>, first: Vec<(Span<'a>, Expression<'a>)>) -> (r: Res<
    'a,
    Vec<(Span<'a>, Expression<'a>)>,
>)
    ensures
        outcome(r) == spec_entries_tail(input@, first.deep_view()),
        outcome(r).shrinks(input@),
    decreases input@.len(), 1int,
{
    let mut cur = input;
    let mut acc = first;
    loop
        invariant
            cur@.len() <= input@.len(),
            spec_entries_tail(cur@, acc.deep_view()) == spec_entries_tail(
                input@,
                first.deep_view(),
            ),
        decreases cur@.len(),
    {
        match punct(skip_blank(cur), ',' as u8, Label::Comma) {
            Err(_) => {
                return Ok((cur, acc));
            },
            Ok((after_comma, _)) => match parse_key_value(after_comma) {
                Err(e) => {
                    if e.fatal {
                        return Err(e);
                    }
                    return Ok((cur, acc));
                },
                Ok((rest, item)) => {
                    let ghost before = acc.deep_view();
                    let ghost item_view = item.deep_view();
                    acc.push(item);
                    assert(acc.deep_view() =~= before.push(item_view));
                    cur = rest;
                },
            },
        }
    }
}

fn parse_entries<'a>(input: Span<'a>) -> (r: Res<'a, Vec<(Span<'a>, Expression<'a>)>>)
    ensures
        outcome(r) == spec_entries(input@),
        outcome(r).shrinks(input@),
    decreases input@.len(), 2int,
{
    match parse_key_value(input) {
        Err(e) => if e.fatal {
            Err(e)
        } else {
            let acc: Vec<(Span<'a>, Expression<'a>)> = Vec::new();
            assert(acc.deep_view() =~= Seq::empty());
            Ok((input, acc))
        },
        Ok((rest, first)) => {
            let mut acc: Vec<(Span<'a>, Expression<'a>)> = Vec::new();
            let ghost first_view = first.deep_view();
            acc.push(first);
            assert(acc.deep_view() =~= seq![first_view]);
            parse_entries_tail(rest, acc)
        },
    }
}

fn find_key<'a>(entries: &Vec<TableEntry<'a>>, key: &String) -> (i: usize)
    ensures
        i == key_index(entries.deep_view(), key@),
        i <= entries@.len(),
{
    let mut i: usize = 0;
    let ghost view = entries.deep_view();
    assert(view.take(0) =~= Seq::empty());
    while i < entries.len()
        invariant
            i <= entries@.len(),
            view == entries.deep_view(),
            key_index(view.take(i as int), key@) == i,
        decreases entries@.len() - i,
    {
        assert(view.take(i + 1).drop_last() =~= view.take(i as int));
        if entries[i].key == *key {
            proof {
                lemma_key_index_found(view, key@, i as int);
            }
            return i;
        }
        i += 1;
    }
    assert(view.take(i as int) =~= view);
    i
}

/// The index of a key in a beginning of a table is its index in the table.
pub proof fn lemma_key_index_found(entries: Seq<TableEntryV>, key: Seq<char>, i: int)
    requires
        0 <= i < entries.len(),
        key_index(entries.take(i + 1), key) == i,
    ensures
        key_index(entries, key) == i,
    decreases entries.len(),
{
    if entries.len() > i + 1 {
        assert(entries.drop_last().take(i + 1) =~= entries.take(i + 1));
        lemma_key_index_found(entries.drop_last(), key, i);
    } else {
        assert(entries.take(i + 1) =~= entries);
    }
}

fn table_from_pairs<'a>(pairs: Vec<(Span<'a>, Expression<'a>)>) -> (table: Vec<TableEntry<'a>>)
    ensures
        table.deep_view() == table_of(pairs.deep_view()),
{
    let ghost all = pairs.deep_view();
    let n = pairs.len();
    let mut pending = pairs;
    let mut backwards: Vec<(Span<'a>, Expression<'a>)> = Vec::new();
    while pending.len() > 0
        invariant
            pending@.len() + backwards@.len() == n,
            n == all.len(),
            forall|j: int|
                0 <= j < pending@.len() ==> (#[trigger] pending@[j]).deep_view() == all[j],
            forall|j: int|
                0 <= j < backwards@.len() ==> (#[trigger] backwards@[j]).deep_view() == all[n - 1
                    - j],
        decreases pending@.len(),
    {
        let last = pending.pop().unwrap();
        backwards.push(last);
    }
    let mut table: Vec<TableEntry<'a>> = Vec::new();
    let mut k: usize = 0;
    assert(all.take(0) =~= Seq::empty());
    assert(table.deep_view() =~= Seq::empty());
    while backwards.len() > 0
        invariant
            k + backwards@.len() == n,
            n == all.len(),
            forall|j: int|
                0 <= j < backwards@.len() ==> (#[trigger] backwards@[j]).deep_view() == all[n - 1
                    - j],
            table.deep_view() == table_of(all.take(k as int)),
        decreases backwards@.len(),
    {
        let (key_span, value) = backwards.pop().unwrap();
        let key = key_span.fragment().to_owned();
        let ghost before = table.deep_view();
        let ghost entry = TableEntryV { key: key@, value: value.deep_view() };
        let i = find_key(&table, &key);
        if i < table.len() {
            table[i] = TableEntry { key, value };
            assert(table.deep_view() =~= before.update(i as int, entry));
        } else {
            table.push(TableEntry { key, value });
            assert(table.deep_view() =~= before.push(entry));
        }
        proof {
            assert(all.take(k + 1).drop_last() =~= all.take(k as int));
            assert(all.take(k + 1).last() == all[k as int]);
        }
        k += 1;
    }
    assert(all.take(k as int) =~= all);
    table
}

/// Parses a table: `{`, a list of entries, `}`.
pub fn parse_map<'a>(input: Span<'a>) -> (r: Res<'a, Collection<'a>>)
    ensures
        outcome(r) == spec_map(input@),
        outcome(r).shrinks(input@),
    decreases input@.len(), 0int,
{
    match punct(input, '{' as u8, Label::LeftBrace) {
        Err(e) => in_context(Err(e), input, Label::Table),
        Ok((rest, _)) => {
            let inner: Res<'a, Collection<'a>> = match parse_entries(rest) {
                Err(e) => Err(e),
                Ok((rest, pairs)) => match punct(skip_blank(rest), '}' as u8, Label::RightBrace) {
                    Err(e) => Err(e),
                    Ok((rest, _)) => {
                        let table = table_from_pairs(pairs);
                        proof {
                            lemma_entries_view(table);
                        }
                        Ok((rest, Collection::Table(table)))
                    },
                },
            };
            in_context(committed(inner), input, Label::Table)
        },
    }
}

/// Parses a collection, after blank space: an array or a table.
pub fn parse_collection<'a>(input: Span<'a>) -> (r: Res<'a, Collection<'a>>)
    ensures
        outcome(r) == spec_collection(input@),
        outcome(r).shrinks(input@),
    decreases input@.len(), 1int,
{
    let at = skip_blank(input);
    let r = parse_array(at);
    if !recoverable(&r) {
        return in_context(r, input, Label::Collection);
    }
    in_context(parse_map(at), input, Label::Collection)
}

} // verus!
