//! The grammar of expressions.
//!
//! An expression is read in two steps. The first reads a flat list: a head,
//! which is any number of unary operators and one primary expression, and after
//! it any number of pairs of a binary operator and a head. The second step,
//! [`crate::precedence`], makes a tree of the list. A primary expression is a
//! prefix expression, a literal or a collection. A prefix expression is a
//! variable or an expression in parentheses, followed by any number of
//! suffixes: `.name`, `[index]` or `(arguments)`.
//!
//! Each production is a function from the input to an [`Outcome`]. The
//! productions call one another; they are well founded because each call is
//! made on less input, or on the same input by a production that stands lower
//! in the order given by the second number of its `decreases` clause.

use vstd::prelude::*;
use crate::ast::{
    BinaryOpV, CallV, Collection, CollectionV, ExpressionV, ExprOrVarnameV, ExprSuffixV, Literal,
    LiteralV, PrefixExpr, PrefixExprV, TableEntryV, TokenV,
};
use crate::error::{Label, Outcome};
use crate::lexical::spec_sp;
use crate::literals::{spec_literal, spec_str_raw, spec_variable};
use crate::precedence::{alternates, spec_resolve, OpOrExpV};
use crate::span::SpanV;
use crate::tokens::{
    spec_binary_operator, spec_byte, spec_unary_operator, Operator, UnOperator, UnOrBinOp,
};

verus! {

/// A primary expression, as the first step reads it.
#[derive(Debug, PartialEq)]
pub enum Expression2<'a> {
    Literal(Literal<'a>),
    PrefixExpr(PrefixExpr<'a>),
    Collection(Collection<'a>),
}

/// Mathematical model of an [`Expression2`].
pub enum Expression2V {
    Literal(LiteralV),
    PrefixExpr(PrefixExprV),
    Collection(CollectionV),
}

impl<'a> DeepView for Expression2<'a> {
    type V = Expression2V;

    open spec fn deep_view(&self) -> Expression2V {
        match self {
            Expression2::Literal(l) => Expression2V::Literal(l.deep_view()),
            Expression2::PrefixExpr(p) => Expression2V::PrefixExpr(p.deep_view()),
            Expression2::Collection(c) => Expression2V::Collection(c.deep_view()),
        }
    }
}

impl Expression2V {
    /// The expression that a primary expression is.
    pub open spec fn expression(self) -> ExpressionV {
        match self {
            Expression2V::Literal(l) => ExpressionV::Literal(l),
            Expression2V::PrefixExpr(p) => ExpressionV::PrefixExpr(Box::new(p)),
            Expression2V::Collection(c) => ExpressionV::Collection(c),
        }
    }
}

/// A head: unary operators and the primary expression that they stand before.
#[derive(Debug, PartialEq)]
pub struct ExprHead<'a> {
    pub un_ops: Vec<UnOperator>,
    pub expr: Expression2<'a>,
}

/// Mathematical model of an [`ExprHead`].
pub struct ExprHeadV {
    pub un_ops: Seq<UnOperator>,
    pub expr: Expression2V,
}

impl<'a> DeepView for ExprHead<'a> {
    type V = ExprHeadV;

    open spec fn deep_view(&self) -> ExprHeadV {
        ExprHeadV { un_ops: self.un_ops@, expr: self.expr.deep_view() }
    }
}

/// The flat list of a head: its unary operators, then its operand.
pub open spec fn head_items(head: ExprHeadV) -> Seq<OpOrExpV> {
    Seq::new(head.un_ops.len(), |i: int| OpOrExpV::Op(UnOrBinOp::UnOp(head.un_ops[i]))).push(
        OpOrExpV::Exp(head.expr.expression()),
    )
}

/// The flat list of a head and the pairs of operator and head that follow it.
pub open spec fn flat_items(head: ExprHeadV, chain: Seq<(Operator, ExprHeadV)>) -> Seq<OpOrExpV>
    decreases chain.len(),
{
    if chain.len() == 0 {
        head_items(head)
    } else {
        flat_items(head, chain.drop_last()).push(OpOrExpV::Op(UnOrBinOp::BinOp(chain.last().0)))
            + head_items(chain.last().1)
    }
}

/// The table that `entries` is after the entry of `key` and `value`: the value
/// of the key is replaced where the table has the key, and the entry is added
/// at the end where it has not.
pub open spec fn table_insert(entries: Seq<TableEntryV>, key: Seq<char>, value: ExpressionV) -> Seq<
    TableEntryV,
> {
    let i = key_index(entries, key);
    if i < entries.len() {
        entries.update(i, TableEntryV { key, value })
    } else {
        entries.push(TableEntryV { key, value })
    }
}

/// The least index at which `entries` has `key`, the length of `entries` where
/// it has not.
pub open spec fn key_index(entries: Seq<TableEntryV>, key: Seq<char>) -> int
    decreases entries.len(),
{
    if entries.len() == 0 {
        0
    } else {
        let i = key_index(entries.drop_last(), key);
        if i < entries.len() - 1 {
            i
        } else if entries.last().key == key {
            entries.len() - 1
        } else {
            entries.len() as int
        }
    }
}

/// The table of a list of pairs of key and value, entered one after the other.
pub open spec fn table_of(pairs: Seq<(SpanV, ExpressionV)>) -> Seq<TableEntryV>
    decreases pairs.len(),
{
    if pairs.len() == 0 {
        Seq::empty()
    } else {
        table_insert(table_of(pairs.drop_last()), pairs.last().0.text(), pairs.last().1)
    }
}

/// Any number of unary operators, gathered after `acc`.
pub open spec fn spec_unary_operators(input: SpanV, acc: Seq<UnOperator>) -> Outcome<
    Seq<UnOperator>,
>
    decreases input.len(),
{
    match spec_unary_operator(input) {
        Outcome::Failed { error } => Outcome::Done { rest: input, value: acc },
        Outcome::Done { rest, value } => if rest.len() < input.len() {
            spec_unary_operators(rest, acc.push(value))
        } else {
            Outcome::fail(input, Label::UnaryOperator)
        },
    }
}

/// An expression: a flat expression, made into a tree.
pub open spec fn spec_expression(input: SpanV) -> Outcome<ExpressionV>
    decreases input.len(), 9int,
{
    match spec_flatexp(input) {
        Outcome::Failed { error } => Outcome::Failed { error },
        Outcome::Done { rest, value } => match spec_resolve(value) {
            Some(e) => Outcome::Done { rest, value: e },
            None => Outcome::<ExpressionV>::fail(input, Label::FlatExpr).cut(),
        },
    }
}

/// A flat expression: a head, then the chain of operators and heads.
pub open spec fn spec_flatexp(input: SpanV) -> Outcome<Seq<OpOrExpV>>
    decreases input.len(), 8int,
{
    match spec_head(input).within(input) {
        Outcome::Failed { error } => Outcome::<Seq<OpOrExpV>>::Failed { error },
        Outcome::Done { rest, value: head } => match spec_bin_op_chain(rest) {
            Outcome::Failed { error } => Outcome::Failed { error },
            Outcome::Done { rest, value: chain } => Outcome::Done {
                rest,
                value: flat_items(head, chain),
            },
        },
    }.context(input, Label::FlatExpr)
}

/// The chain of a flat expression: after blank space, any number of pairs of
/// a binary operator and a head.
pub open spec fn spec_bin_op_chain(input: SpanV) -> Outcome<Seq<(Operator, ExprHeadV)>>
    decreases input.len(), 7int,
{
    spec_chain_items(spec_sp(input), Seq::empty()).context(input, Label::OpChain)
}

/// Any number of pairs of a binary operator and a head, gathered after `acc`.
/// The chain ends before the first operator that no head follows.
pub open spec fn spec_chain_items(input: SpanV, acc: Seq<(Operator, ExprHeadV)>) -> Outcome<
    Seq<(Operator, ExprHeadV)>,
>
    decreases input.len(), 6int,
{
    match spec_binary_operator(input).within(input) {
        Outcome::Failed { error } => Outcome::Done { rest: input, value: acc },
        Outcome::Done { rest: after_op, value: op } => match spec_head(spec_sp(after_op)).within(
            input,
        ) {
            Outcome::Failed { error } => if error.fatal {
                Outcome::Failed { error }
            } else {
                Outcome::Done { rest: input, value: acc }
            },
            Outcome::Done { rest, value: head } => if rest.len() < input.len() {
                spec_chain_items(rest, acc.push((op, head)))
            } else {
                Outcome::fail(input, Label::OpChain)
            },
        },
    }
}

/// A head: after blank space, any number of unary operators and a primary
/// expression.
pub open spec fn spec_head(input: SpanV) -> Outcome<ExprHeadV>
    decreases input.len(), 5int,
{
    match spec_unary_operators(spec_sp(input), Seq::empty()).within(input) {
        Outcome::Failed { error } => Outcome::<ExprHeadV>::Failed { error },
        Outcome::Done { rest, value: un_ops } => match spec_expression2(spec_sp(rest)) {
            Outcome::Failed { error } => Outcome::Failed { error },
            Outcome::Done { rest, value: expr } => Outcome::Done {
                rest,
                value: ExprHeadV { un_ops, expr },
            },
        },
    }.context(input, Label::NestedExpression)
}

/// A primary expression, after blank space: a prefix expression, a literal or
/// a collection, tried in this order.
pub open spec fn spec_expression2(input: SpanV) -> Outcome<Expression2V>
    decreases input.len(), 4int,
{
    let at = spec_sp(input);
    spec_prefixexpr(at).map(|p: PrefixExprV| Expression2V::PrefixExpr(p)).or(
        spec_literal(at).map(|l: LiteralV| Expression2V::Literal(l)),
    ).or(spec_collection(at).map(|c: CollectionV| Expression2V::Collection(c))).context(
        input,
        Label::Expression2,
    )
}

/// A prefix expression, after blank space: a primary operand and its
/// suffixes.
pub open spec fn spec_prefixexpr(input: SpanV) -> Outcome<PrefixExprV>
    decreases input.len(), 3int,
{
    match spec_prefixexpr2(spec_sp(input)).within(input) {
        Outcome::Failed { error } => Outcome::<PrefixExprV>::Failed { error },
        Outcome::Done { rest, value: prefix } => match spec_suffixes(rest, Seq::empty()) {
            Outcome::Failed { error } => Outcome::Failed { error },
            Outcome::Done { rest, value: suffix_chain } => Outcome::Done {
                rest,
                value: PrefixExprV { prefix, suffix_chain },
            },
        },
    }.context(input, Label::PrefixExpr)
}

/// Any number of suffixes, gathered after `acc`.
pub open spec fn spec_suffixes(input: SpanV, acc: Seq<ExprSuffixV>) -> Outcome<Seq<ExprSuffixV>>
    decreases input.len(), 2int,
{
    match spec_prefixexpr3(input) {
        Outcome::Failed { error } => if error.fatal {
            Outcome::Failed { error }
        } else {
            Outcome::Done { rest: input, value: acc }
        },
        Outcome::Done { rest, value } => if rest.len() < input.len() {
            spec_suffixes(rest, acc.push(value))
        } else {
            Outcome::fail(input, Label::PrefixExpr)
        },
    }
}

/// An expression in parentheses.
pub open spec fn spec_parenthesized(input: SpanV) -> Outcome<ExpressionV>
    decreases input.len(), 0int,
{
    match spec_byte(input, '(' as u8, Label::LeftParen) {
        Outcome::Failed { error } => Outcome::Failed { error },
        Outcome::Done { rest, value } => match spec_expression(rest) {
            Outcome::Failed { error } => Outcome::Failed { error },
            Outcome::Done { rest, value: e } => match spec_byte(
                rest,
                ')' as u8,
                Label::RightParen,
            ) {
                Outcome::Failed { error } => Outcome::Failed { error },
                Outcome::Done { rest, value } => Outcome::Done { rest, value: e },
            },
        },
    }
}

/// The primary operand of a prefix expression, after blank space: an
/// expression in parentheses or a variable.
pub open spec fn spec_prefixexpr2(input: SpanV) -> Outcome<ExprOrVarnameV>
    decreases input.len(), 1int,
{
    let at = spec_sp(input);
    spec_parenthesized(at).map(|e: ExpressionV| ExprOrVarnameV::Exp(e)).or(
        spec_variable(at).map(
            |v: TokenV<Seq<char>>| ExprOrVarnameV::Varname(LiteralV::Variable(v)),
        ),
    )
}

/// The suffix `.name`.
pub open spec fn spec_dot_suffix(input: SpanV) -> Outcome<ExprSuffixV> {
    match spec_byte(input, '.' as u8, Label::Dot) {
        Outcome::Failed { error } => Outcome::Failed { error },
        Outcome::Done { rest, value } => spec_variable(rest).map(
            |v: TokenV<Seq<char>>| ExprSuffixV::TableDot(LiteralV::Variable(v)),
        ),
    }
}

/// The suffix `[index]`.
pub open spec fn spec_index_suffix(input: SpanV) -> Outcome<ExprSuffixV>
    decreases input.len(), 0int,
{
    match spec_byte(input, '[' as u8, Label::LeftBracket) {
        Outcome::Failed { error } => Outcome::Failed { error },
        Outcome::Done { rest, value } => match spec_expression(rest) {
            Outcome::Failed { error } => Outcome::Failed { error },
            Outcome::Done { rest, value: e } => match spec_byte(
                rest,
                ']' as u8,
                Label::RightBracket,
            ) {
                Outcome::Failed { error } => Outcome::Failed { error },
                Outcome::Done { rest, value } => Outcome::Done {
                    rest,
                    value: ExprSuffixV::TableIdx(e),
                },
            },
        },
    }
}

/// The arguments of a call in their parentheses, with blank space before the
/// parentheses and inside them.
pub open spec fn spec_call_args(input: SpanV) -> Outcome<Seq<ExpressionV>>
    decreases input.len(), 0int,
{
    match spec_byte(spec_sp(input), '(' as u8, Label::LeftParen) {
        Outcome::Failed { error } => Outcome::Failed { error },
        Outcome::Done { rest, value } => match spec_args(spec_sp(rest)) {
            Outcome::Failed { error } => Outcome::Failed { error },
            Outcome::Done { rest, value: args } => match spec_byte(
                spec_sp(rest),
                ')' as u8,
                Label::RightParen,
            ) {
                Outcome::Failed { error } => Outcome::Failed { error },
                Outcome::Done { rest, value } => Outcome::Done { rest, value: args },
            },
        },
    }
}

/// A suffix, after blank space: `.name`, `[index]` or `(arguments)`, tried in
/// this order.
pub open spec fn spec_prefixexpr3(input: SpanV) -> Outcome<ExprSuffixV>
    decreases input.len(), 1int,
{
    let at = spec_sp(input);
    spec_dot_suffix(at).or(spec_index_suffix(at)).or(
        spec_call_args(at).map(
            |args: Seq<ExpressionV>| ExprSuffixV::FuncCall(CallV { callee: None, args }),
        ).context(at, Label::Call),
    )
}

/// A call: the name of the callee, which may be left out, and the arguments
/// in parentheses.
pub open spec fn spec_call(input: SpanV) -> Outcome<CallV> {
    let named = spec_variable(spec_sp(input));
    match named {
        Outcome::Done { rest, value } => spec_call_args(rest).map(
            |args: Seq<ExpressionV>| CallV { callee: Some(value), args },
        ),
        Outcome::Failed { error } => spec_call_args(input).map(
            |args: Seq<ExpressionV>| CallV { callee: None, args },
        ),
    }.context(input, Label::Call)
}

/// A binary operator between two expressions, each after blank space. An
/// expression reads every operator that an operand follows, so no operator is
/// left for this production where the first expression is read.
pub open spec fn spec_binary(input: SpanV) -> Outcome<BinaryOpV> {
    match spec_expression(spec_sp(input)) {
        Outcome::Failed { error } => Outcome::<BinaryOpV>::Failed { error },
        Outcome::Done { rest, value: left } => match spec_binary_operator(spec_sp(rest)) {
            Outcome::Failed { error } => Outcome::<BinaryOpV>::Failed { error },
            Outcome::Done { rest, value: op } => spec_expression(spec_sp(rest)).map(
                |right: ExpressionV| BinaryOpV { left, right, op },
            ),
        },
    }.context(input, Label::Binary)
}

/// A list of expressions with commas between them; it may be empty. The list
/// ends before a comma that no expression follows.
pub open spec fn spec_expression_list(input: SpanV) -> Outcome<Seq<ExpressionV>>
    decreases input.len(), 11int,
{
    match spec_expression(input).within(input) {
        Outcome::Failed { error } => if error.fatal {
            Outcome::Failed { error }
        } else {
            Outcome::Done { rest: input, value: Seq::empty() }
        },
        Outcome::Done { rest, value } => spec_expression_list_tail(rest, seq![value]),
    }
}

/// The rest of a list of expressions: any number of pairs of a comma and an
/// expression, gathered after `acc`.
pub open spec fn spec_expression_list_tail(input: SpanV, acc: Seq<ExpressionV>) -> Outcome<
    Seq<ExpressionV>,
>
    decreases input.len(), 10int,
{
    match spec_byte(spec_sp(input), ',' as u8, Label::Comma) {
        Outcome::Failed { error } => Outcome::Done { rest: input, value: acc },
        Outcome::Done { rest: after_comma, value: comma } => match spec_expression(
            after_comma,
        ).within(after_comma) {
            Outcome::Failed { error } => if error.fatal {
                Outcome::Failed { error }
            } else {
                Outcome::Done { rest: input, value: acc }
            },
            Outcome::Done { rest, value } => spec_expression_list_tail(rest, acc.push(value)),
        },
    }
}

/// The arguments of a call: a list of expressions.
pub open spec fn spec_args(input: SpanV) -> Outcome<Seq<ExpressionV>>
    decreases input.len(), 12int,
{
    spec_expression_list(input).context(input, Label::Args)
}

/// An array: `[`, a list of expressions, `]`. The opening bracket commits.
pub open spec fn spec_array(input: SpanV) -> Outcome<CollectionV>
    decreases input.len(), 0int,
{
    match spec_byte(input, '[' as u8, Label::LeftBracket) {
        Outcome::Failed { error } => Outcome::<CollectionV>::Failed { error },
        Outcome::Done { rest, value } => match spec_expression_list(rest) {
            Outcome::Failed { error } => Outcome::Failed { error },
            Outcome::Done { rest, value: items } => match spec_byte(
                spec_sp(rest),
                ']' as u8,
                Label::RightBracket,
            ) {
                Outcome::Failed { error } => Outcome::Failed { error },
                Outcome::Done { rest, value } => Outcome::Done {
                    rest,
                    value: CollectionV::Array(items),
                },
            },
        }.cut(),
    }.context(input, Label::Array)
}

/// An entry of a table: a string literal, a colon and an expression. The key
/// commits: a key without a colon after it is a fatal error.
pub open spec fn spec_key_value(input: SpanV) -> Outcome<(SpanV, ExpressionV)>
    decreases input.len(), 0int,
{
    match spec_str_raw(spec_sp(input)).within(input) {
        Outcome::Failed { error } => Outcome::Failed { error },
        Outcome::Done { rest, value: key } => match spec_byte(
            spec_sp(rest),
            ':' as u8,
            Label::Colon,
        ) {
            Outcome::Failed { error } => Outcome::Failed { error: error.cut() },
            Outcome::Done { rest, value: colon } => spec_expression(rest).map(
                |e: ExpressionV| (key, e),
            ),
        },
    }
}

/// A list of table entries with commas between them; it may be empty.
pub open spec fn spec_entries(input: SpanV) -> Outcome<Seq<(SpanV, ExpressionV)>>
    decreases input.len(), 2int,
{
    match spec_key_value(input).within(input) {
        Outcome::Failed { error } => if error.fatal {
            Outcome::Failed { error }
        } else {
            Outcome::Done { rest: input, value: Seq::empty() }
        },
        Outcome::Done { rest, value } => spec_entries_tail(rest, seq![value]),
    }
}

/// The rest of a list of table entries, gathered after `acc`.
pub open spec fn spec_entries_tail(input: SpanV, acc: Seq<(SpanV, ExpressionV)>) -> Outcome<
    Seq<(SpanV, ExpressionV)>,
>
    decreases input.len(), 1int,
{
    match spec_byte(spec_sp(input), ',' as u8, Label::Comma) {
        Outcome::Failed { error } => Outcome::Done { rest: input, value: acc },
        Outcome::Done { rest: after_comma, value: comma } => match spec_key_value(
            after_comma,
        ).within(after_comma) {
            Outcome::Failed { error } => if error.fatal {
                Outcome::Failed { error }
            } else {
                Outcome::Done { rest: input, value: acc }
            },
            Outcome::Done { rest, value } => spec_entries_tail(rest, acc.push(value)),
        },
    }
}

/// A table: `{`, a list of entries, `}`. The opening brace commits. Where a
/// key stands twice, its last value stays.
pub open spec fn spec_map(input: SpanV) -> Outcome<CollectionV>
    decreases input.len(), 0int,
{
    match spec_byte(input, '{' as u8, Label::LeftBrace) {
        Outcome::Failed { error } => Outcome::<CollectionV>::Failed { error },
        Outcome::Done { rest, value } => match spec_entries(rest) {
            Outcome::Failed { error } => Outcome::Failed { error },
            Outcome::Done { rest, value: pairs } => match spec_byte(
                spec_sp(rest),
                '}' as u8,
                Label::RightBrace,
            ) {
                Outcome::Failed { error } => Outcome::Failed { error },
                Outcome::Done { rest, value } => Outcome::Done {
                    rest,
                    value: CollectionV::Table(table_of(pairs)),
                },
            },
        }.cut(),
    }.context(input, Label::Table)
}

/// A collection, after blank space: an array or a table.
pub open spec fn spec_collection(input: SpanV) -> Outcome<CollectionV>
    decreases input.len(), 1int,
{
    let at = spec_sp(input);
    spec_array(at).or(spec_map(at)).context(input, Label::Collection)
}

/// The list of a head has the form of a flat expression.
pub proof fn lemma_head_items_alternate(head: ExprHeadV)
    ensures
        alternates(head_items(head)),
        head_items(head).last().is_exp(),
        head_items(head).len() == head.un_ops.len() + 1,
        !head_items(head)[0].is_binop(),
{
    let items = head_items(head);
    let n = head.un_ops.len() as int;
    assert forall|i: int| 0 <= i < items.len() implies (if i < n {
        (#[trigger] items[i]).is_unop()
    } else {
        items[i].is_exp()
    }) by {}
    assert forall|i: int| 0 <= i < items.len() && (#[trigger] items[i]).is_unop() implies i
        < items.len() - 1 && !items[i + 1].is_binop() by {
        assert(i < n);
        if i + 1 < n {
            assert(items[i + 1].is_unop());
        }
    }
}

/// The list of a head and a chain has the form of a flat expression.
pub proof fn lemma_flat_items_alternate(head: ExprHeadV, chain: Seq<(Operator, ExprHeadV)>)
    ensures
        alternates(flat_items(head, chain)),
        flat_items(head, chain).last().is_exp(),
    decreases chain.len(),
{
    if chain.len() == 0 {
        lemma_head_items_alternate(head);
    } else {
        let before = flat_items(head, chain.drop_last());
        lemma_flat_items_alternate(head, chain.drop_last());
        let next = head_items(chain.last().1);
        lemma_head_items_alternate(chain.last().1);
        let op = OpOrExpV::Op(UnOrBinOp::BinOp(chain.last().0));
        let list = before.push(op) + next;
        let n = before.len() as int;
        assert(list == flat_items(head, chain));
        assert forall|i: int| 0 <= i < list.len() implies #[trigger] list[i] == (if i < n {
            before[i]
        } else if i == n {
            op
        } else {
            next[i - n - 1]
        }) by {}
        assert forall|i: int| 0 <= i < list.len() && (#[trigger] list[i]).is_binop() implies 0 < i
            < list.len() - 1 && list[i - 1].is_exp() && !list[i + 1].is_binop() by {
            if i < n {
                assert(before[i].is_binop());
            } else if i == n {
                assert(list[i - 1] == before.last());
                assert(list[i + 1] == next[0]);
            } else {
                assert(next[i - n - 1].is_binop());
            }
        }
        assert forall|i: int| 0 <= i < list.len() && (#[trigger] list[i]).is_unop() implies i
            < list.len() - 1 && !list[i + 1].is_binop() by {
            if i < n {
                assert(before[i].is_unop());
            } else {
                assert(next[i - n - 1].is_unop());
            }
        }
        assert forall|i: int| 0 <= i < list.len() && (#[trigger] list[i]).is_exp() implies i
            == list.len() - 1 || list[i + 1].is_binop() by {
            if i < n {
                assert(before[i].is_exp());
            } else {
                assert(next[i - n - 1].is_exp());
            }
        }
        assert(list.last() == next.last());
    }
}

} // verus!
