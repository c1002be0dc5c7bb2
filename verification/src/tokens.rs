//! Tokens of the language: punctuation, operators and keywords, and the two
//! precedence tables.
//!
//! Every operator stands in its precedence table, and every operator has one
//! token, except [`UnOperator::Not`], which has none: `not` is an identifier
//! like any other. A token that is spelled with letters is recognised as a
//! whole word only, so that `endpoint` is an identifier and not the keyword
//! `end` followed by `point`.

use vstd::prelude::*;
use vstd::string::*;
use vstd::utf8::*;
use crate::error::{fail, in_context, outcome, recoverable, Label, Outcome, Res};
use crate::lexical::{skip_blank, spec_sp, starts_with, starts_with_word, strip_prefix, strip_word};
use crate::span::{lemma_boundary_after_ascii, Span, SpanV};

verus! {

/// The operators of binary expressions.
#[derive(Clone, Copy, Debug, PartialEq, Eq, PartialOrd, Ord, Structural)]
pub enum Operator {
    Add,
    Sub,
    Div,
    Mul,
    Pow,
    Mod,
    EQ,
    And,
    Lt,
    Gt,
    Or,
    Leq,
    Geq,
    Neq,
}

/// The operators of unary expressions.
#[derive(Clone, Copy, Debug, PartialEq, Eq, PartialOrd, Ord, Structural)]
pub enum UnOperator {
    Add,
    Sub,
    Not,
}

/// A unary or a binary operator.
#[derive(Clone, Copy, Debug, PartialEq, Eq, Structural)]
pub enum UnOrBinOp {
    UnOp(UnOperator),
    BinOp(Operator),
}

impl DeepView for Operator {
    type V = Operator;

    open spec fn deep_view(&self) -> Operator {
        *self
    }
}

impl DeepView for UnOperator {
    type V = UnOperator;

    open spec fn deep_view(&self) -> UnOperator {
        *self
    }
}

impl DeepView for UnOrBinOp {
    type V = UnOrBinOp;

    open spec fn deep_view(&self) -> UnOrBinOp {
        *self
    }
}

/// The binary operators by priority, the tier that binds tightest first.
pub open spec fn binary_tiers() -> Seq<Seq<Operator>> {
    seq![
        seq![Operator::Pow],
        seq![Operator::Div, Operator::Mul, Operator::Mod],
        seq![Operator::Add, Operator::Sub],
        seq![
            Operator::EQ,
            Operator::Lt,
            Operator::Gt,
            Operator::Leq,
            Operator::Geq,
            Operator::Neq,
        ],
        seq![Operator::And],
        seq![Operator::Or],
    ]
}

/// The unary operators that the precedence resolution applies.
pub open spec fn unary_table() -> Seq<UnOperator> {
    seq![UnOperator::Add, UnOperator::Sub, UnOperator::Not]
}

/// The tier of a binary operator in [`binary_tiers`].
pub open spec fn tier_of(op: Operator) -> int {
    match op {
        Operator::Pow => 0,
        Operator::Div | Operator::Mul | Operator::Mod => 1,
        Operator::Add | Operator::Sub => 2,
        Operator::EQ | Operator::Lt | Operator::Gt => 3,
        Operator::Leq | Operator::Geq | Operator::Neq => 3,
        Operator::And => 4,
        Operator::Or => 5,
    }
}

/// Every binary operator stands in exactly one tier of the table, the one that
/// [`tier_of`] names.
pub proof fn lemma_every_operator_has_one_tier(op: Operator, t: int)
    requires
        0 <= t < binary_tiers().len(),
    ensures
        binary_tiers().len() == 6,
        0 <= tier_of(op) < 6,
        binary_tiers()[t].contains(op) <==> t == tier_of(op),
{
    let tiers = binary_tiers();
    assert(tiers[0] =~= seq![Operator::Pow]);
    assert(tiers[0][0] == Operator::Pow);
    assert(tiers[1][0] == Operator::Div && tiers[1][1] == Operator::Mul && tiers[1][2]
        == Operator::Mod);
    assert(tiers[2][0] == Operator::Add && tiers[2][1] == Operator::Sub);
    assert(tiers[3][0] == Operator::EQ && tiers[3][1] == Operator::Lt && tiers[3][2]
        == Operator::Gt && tiers[3][3] == Operator::Leq && tiers[3][4] == Operator::Geq
        && tiers[3][5] == Operator::Neq);
    assert(tiers[4][0] == Operator::And);
    assert(tiers[5][0] == Operator::Or);
}

/// Every unary operator stands in the unary table.
pub proof fn lemma_every_unary_operator_listed(op: UnOperator)
    ensures
        unary_table().contains(op),
{
    let table = unary_table();
    assert(table[0] == UnOperator::Add && table[1] == UnOperator::Sub && table[2]
        == UnOperator::Not);
}

/// The table of unary operators.
pub fn unops() -> (table: Vec<UnOperator>)
    ensures
        table@ == unary_table(),
{
    let table = vec![UnOperator::Add, UnOperator::Sub, UnOperator::Not];
    assert(table@ =~= unary_table());
    table
}

/// The table of binary operators by priority, the tier that binds tightest
/// first.
pub fn binop_precedence() -> (table: Vec<Vec<Operator>>)
    ensures
        table.deep_view() == binary_tiers(),
{
    let table = vec![
        vec![Operator::Pow],
        vec![Operator::Div, Operator::Mul, Operator::Mod],
        vec![Operator::Add, Operator::Sub],
        vec![
            Operator::EQ,
            Operator::Lt,
            Operator::Gt,
            Operator::Leq,
            Operator::Geq,
            Operator::Neq,
        ],
        vec![Operator::And],
        vec![Operator::Or],
    ];
    proof {
        let d = table.deep_view();
        let tiers = binary_tiers();
        assert(d.len() == 6);
        assert(d[0] =~= tiers[0]);
        assert(d[1] =~= tiers[1]);
        assert(d[2] =~= tiers[2]);
        assert(d[3] =~= tiers[3]);
        assert(d[4] =~= tiers[4]);
        assert(d[5] =~= tiers[5]);
        assert(d =~= tiers);
    }
    table
}

/// True for the text of one of the reserved words, which no identifier may be.
pub open spec fn is_keyword(text: Seq<u8>) -> bool {
    ||| text == "return".spec_bytes()
    ||| text == "class".spec_bytes()
    ||| text == "end".spec_bytes()
    ||| text == "fun".spec_bytes()
    ||| text == "do".spec_bytes()
    ||| text == "while".spec_bytes()
    ||| text == "for".spec_bytes()
    ||| text == "if".spec_bytes()
    ||| text == "let".spec_bytes()
    ||| text == "in".spec_bytes()
    ||| text == "else".spec_bytes()
    ||| text == "external".spec_bytes()
    ||| text == "as".spec_bytes()
    ||| text == "import".spec_bytes()
}

fn same_text(text: &[u8], word: &str) -> (r: bool)
    ensures
        r == (text@ == word.spec_bytes()),
{
    let w = word.as_bytes();
    if w.len() != text.len() {
        return false;
    }
    let mut i: usize = 0;
    while i < w.len()
        invariant
            i <= w@.len(),
            w@.len() == text@.len(),
            w@ == word.spec_bytes(),
            forall|j: int| 0 <= j < i ==> w@[j] == text@[j],
        decreases w@.len() - i,
    {
        if w[i] != text[i] {
            assert(text@[i as int] != word.spec_bytes()[i as int]);
            return false;
        }
        i += 1;
    }
    assert(text@ =~= w@);
    true
}

/// The reserved words, which cannot be used as identifiers.
pub fn keywords() -> (words: Vec<&'static str>)
    ensures
        words@.len() == 14,
        forall|text: Seq<u8>|
            is_keyword(text) <==> exists|i: int|
                0 <= i < words@.len() && text == #[trigger] words@[i].spec_bytes(),
{
    let words: Vec<&'static str> = vec![
        "return",
        "class",
        "end",
        "fun",
        "do",
        "while",
        "for",
        "if",
        "let",
        "in",
        "else",
        "external",
        "as",
        "import",
    ];
    assert forall|text: Seq<u8>| is_keyword(text) implies exists|i: int|
        0 <= i < words@.len() && text == #[trigger] words@[i].spec_bytes() by {
        let i = if text == "return".spec_bytes() {
            0int
        } else if text == "class".spec_bytes() {
            1
        } else if text == "end".spec_bytes() {
            2
        } else if text == "fun".spec_bytes() {
            3
        } else if text == "do".spec_bytes() {
            4
        } else if text == "while".spec_bytes() {
            5
        } else if text == "for".spec_bytes() {
            6
        } else if text == "if".spec_bytes() {
            7
        } else if text == "let".spec_bytes() {
            8
        } else if text == "in".spec_bytes() {
            9
        } else if text == "else".spec_bytes() {
            10
        } else if text == "external".spec_bytes() {
            11
        } else if text == "as".spec_bytes() {
            12
        } else {
            13
        };
        assert(text == words@[i].spec_bytes());
    }
    words
}

/// Tells whether `text` is one of the reserved words.
pub fn is_reserved(text: &str) -> (r: bool)
    ensures
        r == is_keyword(text.spec_bytes()),
{
    let t = text.as_bytes();
    same_text(t, "return") || same_text(t, "class") || same_text(t, "end") || same_text(t, "fun")
        || same_text(t, "do") || same_text(t, "while") || same_text(t, "for") || same_text(
        t,
        "if",
    ) || same_text(t, "let") || same_text(t, "in") || same_text(t, "else") || same_text(
        t,
        "external",
    ) || same_text(t, "as") || same_text(t, "import")
}

/// The token that is the one ASCII byte `byte`.
pub open spec fn spec_byte(input: SpanV, byte: u8, label: Label) -> Outcome<SpanV> {
    if input.len() > 0 && input.fragment[0] == byte {
        Outcome::Done { rest: input.skip(1), value: input.take(1) }
    } else {
        Outcome::fail(input, label)
    }
}

/// The token `word`, which is punctuation: the input starts with it.
pub open spec fn spec_symbol(input: SpanV, word: &str, label: Label) -> Outcome<SpanV> {
    if starts_with(input.fragment, word) {
        let n = word.spec_bytes().len();
        Outcome::Done { rest: input.skip(n), value: input.take(n) }
    } else {
        Outcome::fail(input, label)
    }
}

/// The token `word`, which is spelled with letters and is not empty: the input
/// starts with it and no identifier byte follows.
pub open spec fn spec_keyword(input: SpanV, word: &str, label: Label) -> Outcome<SpanV> {
    if word.spec_bytes().len() > 0 && starts_with_word(input.fragment, word) {
        let n = word.spec_bytes().len();
        Outcome::Done { rest: input.skip(n), value: input.take(n) }
    } else {
        Outcome::fail(input, label)
    }
}

/// Recognises the ASCII byte `byte` at the start of the input.
pub fn punct<'a>(input: Span<'a>, c: u8, label: Label) -> (r: Res<'a, Span<'a>>)
    requires
        c <= 0x7f,
    ensures
        outcome(r) == spec_byte(input@, c, label),
{
    let b = input.bytes();
    if b.len() > 0 && b[0] == c {
        proof {
            input.lemma_valid();
            lemma_boundary_after_ascii(b@, 1);
        }
        let (token, rest) = input.split(1);
        Ok((rest, token))
    } else {
        fail(input, label)
    }
}

/// Recognises the punctuation `word` at the start of the input.
pub fn symbol<'a>(input: Span<'a>, word: &str, label: Label) -> (r: Res<'a, Span<'a>>)
    ensures
        outcome(r) == spec_symbol(input@, word, label),
{
    match strip_prefix(input, word) {
        Some((token, rest)) => Ok((rest, token)),
        None => fail(input, label),
    }
}

/// Recognises the word `word` at the start of the input.
pub fn keyword<'a>(input: Span<'a>, word: &str, label: Label) -> (r: Res<'a, Span<'a>>)
    ensures
        outcome(r) == spec_keyword(input@, word, label),
        outcome(r).advances(input@),
{
    if word.as_bytes().len() == 0 {
        return fail(input, label);
    }
    let _ = input.len();
    match strip_word(input, word) {
        Some((token, rest)) => Ok((rest, token)),
        None => fail(input, label),
    }
}

/// A token of punctuation: `+`, `-`, `*`, `/`, `.`, `==`, `!=`, `(`, `)`,
/// `<=`, `>=`, `<` or `>`, tried in this order, as the span that it covers.
pub open spec fn spec_tokens(input: SpanV) -> Outcome<SpanV> {
    spec_symbol(input, "+", Label::Add).or(spec_symbol(input, "-", Label::Sub)).or(
        spec_symbol(input, "*", Label::Mul),
    ).or(spec_symbol(input, "/", Label::Div)).or(spec_symbol(input, ".", Label::Dot)).or(
        spec_symbol(input, "==", Label::Equal),
    ).or(spec_symbol(input, "!=", Label::Unequal)).or(
        spec_symbol(input, "(", Label::LeftParen),
    ).or(spec_symbol(input, ")", Label::RightParen)).or(
        spec_symbol(input, "<=", Label::LessEqThan),
    ).or(spec_symbol(input, ">=", Label::GreaterEqThan)).or(
        spec_symbol(input, "<", Label::LessThan),
    ).or(spec_symbol(input, ">", Label::GreaterThan))
}

/// Parses a token of punctuation.
pub fn parse_tokens<'a>(input: Span<'a>) -> (r: Res<'a, Span<'a>>)
    ensures
        outcome(r) == spec_tokens(input@),
{
    let r = symbol(input, "+", Label::Add);
    if !recoverable(&r) {
        return r;
    }
    let r = symbol(input, "-", Label::Sub);
    if !recoverable(&r) {
        return r;
    }
    let r = symbol(input, "*", Label::Mul);
    if !recoverable(&r) {
        return r;
    }
    let r = symbol(input, "/", Label::Div);
    if !recoverable(&r) {
        return r;
    }
    let r = symbol(input, ".", Label::Dot);
    if !recoverable(&r) {
        return r;
    }
    let r = symbol(input, "==", Label::Equal);
    if !recoverable(&r) {
        return r;
    }
    let r = symbol(input, "!=", Label::Unequal);
    if !recoverable(&r) {
        return r;
    }
    let r = symbol(input, "(", Label::LeftParen);
    if !recoverable(&r) {
        return r;
    }
    let r = symbol(input, ")", Label::RightParen);
    if !recoverable(&r) {
        return r;
    }
    let r = symbol(input, "<=", Label::LessEqThan);
    if !recoverable(&r) {
        return r;
    }
    let r = symbol(input, ">=", Label::GreaterEqThan);
    if !recoverable(&r) {
        return r;
    }
    let r = symbol(input, "<", Label::LessThan);
    if !recoverable(&r) {
        return r;
    }
    symbol(input, ">", Label::GreaterThan)
}

/// The binary operator whose token starts `bytes`, with the length of the
/// token. A token of two bytes goes before the token of one byte that it starts
/// with.
pub open spec fn operator_at(bytes: Seq<u8>) -> Option<(Operator, &'static str)> {
    if starts_with(bytes, "==") {
        Some((Operator::EQ, "=="))
    } else if starts_with(bytes, "!=") {
        Some((Operator::Neq, "!="))
    } else if starts_with(bytes, "<=") {
        Some((Operator::Leq, "<="))
    } else if starts_with(bytes, ">=") {
        Some((Operator::Geq, ">="))
    } else if starts_with(bytes, "<") {
        Some((Operator::Lt, "<"))
    } else if starts_with(bytes, ">") {
        Some((Operator::Gt, ">"))
    } else if starts_with(bytes, "+") {
        Some((Operator::Add, "+"))
    } else if starts_with(bytes, "-") {
        Some((Operator::Sub, "-"))
    } else if starts_with(bytes, "*") {
        Some((Operator::Mul, "*"))
    } else if starts_with(bytes, "/") {
        Some((Operator::Div, "/"))
    } else if starts_with(bytes, "^") {
        Some((Operator::Pow, "^"))
    } else if starts_with(bytes, "%") {
        Some((Operator::Mod, "%"))
    } else if starts_with_word(bytes, "and") {
        Some((Operator::And, "and"))
    } else if starts_with_word(bytes, "or") {
        Some((Operator::Or, "or"))
    } else {
        None
    }
}

/// A binary operator, after blank space.
#[verifier::opaque]
pub open spec fn spec_binary_operator(input: SpanV) -> Outcome<Operator> {
    let at = spec_sp(input);
    match operator_at(at.fragment) {
        Some((op, word)) => Outcome::Done { rest: at.skip(word.spec_bytes().len()), value: op },
        None => Outcome::<Operator>::fail(at, Label::Token).context(input, Label::Operator),
    }
}

/// The unary operator whose token starts `bytes`.
pub open spec fn unary_operator_at(bytes: Seq<u8>) -> Option<(UnOperator, &'static str)> {
    if starts_with(bytes, "+") {
        Some((UnOperator::Add, "+"))
    } else if starts_with(bytes, "-") {
        Some((UnOperator::Sub, "-"))
    } else {
        None
    }
}

/// A unary operator, after blank space.
#[verifier::opaque]
pub open spec fn spec_unary_operator(input: SpanV) -> Outcome<UnOperator> {
    let at = spec_sp(input);
    match unary_operator_at(at.fragment) {
        Some((op, word)) => Outcome::Done { rest: at.skip(word.spec_bytes().len()), value: op },
        None => Outcome::<UnOperator>::fail(at, Label::Token).context(input, Label::UnaryOperator),
    }
}

/// Parses a binary operator, after blank space.
pub fn parse_binary_operator<'a>(input: Span<'a>) -> (r: Res<'a, Operator>)
    ensures
        outcome(r) == spec_binary_operator(input@),
        outcome(r).shrinks(input@),
{
    reveal(spec_binary_operator);
    let at = skip_blank(input);
    if let Some((_, rest)) = strip_prefix(at, "==") {
        Ok((rest, Operator::EQ))
    } else if let Some((_, rest)) = strip_prefix(at, "!=") {
        Ok((rest, Operator::Neq))
    } else if let Some((_, rest)) = strip_prefix(at, "<=") {
        Ok((rest, Operator::Leq))
    } else if let Some((_, rest)) = strip_prefix(at, ">=") {
        Ok((rest, Operator::Geq))
    } else if let Some((_, rest)) = strip_prefix(at, "<") {
        Ok((rest, Operator::Lt))
    } else if let Some((_, rest)) = strip_prefix(at, ">") {
        Ok((rest, Operator::Gt))
    } else if let Some((_, rest)) = strip_prefix(at, "+") {
        Ok((rest, Operator::Add))
    } else if let Some((_, rest)) = strip_prefix(at, "-") {
        Ok((rest, Operator::Sub))
    } else if let Some((_, rest)) = strip_prefix(at, "*") {
        Ok((rest, Operator::Mul))
    } else if let Some((_, rest)) = strip_prefix(at, "/") {
        Ok((rest, Operator::Div))
    } else if let Some((_, rest)) = strip_prefix(at, "^") {
        Ok((rest, Operator::Pow))
    } else if let Some((_, rest)) = strip_prefix(at, "%") {
        Ok((rest, Operator::Mod))
    } else if let Some((_, rest)) = strip_word(at, "and") {
        Ok((rest, Operator::And))
    } else if let Some((_, rest)) = strip_word(at, "or") {
        Ok((rest, Operator::Or))
    } else {
        in_context(fail(at, Label::Token), input, Label::Operator)
    }
}

/// Parses a unary operator, after blank space.
pub fn parse_unary_operator<'a>(input: Span<'a>) -> (r: Res<'a, UnOperator>)
    ensures
        outcome(r) == spec_unary_operator(input@),
        outcome(r).shrinks(input@),
{
    reveal(spec_unary_operator);
    let at = skip_blank(input);
    if let Some((_, rest)) = strip_prefix(at, "+") {
        Ok((rest, UnOperator::Add))
    } else if let Some((_, rest)) = strip_prefix(at, "-") {
        Ok((rest, UnOperator::Sub))
    } else {
        in_context(fail(at, Label::Token), input, Label::UnaryOperator)
    }
}

} // verus!
