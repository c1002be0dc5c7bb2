//! Literals and identifiers.

use vstd::prelude::*;
use vstd::string::*;
use vstd::utf8::*;
use crate::ast::{Literal, LiteralV, Token, TokenV, Variable};
use crate::error::{committed, fail, in_context, outcome, recoverable, Label, Outcome, Res};
use crate::lexical::{
    digits_len, digits_run, identifier_len, identifier_run, is_digit, lemma_digits_are_ascii,
    lemma_digits_are_digits, skip_blank, spec_sp, starts_with, starts_with_no_case, string_body_len,
    string_body_run, strip_prefix, strip_prefix_no_case,
};
use crate::span::{lemma_boundary_after_ascii, Span, SpanV};
use crate::tokens::{is_keyword, is_reserved};

verus! {

/// An identifier that is not a reserved word, as the span that it covers.
#[verifier::opaque]
pub open spec fn spec_variable_raw(input: SpanV) -> Outcome<SpanV> {
    let n = identifier_len(input.fragment);
    if n == 0 {
        Outcome::fail(input, Label::Variable)
    } else if is_keyword(input.take(n).fragment) {
        Outcome::fail(input, Label::Keyword)
    } else {
        Outcome::Done { rest: input.skip(n), value: input.take(n) }
    }
}

/// The token of a text: the text and the span that it covers.
pub open spec fn text_token(span: SpanV) -> TokenV<Seq<char>> {
    TokenV { value: span.text(), pos: span }
}

/// An identifier that is not a reserved word, as a variable.
#[verifier::opaque]
pub open spec fn spec_variable(input: SpanV) -> Outcome<TokenV<Seq<char>>> {
    match spec_variable_raw(input) {
        Outcome::Done { rest, value } => Outcome::Done { rest, value: text_token(value) },
        Outcome::Failed { error } => Outcome::Failed { error },
    }
}

/// A string literal in the quotes `quote`, as the span of its body. An opening
/// quote commits: a body that does not end in the same quote is a fatal error.
pub open spec fn spec_quoted(input: SpanV, quote: &str) -> Outcome<SpanV> {
    if starts_with(input.fragment, quote) {
        let body = input.skip(quote.spec_bytes().len());
        let n = string_body_len(body.fragment);
        let end = body.skip(n);
        if starts_with(end.fragment, quote) {
            Outcome::Done { rest: end.skip(quote.spec_bytes().len()), value: body.take(n) }
        } else {
            Outcome::<SpanV>::fail(end, Label::Quote).cut().context(input, Label::String)
        }
    } else {
        Outcome::<SpanV>::fail(input, Label::Quote).context(input, Label::String)
    }
}

/// A string literal in double quotes.
pub open spec fn spec_str_raw_double(input: SpanV) -> Outcome<SpanV> {
    spec_quoted(input, "\"")
}

/// A string literal in single quotes.
pub open spec fn spec_str_raw_single(input: SpanV) -> Outcome<SpanV> {
    spec_quoted(input, "'")
}

/// A string literal in either kind of quotes.
#[verifier::opaque]
pub open spec fn spec_str_raw(input: SpanV) -> Outcome<SpanV> {
    spec_str_raw_double(input).or(spec_str_raw_single(input))
}

/// A string literal. Its value is the body as it stands in the source, escapes
/// included.
pub open spec fn spec_str(input: SpanV) -> Outcome<LiteralV> {
    match spec_str_raw(input) {
        Outcome::Done { rest, value } => Outcome::Done {
            rest,
            value: LiteralV::Str(text_token(value)),
        },
        Outcome::Failed { error } => Outcome::Failed { error },
    }
}

/// Length of the floating-point literal at the start of `bytes`, 0 where none
/// starts there: digits, a dot, digits.
pub open spec fn float_len(bytes: Seq<u8>) -> nat {
    let whole = digits_len(bytes);
    let fraction = digits_len(bytes.skip(whole + 1 as int));
    if whole > 0 && whole < bytes.len() && bytes[whole as int] == '.' as u8 && fraction > 0 {
        whole + 1 + fraction
    } else {
        0
    }
}

/// A floating-point literal.
pub open spec fn spec_float(input: SpanV) -> Outcome<LiteralV> {
    let n = float_len(input.fragment);
    if n == 0 {
        Outcome::fail(input, Label::Float)
    } else {
        Outcome::Done { rest: input.skip(n), value: LiteralV::Float(text_token(input.take(n))) }
    }
}

/// The number that a sequence of digits denotes in base ten.
pub open spec fn digits_value(digits: Seq<u8>) -> nat
    decreases digits.len(),
{
    if digits.len() == 0 {
        0
    } else {
        digits_value(digits.drop_last()) * 10 + (digits.last() - '0' as u8) as nat
    }
}

/// An integer literal: one or more digits. A number beyond the range of `i32`
/// is a fatal error.
pub open spec fn spec_int(input: SpanV) -> Outcome<LiteralV> {
    let n = digits_len(input.fragment);
    let token = input.take(n);
    if n == 0 {
        Outcome::fail(input, Label::Int)
    } else if digits_value(token.fragment) > i32::MAX {
        Outcome::<LiteralV>::fail(input, Label::Int).cut()
    } else {
        Outcome::Done {
            rest: input.skip(n),
            value: LiteralV::Int(TokenV { value: digits_value(token.fragment) as i32, pos: token }),
        }
    }
}

/// Length in bytes of the number in the notation of floating-point numbers at
/// the start of a text, where one starts there: a sign that may be left out,
/// digits with a fraction that may be left out or a fraction alone, and an
/// exponent that may be left out. This is what `recognize_float` of the crate
/// `nom` recognises.
pub uninterp spec fn float_prefix(text: Seq<char>) -> Option<usize>;

/// A number in the notation of floating-point numbers, as a floating-point
/// literal that holds the text of the number.
pub open spec fn spec_num(input: SpanV) -> Outcome<LiteralV> {
    match float_prefix(input.text()) {
        Some(n) => if 0 < n <= input.len() && is_char_boundary(input.fragment, n as int) {
            Outcome::Done {
                rest: input.skip(n as nat),
                value: LiteralV::Float(text_token(input.take(n as nat))),
            }
        } else {
            Outcome::fail(input, Label::Num)
        },
        None => Outcome::fail(input, Label::Num),
    }
}

/// The word `word` in any mix of upper and lower case, as the literal `value`.
pub open spec fn spec_word_literal(
    input: SpanV,
    word: &str,
    label: Label,
    value: spec_fn(SpanV) -> LiteralV,
) -> Outcome<LiteralV> {
    if starts_with_no_case(input.fragment, word) {
        let n = word.spec_bytes().len();
        Outcome::Done { rest: input.skip(n), value: value(input.take(n)) }
    } else {
        Outcome::fail(input, label)
    }
}

/// The literal `False`.
pub open spec fn spec_false(input: SpanV) -> Outcome<LiteralV> {
    spec_word_literal(
        input,
        "False",
        Label::False,
        |pos: SpanV| LiteralV::Boolean(TokenV { value: false, pos }),
    )
}

/// The literal `True`.
pub open spec fn spec_true(input: SpanV) -> Outcome<LiteralV> {
    spec_word_literal(
        input,
        "True",
        Label::True,
        |pos: SpanV| LiteralV::Boolean(TokenV { value: true, pos }),
    )
}

/// A boolean literal.
pub open spec fn spec_boolean(input: SpanV) -> Outcome<LiteralV> {
    spec_false(input).or(spec_true(input))
}

/// The literal `Nil`.
pub open spec fn spec_nil(input: SpanV) -> Outcome<LiteralV> {
    spec_word_literal(input, "Nil", Label::Nil, |pos: SpanV| LiteralV::Nil(pos))
}

/// A literal, after blank space: `Nil`, a boolean, a floating-point number, an
/// integer or a string, tried in this order.
#[verifier::opaque]
pub open spec fn spec_literal(input: SpanV) -> Outcome<LiteralV> {
    let at = spec_sp(input);
    spec_nil(at).or(spec_boolean(at)).or(spec_float(at)).or(spec_int(at)).or(spec_str(at)).context(
        input,
        Label::Literal,
    )
}

/// Parses an identifier that is not a reserved word, and yields the span that
/// it covers.
pub fn parse_variable_raw<'a>(input: Span<'a>) -> (r: Res<'a, Span<'a>>)
    ensures
        outcome(r) == spec_variable_raw(input@),
        outcome(r).shrinks(input@),
{
    reveal(spec_variable_raw);
    let n = identifier_run(&input);
    if n == 0 {
        return fail(input, Label::Variable);
    }
    let (name, rest) = input.split(n);
    if is_reserved(name.fragment()) {
        fail(input, Label::Keyword)
    } else {
        Ok((rest, name))
    }
}

/// The token of the text that `span` covers.
pub fn text_of<'a>(span: Span<'a>) -> (t: Token<'a, &'a str>)
    ensures
        t.deep_view() == text_token(span@),
{
    Token::new(span.fragment(), span)
}

/// Parses an identifier that is not a reserved word, as a variable.
pub fn parse_variable<'a>(input: Span<'a>) -> (r: Res<'a, Variable<'a>>)
    ensures
        outcome(r) == spec_variable(input@),
        outcome(r).shrinks(input@),
{
    reveal(spec_variable);
    match parse_variable_raw(input) {
        Ok((rest, name)) => Ok((rest, text_of(name))),
        Err(e) => Err(e),
    }
}

fn parse_quoted<'a>(input: Span<'a>, quote: &str) -> (r: Res<'a, Span<'a>>)
    ensures
        outcome(r) == spec_quoted(input@, quote),
        outcome(r).shrinks(input@),
{
    match strip_prefix(input, quote) {
        None => in_context(fail(input, Label::Quote), input, Label::String),
        Some((_, after)) => {
            let n = string_body_run(&after);
            let (body, end) = after.split(n);
            match strip_prefix(end, quote) {
                Some((_, rest)) => Ok((rest, body)),
                None => in_context(committed(fail(end, Label::Quote)), input, Label::String),
            }
        },
    }
}

/// Parses a string literal in double quotes, and yields the span of its body.
pub fn parse_str_raw_double<'a>(input: Span<'a>) -> (r: Res<'a, Span<'a>>)
    ensures
        outcome(r) == spec_str_raw_double(input@),
        outcome(r).shrinks(input@),
{
    parse_quoted(input, "\"")
}

/// Parses a string literal in single quotes, and yields the span of its body.
pub fn parse_str_raw_single<'a>(input: Span<'a>) -> (r: Res<'a, Span<'a>>)
    ensures
        outcome(r) == spec_str_raw_single(input@),
        outcome(r).shrinks(input@),
{
    parse_quoted(input, "'")
}

/// Parses a string literal in either kind of quotes, and yields the span of its
/// body.
pub fn parse_str_raw<'a>(input: Span<'a>) -> (r: Res<'a, Span<'a>>)
    ensures
        outcome(r) == spec_str_raw(input@),
        outcome(r).shrinks(input@),
{
    reveal(spec_str_raw);
    let r = parse_str_raw_double(input);
    if recoverable(&r) {
        parse_str_raw_single(input)
    } else {
        r
    }
}

/// Parses a string literal.
pub fn parse_str<'a>(input: Span<'a>) -> (r: Res<'a, Literal<'a>>)
    ensures
        outcome(r) == spec_str(input@),
        outcome(r).shrinks(input@),
{
    match parse_str_raw(input) {
        Ok((rest, body)) => {
            let text = body.fragment().to_owned();
            Ok((rest, Literal::Str(Token::new(text, body))))
        },
        Err(e) => Err(e),
    }
}

/// Parses a floating-point literal: digits, a dot, digits.
pub fn parse_float<'a>(input: Span<'a>) -> (r: Res<'a, Literal<'a>>)
    ensures
        outcome(r) == spec_float(input@),
        outcome(r).shrinks(input@),
{
    let whole = digits_run(&input);
    let b = input.bytes();
    if whole == 0 || whole >= b.len() || b[whole] != '.' as u8 {
        return fail(input, Label::Float);
    }
    proof {
        input.lemma_valid();
        lemma_boundary_after_ascii(b@, whole + 1);
    }
    let (_, tail) = input.split(whole + 1);
    let fraction = digits_run(&tail);
    if fraction == 0 {
        return fail(input, Label::Float);
    }
    proof {
        let n = whole + 1 + fraction;
        assert(tail@.fragment =~= b@.skip(whole + 1));
        lemma_digits_are_ascii(tail@.fragment);
        assert(b@[n - 1] == tail@.fragment[fraction - 1]);
        lemma_boundary_after_ascii(b@, n);
    }
    let (token, rest) = input.split(whole + 1 + fraction);
    Ok((rest, Literal::Float(text_of(token))))
}

/// Calls `nom::number::complete::recognize_float` on `text`. The result is the
/// length in bytes of what it recognised at the start of `text`, or `None`
/// where it failed. The contract gives this result its name and claims nothing
/// more of it.
#[verifier::external_body]
fn recognize_float_prefix(text: &str) -> (n: Option<usize>)
    ensures
        n == float_prefix(text@),
{
    match nom::number::complete::recognize_float::<&str, nom::error::Error<&str>>(text) {
        Ok((_, matched)) => Some(matched.len()),
        Err(_) => None,
    }
}

/// The floating-point literal of the first `n` bytes of the input.
pub fn float_token<'a>(input: Span<'a>, n: usize) -> (r: (Span<'a>, Literal<'a>))
    requires
        n <= input@.len(),
        is_char_boundary(input@.fragment, n as int),
    ensures
        r.0@ == input@.skip(n as nat),
        r.1.deep_view() == LiteralV::Float(text_token(input@.take(n as nat))),
{
    let (token, rest) = input.split(n);
    (rest, Literal::Float(text_of(token)))
}

/// Parses a number in the notation of floating-point numbers, with sign and
/// exponent, as a floating-point literal.
pub fn parse_num<'a>(input: Span<'a>) -> (r: Res<'a, Literal<'a>>)
    ensures
        outcome(r) == spec_num(input@),
        outcome(r).shrinks(input@),
{
    let text = input.fragment();
    match recognize_float_prefix(text) {
        Some(n) => if 0 < n && n <= input.len() && text.is_char_boundary(n) {
            Ok(float_token(input, n))
        } else {
            fail(input, Label::Num)
        },
        None => fail(input, Label::Num),
    }
}

/// A sequence of digits denotes at least what any of its prefixes denotes.
pub proof fn lemma_digits_value_grows(digits: Seq<u8>, i: int)
    requires
        0 <= i <= digits.len(),
    ensures
        digits_value(digits.take(i)) <= digits_value(digits),
    decreases digits.len() - i,
{
    if i == digits.len() {
        assert(digits.take(i) =~= digits);
    } else {
        lemma_digits_value_grows(digits, i + 1);
        assert(digits.take(i + 1).drop_last() =~= digits.take(i));
    }
}

/// Parses an integer literal: one or more digits.
pub fn parse_int<'a>(input: Span<'a>) -> (r: Res<'a, Literal<'a>>)
    ensures
        outcome(r) == spec_int(input@),
        outcome(r).shrinks(input@),
{
    let n = digits_run(&input);
    if n == 0 {
        return fail(input, Label::Int);
    }
    let (token, rest) = input.split(n);
    let d = token.bytes();
    proof {
        lemma_digits_are_digits(input@.fragment);
    }
    let mut value: i32 = 0;
    let mut i: usize = 0;
    assert(d@.take(0) =~= Seq::<u8>::empty());
    while i < d.len()
        invariant
            i <= d@.len(),
            value == digits_value(d@.take(i as int)),
            forall|j: int| 0 <= j < d@.len() ==> is_digit(#[trigger] d@[j]),
            d@ == input@.take(n as nat).fragment,
            digits_len(input@.fragment) == n,
            n > 0,
        decreases d@.len() - i,
    {
        let digit = (d[i] - '0' as u8) as i32;
        proof {
            assert(d@.take(i + 1).drop_last() =~= d@.take(i as int));
            lemma_digits_value_grows(d@, i + 1);
        }
        if value > (i32::MAX - digit) / 10 {
            return committed(fail(input, Label::Int));
        }
        value = value * 10 + digit;
        i += 1;
    }
    assert(d@.take(i as int) =~= d@);
    Ok((rest, Literal::Int(Token::new(value, token))))
}

/// Parses the literal `False`, in any mix of upper and lower case.
pub fn parse_false<'a>(input: Span<'a>) -> (r: Res<'a, Literal<'a>>)
    ensures
        outcome(r) == spec_false(input@),
        outcome(r).shrinks(input@),
{
    proof {
        reveal_strlit("False");
    }
    match strip_prefix_no_case(input, "False") {
        Some((token, rest)) => Ok((rest, Literal::Boolean(Token::new(false, token)))),
        None => fail(input, Label::False),
    }
}

/// Parses the literal `True`, in any mix of upper and lower case.
pub fn parse_true<'a>(input: Span<'a>) -> (r: Res<'a, Literal<'a>>)
    ensures
        outcome(r) == spec_true(input@),
        outcome(r).shrinks(input@),
{
    proof {
        reveal_strlit("True");
    }
    match strip_prefix_no_case(input, "True") {
        Some((token, rest)) => Ok((rest, Literal::Boolean(Token::new(true, token)))),
        None => fail(input, Label::True),
    }
}

/// Parses a boolean literal.
pub fn parse_boolean<'a>(input: Span<'a>) -> (r: Res<'a, Literal<'a>>)
    ensures
        outcome(r) == spec_boolean(input@),
        outcome(r).shrinks(input@),
{
    let r = parse_false(input);
    if recoverable(&r) {
        parse_true(input)
    } else {
        r
    }
}

/// Parses the literal `Nil`, in any mix of upper and lower case.
pub fn parse_nil<'a>(input: Span<'a>) -> (r: Res<'a, Literal<'a>>)
    ensures
        outcome(r) == spec_nil(input@),
        outcome(r).shrinks(input@),
{
    proof {
        reveal_strlit("Nil");
    }
    match strip_prefix_no_case(input, "Nil") {
        Some((token, rest)) => Ok((rest, Literal::Nil(token))),
        None => fail(input, Label::Nil),
    }
}

/// Parses a literal, after blank space.
pub fn parse_literal<'a>(input: Span<'a>) -> (r: Res<'a, Literal<'a>>)
    ensures
        outcome(r) == spec_literal(input@),
        outcome(r).shrinks(input@),
{
    reveal(spec_literal);
    let at = skip_blank(input);
    let r = parse_nil(at);
    if !recoverable(&r) {
        return in_context(r, input, Label::Literal);
    }
    let r = parse_boolean(at);
    if !recoverable(&r) {
        return in_context(r, input, Label::Literal);
    }
    let r = parse_float(at);
    if !recoverable(&r) {
        return in_context(r, input, Label::Literal);
    }
    let r = parse_int(at);
    if !recoverable(&r) {
        return in_context(r, input, Label::Literal);
    }
    in_context(parse_str(at), input, Label::Literal)
}

} // verus!
