//! Lexical primitives: byte classes, runs of bytes, blank space and comments,
//! fixed words.
//!
//! The grammar is ASCII at every place where it looks at a byte, so the
//! recognisers work on the UTF-8 bytes of the source. A byte of a character
//! outside ASCII belongs to no class.

use vstd::prelude::*;
use vstd::string::*;
use vstd::utf8::*;
use crate::error::{fail, outcome, Label, Outcome, Res};
use crate::span::{lemma_boundary_after_ascii, Span, SpanV};

verus! {

pub open spec fn is_digit(b: u8) -> bool {
    '0' as u8 <= b <= '9' as u8
}

pub open spec fn is_alpha(b: u8) -> bool {
    ('a' as u8 <= b <= 'z' as u8) || ('A' as u8 <= b <= 'Z' as u8)
}

/// A byte that may stand inside an identifier.
pub open spec fn is_word(b: u8) -> bool {
    is_alpha(b) || is_digit(b) || b == '_' as u8
}

/// A byte that may start an identifier.
pub open spec fn is_word_start(b: u8) -> bool {
    is_alpha(b) || b == '_' as u8
}

/// Space, tab, carriage return or line feed.
pub open spec fn is_blank(b: u8) -> bool {
    b == ' ' as u8 || b == '\t' as u8 || b == '\r' as u8 || b == '\n' as u8
}

/// A byte that may stand unescaped in a string literal: a letter, a digit, a
/// space or a tab.
pub open spec fn is_text(b: u8) -> bool {
    is_alpha(b) || is_digit(b) || b == ' ' as u8 || b == '\t' as u8
}

/// A byte that may follow a backslash in a string literal.
pub open spec fn is_escapable(b: u8) -> bool {
    b == '"' as u8 || b == 'n' as u8 || b == '\\' as u8
}

#[verifier::when_used_as_spec(is_digit)]
pub fn is_digit_byte(b: u8) -> (r: bool)
    ensures
        r == is_digit(b),
{
    '0' as u8 <= b && b <= '9' as u8
}

#[verifier::when_used_as_spec(is_alpha)]
pub fn is_alpha_byte(b: u8) -> (r: bool)
    ensures
        r == is_alpha(b),
{
    ('a' as u8 <= b && b <= 'z' as u8) || ('A' as u8 <= b && b <= 'Z' as u8)
}

#[verifier::when_used_as_spec(is_word)]
pub fn is_word_byte(b: u8) -> (r: bool)
    ensures
        r == is_word(b),
{
    is_alpha_byte(b) || is_digit_byte(b) || b == '_' as u8
}

#[verifier::when_used_as_spec(is_blank)]
pub fn is_blank_byte(b: u8) -> (r: bool)
    ensures
        r == is_blank(b),
{
    b == ' ' as u8 || b == '\t' as u8 || b == '\r' as u8 || b == '\n' as u8
}

#[verifier::when_used_as_spec(is_text)]
pub fn is_text_byte(b: u8) -> (r: bool)
    ensures
        r == is_text(b),
{
    is_alpha_byte(b) || is_digit_byte(b) || b == ' ' as u8 || b == '\t' as u8
}

#[verifier::when_used_as_spec(is_escapable)]
pub fn is_escapable_byte(b: u8) -> (r: bool)
    ensures
        r == is_escapable(b),
{
    b == '"' as u8 || b == 'n' as u8 || b == '\\' as u8
}

/// Length of the longest prefix of `bytes` made of digits.
pub open spec fn digits_len(bytes: Seq<u8>) -> nat
    decreases bytes.len(),
{
    if bytes.len() > 0 && is_digit(bytes[0]) {
        1 + digits_len(bytes.drop_first())
    } else {
        0
    }
}

/// Length of the longest prefix of `bytes` made of identifier bytes.
pub open spec fn word_len(bytes: Seq<u8>) -> nat
    decreases bytes.len(),
{
    if bytes.len() > 0 && is_word(bytes[0]) {
        1 + word_len(bytes.drop_first())
    } else {
        0
    }
}

/// Length of the identifier at the start of `bytes`, 0 where none starts there:
/// a letter or underscore, then letters, digits and underscores.
pub open spec fn identifier_len(bytes: Seq<u8>) -> nat {
    if bytes.len() > 0 && is_word_start(bytes[0]) {
        word_len(bytes)
    } else {
        0
    }
}

/// Length of the blank space at the start of `bytes`: blank bytes and line
/// comments, in any number and order. A line comment starts with `//` and runs to
/// the end of its line, the line feed included, or to the end of the text.
/// `in_comment` says that `bytes` starts inside a comment.
pub open spec fn blank_len(bytes: Seq<u8>, in_comment: bool) -> nat
    decreases bytes.len(),
{
    if bytes.len() == 0 {
        0
    } else if in_comment {
        1 + blank_len(bytes.drop_first(), bytes[0] != '\n' as u8)
    } else if is_blank(bytes[0]) {
        1 + blank_len(bytes.drop_first(), false)
    } else if bytes.len() >= 2 && bytes[0] == '/' as u8 && bytes[1] == '/' as u8 {
        2 + blank_len(bytes.skip(2), true)
    } else {
        0
    }
}

/// Length of the rest of a line comment whose `//` has been read: up to and
/// with the next line feed, or all of `bytes` where there is none.
pub open spec fn comment_tail_len(bytes: Seq<u8>) -> nat
    decreases bytes.len(),
{
    if bytes.len() == 0 {
        0
    } else if bytes[0] == '\n' as u8 {
        1
    } else {
        1 + comment_tail_len(bytes.drop_first())
    }
}

/// Length of the run of line endings, `\n` or `\r\n`, at the start of `bytes`.
pub open spec fn line_endings_len(bytes: Seq<u8>) -> nat
    decreases bytes.len(),
{
    if bytes.len() >= 1 && bytes[0] == '\n' as u8 {
        1 + line_endings_len(bytes.skip(1))
    } else if bytes.len() >= 2 && bytes[0] == '\r' as u8 && bytes[1] == '\n' as u8 {
        2 + line_endings_len(bytes.skip(2))
    } else {
        0
    }
}

/// Length of the body of a string literal at the start of `bytes`: text bytes and
/// escape pairs, a backslash with an escapable byte.
pub open spec fn string_body_len(bytes: Seq<u8>) -> nat
    decreases bytes.len(),
{
    if bytes.len() == 0 {
        0
    } else if is_text(bytes[0]) {
        1 + string_body_len(bytes.drop_first())
    } else if bytes.len() >= 2 && bytes[0] == '\\' as u8 && is_escapable(bytes[1]) {
        2 + string_body_len(bytes.skip(2))
    } else {
        0
    }
}

/// True where `bytes` starts with the bytes of `word`.
pub open spec fn starts_with(bytes: Seq<u8>, word: &str) -> bool {
    word.spec_bytes().is_prefix_of(bytes)
}

/// True where `bytes` starts with `word` as a whole word: no identifier byte
/// follows it.
pub open spec fn starts_with_word(bytes: Seq<u8>, word: &str) -> bool {
    let n = word.spec_bytes().len();
    starts_with(bytes, word) && !(bytes.len() > n && is_word(bytes[n as int]))
}

/// True where `bytes` starts with the bytes of `word`, letters compared without
/// regard to case.
pub open spec fn starts_with_no_case(bytes: Seq<u8>, word: &str) -> bool {
    let w = word.spec_bytes();
    w.len() <= bytes.len() && forall|i: int|
        0 <= i < w.len() ==> lower(#[trigger] bytes[i]) == lower(w[i])
}

/// The lower-case form of an ASCII letter; any other byte as it is.
pub open spec fn lower(b: u8) -> u8 {
    if 'A' as u8 <= b <= 'Z' as u8 {
        (b + 32) as u8
    } else {
        b
    }
}

/// The blank space at the start of the input is skipped.
pub open spec fn spec_sp(input: SpanV) -> SpanV {
    input.skip(blank_len(input.fragment, false))
}

/// A run of line endings at the start of the input is skipped.
pub open spec fn spec_opt_line_ending(input: SpanV) -> SpanV {
    input.skip(line_endings_len(input.fragment))
}

/// A line comment: `//`, then the rest of the line.
pub open spec fn spec_comment(input: SpanV) -> Outcome<Seq<char>> {
    let bytes = input.fragment;
    if bytes.len() >= 2 && bytes[0] == '/' as u8 && bytes[1] == '/' as u8 {
        Outcome::Done { rest: input.skip(2 + comment_tail_len(bytes.skip(2))), value: ""@ }
    } else {
        Outcome::fail(input, Label::Comment)
    }
}


/// The bytes of a run of digits are digits.
pub proof fn lemma_digits_are_digits(bytes: Seq<u8>)
    ensures
        digits_len(bytes) <= bytes.len(),
        forall|j: int| 0 <= j < digits_len(bytes) ==> is_digit(#[trigger] bytes[j]),
    decreases bytes.len(),
{
    if bytes.len() > 0 && is_digit(bytes[0]) {
        let tail = bytes.drop_first();
        lemma_digits_are_digits(tail);
        assert forall|j: int| 0 <= j < digits_len(bytes) implies is_digit(#[trigger] bytes[j]) by {
            if j > 0 {
                assert(bytes[j] == tail[j - 1]);
            }
        }
    }
}

/// The bytes of a run of digits are ASCII.
pub proof fn lemma_digits_are_ascii(bytes: Seq<u8>)
    ensures
        digits_len(bytes) <= bytes.len(),
        forall|j: int| 0 <= j < digits_len(bytes) ==> #[trigger] bytes[j] <= 0x7f,
{
    lemma_digits_are_digits(bytes);
}

/// Where one text starts with another and both are well-formed UTF-8, the first
/// text has a character boundary where the second ends.
pub proof fn lemma_boundary_after_prefix(bytes: Seq<u8>, word: Seq<u8>)
    requires
        valid_utf8(bytes),
        valid_utf8(word),
        word.is_prefix_of(bytes),
    ensures
        is_char_boundary(bytes, word.len() as int),
    decreases word.len(),
{
    if word.len() > 0 {
        assert(bytes[0] == word[0]);
        let l = length_of_first_scalar(word);
        assert(l <= word.len());
        assert forall|i: int| 0 <= i < l implies bytes[i] == word[i] by {}
        assert(length_of_first_scalar(bytes) == l);
        let word_tail = pop_first_scalar(word);
        let tail = pop_first_scalar(bytes);
        assert(word_tail.is_prefix_of(tail)) by {
            assert(word_tail =~= tail.subrange(0, word_tail.len() as int));
        }
        lemma_boundary_after_prefix(tail, word_tail);
    }
}

/// Skips the blank space at the start of the input: blank bytes and line
/// comments.
pub fn skip_blank<'a>(input: Span<'a>) -> (rest: Span<'a>)
    ensures
        rest@ == spec_sp(input@),
{
    let b = input.bytes();
    let mut i: usize = 0;
    let mut in_comment = false;
    assert(b@.skip(0) =~= b@);
    while i < b.len() && (in_comment || is_blank_byte(b[i]) || (b[i] == '/' as u8 && i + 1 < b.len()
        && b[i + 1] == '/' as u8))
        invariant
            i <= b@.len(),
            blank_len(b@, false) == i + blank_len(b@.skip(i as int), in_comment),
            !in_comment && i > 0 ==> b@[i - 1] <= 0x7f,
        decreases b@.len() - i,
    {
        let ghost tail = b@.skip(i as int);
        assert(tail[0] == b@[i as int]);
        if in_comment {
            assert(tail.drop_first() =~= b@.skip(i + 1));
            in_comment = b[i] != '\n' as u8;
            i += 1;
        } else if is_blank_byte(b[i]) {
            assert(tail.drop_first() =~= b@.skip(i + 1));
            i += 1;
        } else {
            assert(tail[1] == b@[i + 1]);
            assert(tail.skip(2) =~= b@.skip(i + 2));
            in_comment = true;
            i += 2;
        }
    }
    proof {
        let tail = b@.skip(i as int);
        if i < b.len() {
            assert(tail[0] == b@[i as int]);
            if i + 1 < b.len() {
                assert(tail[1] == b@[i + 1]);
            }
        }
        assert(blank_len(tail, in_comment) == 0);
        input.lemma_valid();
        if i == 0 || i == b.len() {
            is_char_boundary_start_end_of_seq(b@);
        } else {
            lemma_boundary_after_ascii(b@, i as int);
        }
    }
    input.split(i).1
}

/// Skips blank space: blank bytes and line comments. It never fails and yields
/// the empty text.
pub fn sp<'a>(input: Span<'a>) -> (r: Res<'a, &'static str>)
    ensures
        outcome(r) == (Outcome::Done { rest: spec_sp(input@), value: ""@ }),
{
    Ok((skip_blank(input), ""))
}


/// Skips a run of line endings. It never fails and yields the empty text.
pub fn opt_line_ending<'a>(input: Span<'a>) -> (r: Res<'a, &'static str>)
    ensures
        outcome(r) == (Outcome::Done { rest: spec_opt_line_ending(input@), value: ""@ }),
{
    let b = input.bytes();
    let mut i: usize = 0;
    assert(b@.skip(0) =~= b@);
    while i < b.len() && (b[i] == '\n' as u8 || (b[i] == '\r' as u8 && i + 1 < b.len() && b[i + 1]
        == '\n' as u8))
        invariant
            i <= b@.len(),
            line_endings_len(b@) == i + line_endings_len(b@.skip(i as int)),
            i > 0 ==> b@[i - 1] <= 0x7f,
        decreases b@.len() - i,
    {
        let ghost tail = b@.skip(i as int);
        assert(tail[0] == b@[i as int]);
        if b[i] == '\n' as u8 {
            assert(tail.skip(1) =~= b@.skip(i + 1));
            i += 1;
        } else {
            assert(tail[1] == b@[i + 1]);
            assert(tail.skip(2) =~= b@.skip(i + 2));
            i += 2;
        }
    }
    proof {
        let tail = b@.skip(i as int);
        if i < b.len() {
            assert(tail[0] == b@[i as int]);
            if i + 1 < b.len() {
                assert(tail[1] == b@[i + 1]);
            }
        }
        input.lemma_valid();
        if i == 0 {
            is_char_boundary_start_end_of_seq(b@);
        } else {
            lemma_boundary_after_ascii(b@, i as int);
        }
    }
    Ok((input.split(i).1, ""))
}

/// Parses a line comment and discards it: `//`, then the rest of the line.
pub fn parse_comment<'a>(input: Span<'a>) -> (r: Res<'a, &'static str>)
    ensures
        outcome(r) == spec_comment(input@),
{
    let b = input.bytes();
    if !(b.len() >= 2 && b[0] == '/' as u8 && b[1] == '/' as u8) {
        return fail(input, Label::Comment);
    }
    let mut i: usize = 2;
    let mut open = true;
    while i < b.len() && open
        invariant
            2 <= i <= b@.len(),
            open ==> comment_tail_len(b@.skip(2)) == (i - 2) + comment_tail_len(b@.skip(i as int)),
            !open ==> comment_tail_len(b@.skip(2)) == i - 2,
            !open ==> b@[i - 1] <= 0x7f,
        decreases b@.len() - i,
    {
        let ghost tail = b@.skip(i as int);
        assert(tail[0] == b@[i as int]);
        assert(tail.drop_first() =~= b@.skip(i + 1));
        if b[i] == '\n' as u8 {
            open = false;
        }
        i += 1;
    }
    proof {
        input.lemma_valid();
        if open {
            assert(b@.skip(i as int).len() == 0);
            is_char_boundary_start_end_of_seq(b@);
        } else {
            lemma_boundary_after_ascii(b@, i as int);
        }
    }
    Ok((input.split(i).1, ""))
}

/// Tells whether the input starts with `word`.
pub fn has_prefix<'a>(input: &Span<'a>, word: &str) -> (r: bool)
    ensures
        r == starts_with(input@.fragment, word),
        r ==> word.spec_bytes().len() <= input@.len(),
        r ==> is_char_boundary(input@.fragment, word.spec_bytes().len() as int),
{
    let b = input.bytes();
    let w = word.as_bytes();
    if w.len() > b.len() {
        return false;
    }
    let mut i: usize = 0;
    while i < w.len()
        invariant
            i <= w@.len() <= b@.len(),
            w@ == word.spec_bytes(),
            b@ == input@.fragment,
            forall|j: int| 0 <= j < i ==> w@[j] == b@[j],
        decreases w@.len() - i,
    {
        if w[i] != b[i] {
            assert(w@[i as int] != b@.subrange(0, w@.len() as int)[i as int]);
            return false;
        }
        i += 1;
    }
    proof {
        assert(w@ =~= b@.subrange(0, w@.len() as int));
        input.lemma_valid();
        encode_utf8_valid_utf8(word@);
        lemma_boundary_after_prefix(b@, w@);
    }
    true
}

/// Tells whether the input starts with `word` as a whole word.
pub fn has_word<'a>(input: &Span<'a>, word: &str) -> (r: bool)
    ensures
        r == starts_with_word(input@.fragment, word),
        r ==> word.spec_bytes().len() <= input@.len(),
        r ==> is_char_boundary(input@.fragment, word.spec_bytes().len() as int),
{
    if !has_prefix(input, word) {
        return false;
    }
    let b = input.bytes();
    let n = word.as_bytes().len();
    !(b.len() > n && is_word_byte(b[n]))
}

/// The lower-case form of an ASCII letter; any other byte as it is.
#[verifier::when_used_as_spec(lower)]
pub fn lower_byte(b: u8) -> (r: u8)
    ensures
        r == lower(b),
{
    if 'A' as u8 <= b && b <= 'Z' as u8 {
        b + 32
    } else {
        b
    }
}

/// Tells whether the input starts with the ASCII text `word`, letters compared
/// without regard to case.
pub fn has_prefix_no_case<'a>(input: &Span<'a>, word: &str) -> (r: bool)
    requires
        word.is_ascii(),
    ensures
        r == starts_with_no_case(input@.fragment, word),
        r ==> word.spec_bytes().len() <= input@.len(),
        r ==> is_char_boundary(input@.fragment, word.spec_bytes().len() as int),
{
    let b = input.bytes();
    let w = word.as_bytes();
    if w.len() > b.len() {
        return false;
    }
    let mut i: usize = 0;
    while i < w.len()
        invariant
            i <= w@.len() <= b@.len(),
            w@ == word.spec_bytes(),
            b@ == input@.fragment,
            forall|j: int| 0 <= j < i ==> lower(#[trigger] b@[j]) == lower(w@[j]),
        decreases w@.len() - i,
    {
        if lower_byte(w[i]) != lower_byte(b[i]) {
            return false;
        }
        i += 1;
    }
    proof {
        input.lemma_valid();
        if w.len() == 0 {
            is_char_boundary_start_end_of_seq(b@);
        } else {
            let last = w@.len() - 1;
            is_ascii_chars_encode_utf8(word@);
            assert(w@[last] <= 0x7f);
            assert(lower(b@[last]) == lower(w@[last]));
            lemma_boundary_after_ascii(b@, w@.len() as int);
        }
    }
    true
}

/// Length of the run of digits at the start of the input.
pub fn digits_run<'a>(input: &Span<'a>) -> (n: usize)
    ensures
        n == digits_len(input@.fragment),
        n <= input@.len(),
        is_char_boundary(input@.fragment, n as int),
{
    let b = input.bytes();
    let mut i: usize = 0;
    assert(b@.skip(0) =~= b@);
    while i < b.len() && is_digit_byte(b[i])
        invariant
            i <= b@.len(),
            digits_len(b@) == i + digits_len(b@.skip(i as int)),
            i > 0 ==> b@[i - 1] <= 0x7f,
        decreases b@.len() - i,
    {
        assert(b@.skip(i as int)[0] == b@[i as int]);
        assert(b@.skip(i as int).drop_first() =~= b@.skip(i + 1));
        i += 1;
    }
    proof {
        if i < b.len() {
            assert(b@.skip(i as int)[0] == b@[i as int]);
        }
        input.lemma_valid();
        if i == 0 {
            is_char_boundary_start_end_of_seq(b@);
        } else {
            lemma_boundary_after_ascii(b@, i as int);
        }
    }
    i
}

/// Length of the identifier at the start of the input, 0 where none starts
/// there.
pub fn identifier_run<'a>(input: &Span<'a>) -> (n: usize)
    ensures
        n == identifier_len(input@.fragment),
        n <= input@.len(),
        is_char_boundary(input@.fragment, n as int),
{
    let b = input.bytes();
    proof {
        input.lemma_valid();
        is_char_boundary_start_end_of_seq(b@);
    }
    if b.len() == 0 || !(is_alpha_byte(b[0]) || b[0] == '_' as u8) {
        return 0;
    }
    let mut i: usize = 0;
    assert(b@.skip(0) =~= b@);
    while i < b.len() && is_word_byte(b[i])
        invariant
            i <= b@.len(),
            word_len(b@) == i + word_len(b@.skip(i as int)),
            i > 0 ==> b@[i - 1] <= 0x7f,
        decreases b@.len() - i,
    {
        assert(b@.skip(i as int)[0] == b@[i as int]);
        assert(b@.skip(i as int).drop_first() =~= b@.skip(i + 1));
        i += 1;
    }
    proof {
        if i < b.len() {
            assert(b@.skip(i as int)[0] == b@[i as int]);
        }
        if i > 0 {
            lemma_boundary_after_ascii(b@, i as int);
        }
    }
    i
}

/// Length of the body of a string literal at the start of the input.
pub fn string_body_run<'a>(input: &Span<'a>) -> (n: usize)
    ensures
        n == string_body_len(input@.fragment),
        n <= input@.len(),
        is_char_boundary(input@.fragment, n as int),
{
    let b = input.bytes();
    let mut i: usize = 0;
    assert(b@.skip(0) =~= b@);
    while i < b.len() && (is_text_byte(b[i]) || (b[i] == '\\' as u8 && i + 1 < b.len()
        && is_escapable_byte(b[i + 1])))
        invariant
            i <= b@.len(),
            string_body_len(b@) == i + string_body_len(b@.skip(i as int)),
            i > 0 ==> b@[i - 1] <= 0x7f,
        decreases b@.len() - i,
    {
        let ghost tail = b@.skip(i as int);
        assert(tail[0] == b@[i as int]);
        if is_text_byte(b[i]) {
            assert(tail.drop_first() =~= b@.skip(i + 1));
            i += 1;
        } else {
            assert(tail[1] == b@[i + 1]);
            assert(tail.skip(2) =~= b@.skip(i + 2));
            i += 2;
        }
    }
    proof {
        let tail = b@.skip(i as int);
        if i < b.len() {
            assert(tail[0] == b@[i as int]);
            if i + 1 < b.len() {
                assert(tail[1] == b@[i + 1]);
            }
        }
        input.lemma_valid();
        if i == 0 {
            is_char_boundary_start_end_of_seq(b@);
        } else {
            lemma_boundary_after_ascii(b@, i as int);
        }
    }
    i
}


/// Splits `word` off the start of the input, where the input starts with it.
pub fn strip_prefix<'a>(input: Span<'a>, word: &str) -> (r: Option<(Span<'a>, Span<'a>)>)
    ensures
        r is Some == starts_with(input@.fragment, word),
        r matches Some((token, rest)) ==> token@ == input@.take(word.spec_bytes().len())
            && rest@ == input@.skip(word.spec_bytes().len()),
{
    if has_prefix(&input, word) {
        let _ = input.len();
        Some(input.split(word.len()))
    } else {
        None
    }
}

/// Splits `word` off the start of the input, where the input starts with it as
/// a whole word.
pub fn strip_word<'a>(input: Span<'a>, word: &str) -> (r: Option<(Span<'a>, Span<'a>)>)
    ensures
        r is Some == starts_with_word(input@.fragment, word),
        r matches Some((token, rest)) ==> token@ == input@.take(word.spec_bytes().len())
            && rest@ == input@.skip(word.spec_bytes().len()),
{
    if has_word(&input, word) {
        let _ = input.len();
        Some(input.split(word.len()))
    } else {
        None
    }
}

/// Splits the ASCII text `word` off the start of the input, where the input
/// starts with it in any mix of upper and lower case.
pub fn strip_prefix_no_case<'a>(input: Span<'a>, word: &str) -> (r: Option<(Span<'a>, Span<'a>)>)
    requires
        word.is_ascii(),
    ensures
        r is Some == starts_with_no_case(input@.fragment, word),
        r matches Some((token, rest)) ==> token@ == input@.take(word.spec_bytes().len())
            && rest@ == input@.skip(word.spec_bytes().len()),
{
    if has_prefix_no_case(&input, word) {
        let _ = input.len();
        Some(input.split(word.len()))
    } else {
        None
    }
}

} // verus!
