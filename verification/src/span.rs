//! Position-tracking views over source text.
//!
//! A [`Span`] is a slice of the source together with the byte offset, the line
//! and the column at which the slice starts. Spans are never mutated; the
//! parsers consume a span by splitting it into the part they recognised and the
//! part that is left. Offsets, lines and columns are counters that stop at the
//! largest value of their integer type, so no operation on a span can fail.

use vstd::prelude::*;
use vstd::string::*;
use vstd::utf8::*;
use vstd::std_specs::cmp::PartialEqSpecImpl;

verus! {

/// Mathematical model of a span: the bytes it covers and where they start.
/// Lines and columns are counted from 1, and a column is one byte wide.
pub struct SpanV {
    pub fragment: Seq<u8>,
    pub offset: nat,
    pub line: nat,
    pub column: nat,
}

/// Number of line feeds in `bytes`.
pub open spec fn count_newlines(bytes: Seq<u8>) -> nat
    decreases bytes.len(),
{
    if bytes.len() == 0 {
        0
    } else {
        count_newlines(bytes.drop_last()) + if bytes.last() == 10u8 {
            1nat
        } else {
            0nat
        }
    }
}

/// The column after `bytes`, where `bytes` starts at the column `column`: every
/// byte is one column, and a line feed starts again at column 1. The count stops
/// at the largest `usize`.
pub open spec fn column_after(column: nat, bytes: Seq<u8>) -> nat
    decreases bytes.len(),
{
    if bytes.len() == 0 {
        column
    } else if bytes.last() == 10u8 {
        1
    } else {
        saturate(column_after(column, bytes.drop_last()) + 1, usize::MAX as nat)
    }
}

/// `n`, held at `max` where it would pass it.
pub open spec fn saturate(n: nat, max: nat) -> nat {
    if n > max {
        max
    } else {
        n
    }
}

impl SpanV {
    /// The span of a whole source text.
    pub open spec fn start(text: Seq<u8>) -> SpanV {
        SpanV { fragment: text, offset: 0, line: 1, column: 1 }
    }

    pub open spec fn len(self) -> nat {
        self.fragment.len()
    }

    /// True where the offset, the line and the column are within the range
    /// of their counters, as they are in every span that the parser works on.
    pub open spec fn wf(self) -> bool {
        self.offset <= usize::MAX && self.line <= u32::MAX && self.column <= usize::MAX
    }

    /// The covered bytes read as text.
    pub open spec fn text(self) -> Seq<char> {
        decode_utf8(self.fragment)
    }

    /// `n`, or the length of the span where `n` is beyond it.
    pub open spec fn clamp(self, n: nat) -> int {
        if n > self.fragment.len() {
            self.fragment.len() as int
        } else {
            n as int
        }
    }

    /// The first `n` bytes, at the position of `self`.
    pub open spec fn take(self, n: nat) -> SpanV {
        SpanV {
            fragment: self.fragment.take(self.clamp(n)),
            offset: self.offset,
            line: self.line,
            column: self.column,
        }
    }

    /// What is left after the first `n` bytes.
    pub open spec fn skip(self, n: nat) -> SpanV {
        let n = self.clamp(n);
        SpanV {
            fragment: self.fragment.skip(n),
            offset: saturate(self.offset + n as nat, usize::MAX as nat),
            line: saturate(
                self.line + count_newlines(self.fragment.take(n)),
                u32::MAX as nat,
            ),
            column: column_after(saturate(self.column, usize::MAX as nat), self.fragment.take(n)),
        }
    }
}

/// In well-formed UTF-8 the position after an ASCII byte starts a character.
pub proof fn lemma_boundary_after_ascii(bytes: Seq<u8>, n: int)
    requires
        valid_utf8(bytes),
        0 < n <= bytes.len(),
        bytes[n - 1] <= 0x7f,
    ensures
        is_char_boundary(bytes, n),
{
    is_char_boundary_iff_not_is_continuation_byte(bytes, n - 1);
    is_char_boundary_start_end_of_seq(bytes);
    if n < bytes.len() {
        valid_utf8_split(bytes, n - 1);
        let tail = bytes.subrange(n - 1, bytes.len() as int);
        assert(tail[0] == bytes[n - 1]);
        assert(tail[1] == bytes[n]);
        assert(valid_utf8(pop_first_scalar(tail)));
        let rest = pop_first_scalar(tail);
        assert(rest[0] == bytes[n]);
        assert(valid_first_scalar(rest));
        is_char_boundary_iff_not_is_continuation_byte(bytes, n);
    }
}

/// Counting line feeds goes byte by byte from the front.
pub proof fn lemma_count_newlines_step(bytes: Seq<u8>, i: int)
    requires
        0 <= i < bytes.len(),
    ensures
        count_newlines(bytes.take(i + 1)) == count_newlines(bytes.take(i)) + if bytes[i] == 10u8 {
            1nat
        } else {
            0nat
        },
{
    assert(bytes.take(i + 1).drop_last() =~= bytes.take(i));
}

/// Counting columns goes byte by byte from the front.
pub proof fn lemma_column_after_step(column: nat, bytes: Seq<u8>, i: int)
    requires
        0 <= i < bytes.len(),
    ensures
        column_after(column, bytes.take(i + 1)) == if bytes[i] == 10u8 {
            1nat
        } else {
            saturate(column_after(column, bytes.take(i)) + 1, usize::MAX as nat)
        },
{
    assert(bytes.take(i + 1).drop_last() =~= bytes.take(i));
}

/// No more line feeds than bytes.
pub proof fn lemma_count_newlines_bound(bytes: Seq<u8>)
    ensures
        count_newlines(bytes) <= bytes.len(),
    decreases bytes.len(),
{
    if bytes.len() > 0 {
        lemma_count_newlines_bound(bytes.drop_last());
    }
}

/// A slice of the source text, with the place where it starts.
#[derive(Clone, Copy, Debug)]
pub struct Span<'a> {
    fragment: &'a str,
    offset: usize,
    line: u32,
    column: usize,
}

impl<'a> View for Span<'a> {
    type V = SpanV;

    closed spec fn view(&self) -> SpanV {
        SpanV {
            fragment: self.fragment.spec_bytes(),
            offset: self.offset as nat,
            line: self.line as nat,
            column: self.column as nat,
        }
    }
}

impl<'a> DeepView for Span<'a> {
    type V = SpanV;

    open spec fn deep_view(&self) -> SpanV {
        self.view()
    }
}

fn count_line_feeds(bytes: &[u8], column: usize) -> (r: (usize, usize))
    ensures
        r.0 == count_newlines(bytes@),
        r.1 == column_after(column as nat, bytes@),
{
    let mut n: usize = 0;
    let mut c: usize = column;
    let mut i: usize = 0;
    assert(bytes@.take(0) =~= Seq::<u8>::empty());
    while i < bytes.len()
        invariant
            i <= bytes@.len(),
            n == count_newlines(bytes@.take(i as int)),
            c == column_after(column as nat, bytes@.take(i as int)),
            n <= i,
        decreases bytes@.len() - i,
    {
        proof {
            lemma_count_newlines_step(bytes@, i as int);
            lemma_column_after_step(column as nat, bytes@, i as int);
        }
        if bytes[i] == 10 {
            n += 1;
            c = 1;
        } else if c < usize::MAX {
            c += 1;
        }
        i += 1;
    }
    assert(bytes@.take(i as int) =~= bytes@);
    (n, c)
}

impl<'a> Span<'a> {
    /// The span of a whole source text: offset 0, line 1.
    pub fn new(program: &'a str) -> (s: Span<'a>)
        ensures
            s@ == SpanV::start(program.spec_bytes()),
    {
        Span { fragment: program, offset: 0, line: 1, column: 1 }
    }

    /// The text that the span covers.
    pub fn fragment(&self) -> (f: &'a str)
        ensures
            f.spec_bytes() == self@.fragment,
            f@ == self@.text(),
    {
        proof {
            encode_utf8_decode_utf8(self.fragment@);
        }
        self.fragment
    }

    /// Byte offset of the span's start in the source text.
    pub fn location_offset(&self) -> (n: usize)
        ensures
            n == self@.offset,
    {
        self.offset
    }

    /// Line of the span's start, counted from 1.
    pub fn location_line(&self) -> (n: u32)
        ensures
            n == self@.line,
    {
        self.line
    }

    /// Column of the span's start in its line, counted from 1, one column for
    /// a byte.
    pub fn get_column(&self) -> (n: usize)
        ensures
            n == self@.column,
    {
        self.column
    }

    /// Length of the covered text in bytes.
    pub fn len(&self) -> (n: usize)
        ensures
            n == self@.len(),
    {
        self.fragment.as_bytes().len()
    }

    /// The bytes of the covered text.
    pub fn bytes(&self) -> (b: &'a [u8])
        ensures
            b@ == self@.fragment,
    {
        self.fragment.as_bytes()
    }

    /// The text of a span is well-formed UTF-8.
    pub proof fn lemma_valid(self)
        ensures
            valid_utf8(self@.fragment),
    {
        encode_utf8_valid_utf8(self.fragment@);
    }

    /// Splits the span after its first `n` bytes into the part before and the
    /// part after.
    pub fn split(self, n: usize) -> (r: (Span<'a>, Span<'a>))
        requires
            n <= self@.len(),
            is_char_boundary(self@.fragment, n as int),
        ensures
            r.0@ == self@.take(n as nat),
            r.1@ == self@.skip(n as nat),
    {
        let (head, tail) = self.fragment.split_at(n);
        let (feeds, column) = count_line_feeds(head.as_bytes(), self.column);
        proof {
            lemma_count_newlines_bound(head.spec_bytes());
        }
        let offset = if n > usize::MAX - self.offset {
            usize::MAX
        } else {
            self.offset + n
        };
        let line = if feeds > (u32::MAX - self.line) as usize {
            u32::MAX
        } else {
            self.line + feeds as u32
        };
        (
            Span { fragment: head, offset: self.offset, line: self.line, column: self.column },
            Span { fragment: tail, offset, line, column },
        )
    }
}

impl<'a> PartialEq for Span<'a> {
    /// Spans are equal when they cover the same text, wherever it stands.
    fn eq(&self, other: &Span<'a>) -> (r: bool) {
        let a = self.fragment.as_bytes();
        let b = other.fragment.as_bytes();
        if a.len() != b.len() {
            return false;
        }
        let mut i: usize = 0;
        while i < a.len()
            invariant
                i <= a@.len(),
                a@ == self@.fragment,
                b@ == other@.fragment,
                a@.len() == b@.len(),
                forall|j: int| 0 <= j < i ==> a@[j] == b@[j],
            decreases a@.len() - i,
        {
            if a[i] != b[i] {
                assert(self@.fragment[i as int] != other@.fragment[i as int]);
                return false;
            }
            i += 1;
        }
        assert(a@ =~= b@);
        true
    }
}

impl<'a> PartialEqSpecImpl for Span<'a> {
    open spec fn obeys_eq_spec() -> bool {
        true
    }

    open spec fn eq_spec(&self, other: &Span<'a>) -> bool {
        self@.fragment == other@.fragment
    }
}

} // verus!
