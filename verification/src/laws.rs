//! What holds of the grammar on all inputs.
//!
//! [`identifier`] is about identifiers and reserved words, [`precedence`] about
//! the tree of a flat expression, [`block`] about blocks and whole source
//! texts.

pub mod block;
pub mod identifier;
pub mod precedence;

use vstd::prelude::*;
use vstd::string::*;
use vstd::utf8::*;
use crate::ast::ExprSuffixV;
use crate::error::Outcome;
use crate::grammar::expression::{
    spec_bin_op_chain, spec_prefixexpr3, spec_suffixes, spec_unary_operators, ExprHeadV,
};
use crate::lexical::{is_word, is_word_start, spec_sp, starts_with, starts_with_word, word_len};
use crate::span::SpanV;
use crate::tokens::{
    operator_at, spec_binary_operator, spec_unary_operator, unary_operator_at, Operator, UnOperator,
};

verus! {

/// A text of identifier bytes is one run of identifier bytes.
pub proof fn lemma_word_len_whole(text: Seq<u8>)
    requires
        forall|i: int| 0 <= i < text.len() ==> is_word(#[trigger] text[i]),
    ensures
        word_len(text) == text.len(),
    decreases text.len(),
{
    if text.len() > 0 {
        let tail = text.drop_first();
        assert forall|i: int| 0 <= i < tail.len() implies is_word(#[trigger] tail[i]) by {
            assert(tail[i] == text[i + 1]);
        }
        lemma_word_len_whole(tail);
    }
}

/// Skipping no byte of a span leaves the span.
pub proof fn lemma_skip_nothing(input: SpanV)
    requires
        input.wf(),
    ensures
        input.skip(0) == input,
{
    assert(input.fragment.skip(0) =~= input.fragment);
    assert(input.fragment.take(0) =~= Seq::<u8>::empty());
}

/// No blank space stands before the start of an identifier or at the end of
/// the input.
pub proof fn lemma_no_blank(input: SpanV)
    requires
        input.wf(),
        input.len() == 0 || is_word_start(input.fragment[0]),
    ensures
        spec_sp(input) == input,
{
    lemma_skip_nothing(input);
}

/// The bytes of a text of one ASCII character.
pub proof fn lemma_one_byte_word(word: &str, c: char)
    requires
        word@.len() == 1,
        word@[0] == c,
        c as u32 <= 0x7f,
    ensures
        word.spec_bytes() == seq![c as u8],
{
    is_ascii_chars_encode_utf8(word@);
    assert(word.spec_bytes() =~= seq![c as u8]);
}

/// No unary operator stands before the start of an identifier or at the end
/// of the input.
pub proof fn lemma_no_unary_operator(input: SpanV)
    requires
        input.wf(),
        input.len() == 0 || is_word_start(input.fragment[0]),
    ensures
        spec_unary_operators(input, Seq::empty()) == (Outcome::Done {
            rest: input,
            value: Seq::<UnOperator>::empty(),
        }),
{
    reveal(spec_unary_operator);
    reveal_strlit("+");
    reveal_strlit("-");
    lemma_one_byte_word("+", '+');
    lemma_one_byte_word("-", '-');
    lemma_no_blank(input);
    let bytes = input.fragment;
    if starts_with(bytes, "+") {
        assert(bytes[0] == "+".spec_bytes()[0]);
    }
    if starts_with(bytes, "-") {
        assert(bytes[0] == "-".spec_bytes()[0]);
    }
    assert(unary_operator_at(bytes) is None);
}

/// At the end of the input no word starts.
pub proof fn lemma_nothing_starts_no_input(bytes: Seq<u8>, word: &str)
    requires
        bytes.len() == 0,
        word@.len() > 0,
    ensures
        !starts_with(bytes, word),
        !starts_with_word(bytes, word),
{
    assert(encode_utf8(word@).len() > 0);
}

/// At the end of the input the chain of a flat expression is empty.
pub proof fn lemma_no_operator_at_end(input: SpanV)
    requires
        input.wf(),
        input.len() == 0,
    ensures
        spec_bin_op_chain(input) == (Outcome::Done {
            rest: input,
            value: Seq::<(Operator, ExprHeadV)>::empty(),
        }),
{
    lemma_no_blank(input);
    let bytes = input.fragment;
    assert(operator_at(bytes) is None) by {
        assert(!starts_with(bytes, "==")) by {
            reveal_strlit("==");
            lemma_nothing_starts_no_input(bytes, "==");
        }
        assert(!starts_with(bytes, "!=")) by {
            reveal_strlit("!=");
            lemma_nothing_starts_no_input(bytes, "!=");
        }
        assert(!starts_with(bytes, "<=")) by {
            reveal_strlit("<=");
            lemma_nothing_starts_no_input(bytes, "<=");
        }
        assert(!starts_with(bytes, ">=")) by {
            reveal_strlit(">=");
            lemma_nothing_starts_no_input(bytes, ">=");
        }
        assert(!starts_with(bytes, "<")) by {
            reveal_strlit("<");
            lemma_nothing_starts_no_input(bytes, "<");
        }
        assert(!starts_with(bytes, ">")) by {
            reveal_strlit(">");
            lemma_nothing_starts_no_input(bytes, ">");
        }
        assert(!starts_with(bytes, "+")) by {
            reveal_strlit("+");
            lemma_nothing_starts_no_input(bytes, "+");
        }
        assert(!starts_with(bytes, "-")) by {
            reveal_strlit("-");
            lemma_nothing_starts_no_input(bytes, "-");
        }
        assert(!starts_with(bytes, "*")) by {
            reveal_strlit("*");
            lemma_nothing_starts_no_input(bytes, "*");
        }
        assert(!starts_with(bytes, "/")) by {
            reveal_strlit("/");
            lemma_nothing_starts_no_input(bytes, "/");
        }
        assert(!starts_with(bytes, "^")) by {
            reveal_strlit("^");
            lemma_nothing_starts_no_input(bytes, "^");
        }
        assert(!starts_with(bytes, "%")) by {
            reveal_strlit("%");
            lemma_nothing_starts_no_input(bytes, "%");
        }
        assert(!starts_with_word(bytes, "and")) by {
            reveal_strlit("and");
            lemma_nothing_starts_no_input(bytes, "and");
        }
        assert(!starts_with_word(bytes, "or")) by {
            reveal_strlit("or");
            lemma_nothing_starts_no_input(bytes, "or");
        }
    }
    assert(spec_binary_operator(input) is Failed) by {
        reveal(spec_binary_operator);
    }
}

/// At the end of the input no suffix follows.
pub proof fn lemma_no_suffix_at_end(input: SpanV)
    requires
        input.wf(),
        input.len() == 0,
    ensures
        spec_suffixes(input, Seq::empty()) == (Outcome::Done {
            rest: input,
            value: Seq::<ExprSuffixV>::empty(),
        }),
{
    lemma_no_blank(input);
    assert(spec_prefixexpr3(input).recoverable());
}

} // verus!
