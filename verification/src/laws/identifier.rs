//! Identifiers and reserved words.

use vstd::prelude::*;
use vstd::string::*;
use vstd::utf8::*;
use crate::ast::{ExpressionV, ExprOrVarnameV, LiteralV, PrefixExprV};
use crate::error::{Label, Outcome};
use crate::grammar::expression::{
    flat_items, spec_expression, spec_expression2, spec_flatexp, spec_head, spec_parenthesized,
    spec_prefixexpr, spec_prefixexpr2, Expression2V, ExprHeadV,
};
use crate::laws::precedence::lemma_single_operand_resolves;
use crate::laws::{
    lemma_no_blank, lemma_no_operator_at_end, lemma_no_suffix_at_end, lemma_no_unary_operator,
    lemma_word_len_whole,
};
use crate::lexical::{identifier_len, is_word, is_word_start};
use crate::literals::{spec_variable, spec_variable_raw, text_token};
use crate::precedence::OpOrExpV;
use crate::span::SpanV;
use crate::tokens::is_keyword;

verus! {

/// True for the text of an identifier: a letter or an underscore, then
/// letters, digits and underscores.
pub open spec fn is_identifier(text: Seq<u8>) -> bool {
    &&& text.len() > 0
    &&& is_word_start(text[0])
    &&& forall|i: int| 0 <= i < text.len() ==> is_word(#[trigger] text[i])
}

/// The reference to the variable whose name is the text of `name`.
pub open spec fn variable_reference(name: SpanV) -> ExpressionV {
    ExpressionV::PrefixExpr(
        Box::new(
            PrefixExprV {
                prefix: ExprOrVarnameV::Varname(LiteralV::Variable(text_token(name))),
                suffix_chain: Seq::empty(),
            },
        ),
    )
}

/// An identifier that is no reserved word, parsed as an expression, is a
/// reference to the variable of that name, and nothing of the input is left.
pub proof fn law_identifier_is_variable_reference(input: SpanV)
    requires
        input.wf(),
        is_identifier(input.fragment),
        !is_keyword(input.fragment),
    ensures
        spec_expression(input) == (Outcome::Done {
            rest: input.skip(input.len()),
            value: variable_reference(input),
        }),
{
    reveal(spec_variable);
    reveal(spec_variable_raw);
    let n = input.len();
    let rest = input.skip(n);
    lemma_no_blank(input);
    lemma_no_unary_operator(input);
    lemma_word_len_whole(input.fragment);
    assert(identifier_len(input.fragment) == n);
    assert(input.take(n) == input) by {
        assert(input.fragment.take(n as int) =~= input.fragment);
    }
    assert(rest.wf() && rest.len() == 0);
    lemma_no_suffix_at_end(rest);
    lemma_no_operator_at_end(rest);
    let name = text_token(input);
    let prefix = ExprOrVarnameV::Varname(LiteralV::Variable(name));
    assert(spec_variable(input) == Outcome::Done { rest, value: name });
    assert(spec_parenthesized(input).recoverable());
    assert(spec_prefixexpr2(input) == Outcome::Done { rest, value: prefix });
    let p = PrefixExprV { prefix, suffix_chain: Seq::empty() };
    assert(spec_prefixexpr(input) == Outcome::Done { rest, value: p });
    assert(spec_expression2(input) == Outcome::Done { rest, value: Expression2V::PrefixExpr(p) });
    let head = ExprHeadV { un_ops: Seq::empty(), expr: Expression2V::PrefixExpr(p) };
    assert(spec_head(input) == Outcome::Done { rest, value: head });
    assert(flat_items(head, Seq::empty()) =~= seq![OpOrExpV::Exp(variable_reference(input))]);
    assert(spec_flatexp(input) == Outcome::Done {
        rest,
        value: seq![OpOrExpV::Exp(variable_reference(input))],
    });
    lemma_single_operand_resolves(variable_reference(input));
}

/// Every reserved word has the form of an identifier.
pub proof fn lemma_reserved_words_are_words(text: Seq<u8>)
    requires
        is_keyword(text),
    ensures
        is_identifier(text),
{
    assert(is_identifier("return".spec_bytes())) by {
        reveal_strlit("return");
        is_ascii_chars_encode_utf8("return"@);
    }
    assert(is_identifier("class".spec_bytes())) by {
        reveal_strlit("class");
        is_ascii_chars_encode_utf8("class"@);
    }
    assert(is_identifier("end".spec_bytes())) by {
        reveal_strlit("end");
        is_ascii_chars_encode_utf8("end"@);
    }
    assert(is_identifier("fun".spec_bytes())) by {
        reveal_strlit("fun");
        is_ascii_chars_encode_utf8("fun"@);
    }
    assert(is_identifier("do".spec_bytes())) by {
        reveal_strlit("do");
        is_ascii_chars_encode_utf8("do"@);
    }
    assert(is_identifier("while".spec_bytes())) by {
        reveal_strlit("while");
        is_ascii_chars_encode_utf8("while"@);
    }
    assert(is_identifier("for".spec_bytes())) by {
        reveal_strlit("for");
        is_ascii_chars_encode_utf8("for"@);
    }
    assert(is_identifier("if".spec_bytes())) by {
        reveal_strlit("if");
        is_ascii_chars_encode_utf8("if"@);
    }
    assert(is_identifier("let".spec_bytes())) by {
        reveal_strlit("let");
        is_ascii_chars_encode_utf8("let"@);
    }
    assert(is_identifier("in".spec_bytes())) by {
        reveal_strlit("in");
        is_ascii_chars_encode_utf8("in"@);
    }
    assert(is_identifier("else".spec_bytes())) by {
        reveal_strlit("else");
        is_ascii_chars_encode_utf8("else"@);
    }
    assert(is_identifier("external".spec_bytes())) by {
        reveal_strlit("external");
        is_ascii_chars_encode_utf8("external"@);
    }
    assert(is_identifier("as".spec_bytes())) by {
        reveal_strlit("as");
        is_ascii_chars_encode_utf8("as"@);
    }
    assert(is_identifier("import".spec_bytes())) by {
        reveal_strlit("import");
        is_ascii_chars_encode_utf8("import"@);
    }
}

/// A reserved word, parsed as an identifier, fails: it has the form of an
/// identifier, and is refused for being reserved.
pub proof fn law_reserved_word_is_no_identifier(input: SpanV)
    requires
        is_keyword(input.fragment),
    ensures
        spec_variable_raw(input) == Outcome::<SpanV>::fail(input, Label::Keyword),
        spec_variable(input) is Failed,
        spec_variable(input).recoverable(),
{
    reveal(spec_variable);
    reveal(spec_variable_raw);
    lemma_reserved_words_are_words(input.fragment);
    lemma_word_len_whole(input.fragment);
    assert(input.fragment.take(input.len() as int) =~= input.fragment);
}

} // verus!
