//! Blocks and whole source texts.

use vstd::prelude::*;
use vstd::string::*;
use crate::ast::{BlockV, StatementV};
use crate::error::{Label, Outcome};
use crate::grammar::expression::{spec_parenthesized, spec_prefixexpr, spec_prefixexpr2};
use crate::grammar::statement::{
    spec_assignment, spec_block, spec_class, spec_class_name, spec_condition, spec_for,
    spec_function, spec_function_call, spec_function_name, spec_if, spec_import, spec_iter_item,
    spec_lassignment, spec_return_stmt, spec_source, spec_statement, spec_statements, spec_while,
};
use crate::laws::{lemma_no_blank, lemma_nothing_starts_no_input, lemma_skip_nothing};
use crate::lexical::{spec_opt_line_ending, spec_sp};
use crate::literals::{spec_variable, spec_variable_raw};
use crate::span::SpanV;
use crate::tokens::spec_keyword;

verus! {

proof fn lemma_no_word_at_end(input: SpanV, word: &str, label: Label)
    requires
        input.wf(),
        input.len() == 0,
        word@.len() > 0,
    ensures
        spec_keyword(spec_sp(input), word, label) == Outcome::<SpanV>::fail(input, label),
{
    lemma_no_blank(input);
    lemma_nothing_starts_no_input(input.fragment, word);
}

proof fn lemma_no_prefix_expression_at_end(input: SpanV)
    requires
        input.wf(),
        input.len() == 0,
    ensures
        spec_prefixexpr(input).recoverable(),
{
    reveal(spec_variable);
    reveal(spec_variable_raw);
    lemma_no_blank(input);
    assert(spec_parenthesized(input).recoverable());
    assert(spec_variable(input).recoverable());
    assert(spec_prefixexpr2(input).recoverable());
}

proof fn lemma_no_statement_at_end(input: SpanV)
    requires
        input.wf(),
        input.len() == 0,
    ensures
        spec_statement(input).recoverable(),
{
    lemma_no_blank(input);
    assert(spec_lassignment(input).recoverable()) by {
        reveal(spec_lassignment);
        reveal_strlit("let");
        lemma_no_word_at_end(input, "let", Label::Let);
    }
    assert(spec_assignment(input).recoverable()) by {
        reveal(spec_assignment);
        lemma_no_prefix_expression_at_end(input);
    }
    assert(spec_if(input).recoverable()) by {
        reveal(spec_condition);
        reveal_strlit("if");
        lemma_no_word_at_end(input, "if", Label::If);
    }
    assert(spec_for(input).recoverable()) by {
        reveal(spec_iter_item);
        reveal_strlit("for");
        lemma_no_word_at_end(input, "for", Label::For);
    }
    assert(spec_while(input).recoverable()) by {
        reveal(spec_condition);
        reveal_strlit("while");
        lemma_no_word_at_end(input, "while", Label::While);
    }
    assert(spec_function(input).recoverable()) by {
        reveal(spec_function_name);
        reveal_strlit("fun");
        lemma_skip_nothing(input);
        assert(spec_opt_line_ending(input) == input);
        lemma_no_word_at_end(input, "fun", Label::Fun);
    }
    assert(spec_class(input).recoverable()) by {
        reveal(spec_class_name);
        reveal_strlit("class");
        lemma_no_word_at_end(input, "class", Label::Class);
    }
    assert(spec_import(input).recoverable()) by {
        reveal(spec_import);
        reveal_strlit("external");
        reveal_strlit("import");
        lemma_no_word_at_end(input, "external", Label::External);
        lemma_no_word_at_end(input, "import", Label::Import);
    }
    assert(spec_function_call(input).recoverable()) by {
        reveal(spec_function_call);
        lemma_no_prefix_expression_at_end(input);
    }
}

/// The block without statements and without return statement.
pub open spec fn empty_block() -> BlockV {
    BlockV { statements: Seq::empty(), return_stmt: None }
}

/// Where no input is left, a block is parsed, and it is empty.
pub proof fn law_no_input_is_an_empty_block(input: SpanV)
    requires
        input.wf(),
        input.len() == 0,
    ensures
        spec_block(input) == (Outcome::Done { rest: input, value: empty_block() }),
        spec_source(input) == (Outcome::Done { rest: input, value: empty_block() }),
{
    lemma_no_blank(input);
    lemma_no_statement_at_end(input);
    assert(spec_statements(input, Seq::empty()) == Outcome::Done {
        rest: input,
        value: Seq::<StatementV>::empty(),
    });
    assert(spec_return_stmt(input).recoverable()) by {
        reveal(spec_return_stmt);
        reveal_strlit("return");
        lemma_no_word_at_end(input, "return", Label::Return);
    }
}

/// A whole source text is read to its end: where it is parsed, nothing is
/// left of it. So a text in which anything follows the return statement of its
/// block is not parsed.
pub proof fn law_source_is_read_to_its_end(input: SpanV)
    ensures
        spec_source(input) matches Outcome::Done { rest, value } ==> rest.len() == 0
            && spec_block(input) == (Outcome::Done {
            rest: spec_block(input)->Done_rest,
            value,
        }) && spec_sp(spec_block(input)->Done_rest) == rest,
{
}

} // verus!
