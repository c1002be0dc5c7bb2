//! Parse results and structured parse errors.
//!
//! Every production either succeeds with a value and the input that is left, or
//! fails with a [`ParseError`]. An error is *recoverable* when a production did
//! not match and another alternative may still be tried; it is *fatal* once a
//! production has matched a distinguishing prefix (a keyword, an opening quote,
//! bracket or brace) and could not be completed. The trace of an error lists, from
//! the innermost failure outwards, the input at which each enclosing production
//! started and the label of that production.

use vstd::prelude::*;
use crate::span::{Span, SpanV};

verus! {

/// Names of the productions and tokens of the grammar, as they appear in error
/// traces.
#[derive(Clone, Copy, Debug, PartialEq, Eq)]
pub enum Label {
    Root,
    Block,
    Stmt,
    ReturnStmt,
    ReturnList,
    Assignment,
    LAssignment,
    FuncCall,
    If,
    IfCond,
    ElseStmt,
    WhileCond,
    ForIterItem,
    ForIterator,
    Func,
    FuncName,
    ParameterList,
    Class,
    ClassName,
    Methods,
    Import,
    FlatExpr,
    NestedExpression,
    OpChain,
    Expression2,
    PrefixExpr,
    Args,
    Call,
    Binary,
    UnaryOperator,
    Operator,
    Token,
    Literal,
    Collection,
    Array,
    Table,
    String,
    Float,
    Int,
    Num,
    True,
    False,
    Nil,
    Variable,
    Keyword,
    Comment,
    Add,
    Sub,
    Mul,
    Div,
    Equal,
    Unequal,
    Dot,
    Comma,
    Colon,
    Assign,
    LeftParen,
    RightParen,
    LeftBracket,
    RightBracket,
    LeftBrace,
    RightBrace,
    LessThan,
    GreaterThan,
    LessEqThan,
    GreaterEqThan,
    Quote,
    Return,
    End,
    Fun,
    Do,
    While,
    For,
    Else,
    Let,
    In,
    External,
    As,
    Eof,
}

impl Label {
    /// The name of the production or token, as a text.
    pub open spec fn text(self) -> Seq<char> {
        match self {
            Label::Root => "Root"@,
            Label::Block => "Block"@,
            Label::Stmt => "Stmt"@,
            Label::ReturnStmt => "ReturnStmt"@,
            Label::ReturnList => "ReturnList"@,
            Label::Assignment => "Assignment"@,
            Label::LAssignment => "LAssignment"@,
            Label::FuncCall => "FuncCall"@,
            Label::If => "If"@,
            Label::IfCond => "IfCond"@,
            Label::ElseStmt => "ElseStmt"@,
            Label::WhileCond => "WhileCond"@,
            Label::ForIterItem => "ForIterItem"@,
            Label::ForIterator => "ForIterator"@,
            Label::Func => "Func"@,
            Label::FuncName => "FuncName"@,
            Label::ParameterList => "ParameterList"@,
            Label::Class => "Class"@,
            Label::ClassName => "ClassName"@,
            Label::Methods => "Methods"@,
            Label::Import => "Import"@,
            Label::FlatExpr => "FlatExpr"@,
            Label::NestedExpression => "NestedExpression"@,
            Label::OpChain => "OpChain"@,
            Label::Expression2 => "Expression2"@,
            Label::PrefixExpr => "PrefixExpr"@,
            Label::Args => "Args"@,
            Label::Call => "Call"@,
            Label::Binary => "Binary"@,
            Label::UnaryOperator => "UnaryOperator"@,
            Label::Operator => "Operator"@,
            Label::Token => "Token"@,
            Label::Literal => "Literal"@,
            Label::Collection => "Collection"@,
            Label::Array => "Array"@,
            Label::Table => "Map"@,
            Label::String => "String"@,
            Label::Float => "Float"@,
            Label::Int => "Int"@,
            Label::Num => "Num"@,
            Label::True => "True"@,
            Label::False => "False"@,
            Label::Nil => "Nil"@,
            Label::Variable => "Variable"@,
            Label::Keyword => "Keyword"@,
            Label::Comment => "Comment"@,
            Label::Add => "Add"@,
            Label::Sub => "Sub"@,
            Label::Mul => "Mul"@,
            Label::Div => "Div"@,
            Label::Equal => "Equal"@,
            Label::Unequal => "Unequal"@,
            Label::Dot => "Dot"@,
            Label::Comma => "Comma"@,
            Label::Colon => "Colon"@,
            Label::Assign => "Assign"@,
            Label::LeftParen => "LeftParen"@,
            Label::RightParen => "RightParen"@,
            Label::LeftBracket => "LeftBracket"@,
            Label::RightBracket => "RightBracket"@,
            Label::LeftBrace => "LeftBrace"@,
            Label::RightBrace => "RightBrace"@,
            Label::LessThan => "LessThan"@,
            Label::GreaterThan => "GreaterThan"@,
            Label::LessEqThan => "LessEqThan"@,
            Label::GreaterEqThan => "GreaterEqThan"@,
            Label::Quote => "Quote"@,
            Label::Return => "Return"@,
            Label::End => "End"@,
            Label::Fun => "Fun"@,
            Label::Do => "Do"@,
            Label::While => "While"@,
            Label::For => "For"@,
            Label::Else => "Else"@,
            Label::Let => "Let"@,
            Label::In => "In"@,
            Label::External => "External"@,
            Label::As => "As"@,
            Label::Eof => "Eof"@,
        }
    }

    /// The name of the production or token.
    pub fn name(&self) -> (s: &'static str)
        ensures
            s@ == self.text(),
    {
        match self {
            Label::Root => "Root",
            Label::Block => "Block",
            Label::Stmt => "Stmt",
            Label::ReturnStmt => "ReturnStmt",
            Label::ReturnList => "ReturnList",
            Label::Assignment => "Assignment",
            Label::LAssignment => "LAssignment",
            Label::FuncCall => "FuncCall",
            Label::If => "If",
            Label::IfCond => "IfCond",
            Label::ElseStmt => "ElseStmt",
            Label::WhileCond => "WhileCond",
            Label::ForIterItem => "ForIterItem",
            Label::ForIterator => "ForIterator",
            Label::Func => "Func",
            Label::FuncName => "FuncName",
            Label::ParameterList => "ParameterList",
            Label::Class => "Class",
            Label::ClassName => "ClassName",
            Label::Methods => "Methods",
            Label::Import => "Import",
            Label::FlatExpr => "FlatExpr",
            Label::NestedExpression => "NestedExpression",
            Label::OpChain => "OpChain",
            Label::Expression2 => "Expression2",
            Label::PrefixExpr => "PrefixExpr",
            Label::Args => "Args",
            Label::Call => "Call",
            Label::Binary => "Binary",
            Label::UnaryOperator => "UnaryOperator",
            Label::Operator => "Operator",
            Label::Token => "Token",
            Label::Literal => "Literal",
            Label::Collection => "Collection",
            Label::Array => "Array",
            Label::Table => "Map",
            Label::String => "String",
            Label::Float => "Float",
            Label::Int => "Int",
            Label::Num => "Num",
            Label::True => "True",
            Label::False => "False",
            Label::Nil => "Nil",
            Label::Variable => "Variable",
            Label::Keyword => "Keyword",
            Label::Comment => "Comment",
            Label::Add => "Add",
            Label::Sub => "Sub",
            Label::Mul => "Mul",
            Label::Div => "Div",
            Label::Equal => "Equal",
            Label::Unequal => "Unequal",
            Label::Dot => "Dot",
            Label::Comma => "Comma",
            Label::Colon => "Colon",
            Label::Assign => "Assign",
            Label::LeftParen => "LeftParen",
            Label::RightParen => "RightParen",
            Label::LeftBracket => "LeftBracket",
            Label::RightBracket => "RightBracket",
            Label::LeftBrace => "LeftBrace",
            Label::RightBrace => "RightBrace",
            Label::LessThan => "LessThan",
            Label::GreaterThan => "GreaterThan",
            Label::LessEqThan => "LessEqThan",
            Label::GreaterEqThan => "GreaterEqThan",
            Label::Quote => "Quote",
            Label::Return => "Return",
            Label::End => "End",
            Label::Fun => "Fun",
            Label::Do => "Do",
            Label::While => "While",
            Label::For => "For",
            Label::Else => "Else",
            Label::Let => "Let",
            Label::In => "In",
            Label::External => "External",
            Label::As => "As",
            Label::Eof => "Eof",
        }
    }
}

impl DeepView for Label {
    type V = Label;

    open spec fn deep_view(&self) -> Label {
        *self
    }
}

/// Mathematical model of a [`ParseError`].
pub struct ErrorV {
    pub fatal: bool,
    pub trace: Seq<(SpanV, Label)>,
}

impl ErrorV {
    /// The error of a production that did not match at `at`.
    pub open spec fn new(at: SpanV, label: Label) -> ErrorV {
        ErrorV { fatal: false, trace: seq![(at, label)] }
    }

    /// The error as seen from an enclosing production `label` that started at
    /// `at`.
    pub open spec fn context(self, at: SpanV, label: Label) -> ErrorV {
        ErrorV { fatal: self.fatal, trace: self.trace.push((at, label)) }
    }

    /// The same error, made fatal.
    pub open spec fn cut(self) -> ErrorV {
        ErrorV { fatal: true, trace: self.trace }
    }
}

/// What a production yields on an input: a value with the input that is left, or
/// an error.
pub enum Outcome<T> {
    Done { rest: SpanV, value: T },
    Failed { error: ErrorV },
}

impl<T> Outcome<T> {
    /// Failure of a production that did not match at `at`.
    pub open spec fn fail(at: SpanV, label: Label) -> Outcome<T> {
        Outcome::Failed { error: ErrorV::new(at, label) }
    }

    /// The outcome as seen from the enclosing production `label` that started at
    /// `at`: a success is kept, an error gets one more entry in its trace.
    pub open spec fn context(self, at: SpanV, label: Label) -> Outcome<T> {
        match self {
            Outcome::Done { rest, value } => self,
            Outcome::Failed { error } => Outcome::Failed { error: error.context(at, label) },
        }
    }

    /// The outcome past a commit point: a success is kept, every error is fatal.
    pub open spec fn cut(self) -> Outcome<T> {
        match self {
            Outcome::Done { rest, value } => self,
            Outcome::Failed { error } => Outcome::Failed { error: error.cut() },
        }
    }

    /// True for an error after which another alternative may be tried.
    pub open spec fn recoverable(self) -> bool {
        self matches Outcome::Failed { error } && !error.fatal
    }

    /// The outcome with its value changed by `f`.
    pub open spec fn map<U>(self, f: spec_fn(T) -> U) -> Outcome<U> {
        match self {
            Outcome::Done { rest, value } => Outcome::Done { rest, value: f(value) },
            Outcome::Failed { error } => Outcome::Failed { error },
        }
    }

    /// The outcome of a production that got `input`. No production yields more
    /// input than it got, so this is the outcome itself; the definitions of the
    /// grammar say so where one production goes on after another, which shows
    /// that they are well founded.
    pub open spec fn within(self, input: SpanV) -> Outcome<T> {
        match self {
            Outcome::Done { rest, value } => if rest.len() <= input.len() {
                self
            } else {
                Outcome::Failed { error: ErrorV { fatal: true, trace: Seq::empty() } }
            },
            Outcome::Failed { error } => self,
        }
    }

    /// The outcome of a production that got `input` and reads at least one byte
    /// where it succeeds. Like [`Outcome::within`], this is the outcome itself.
    pub open spec fn advancing(self, input: SpanV) -> Outcome<T> {
        match self {
            Outcome::Done { rest, value } => if rest.len() < input.len() {
                self
            } else {
                Outcome::Failed { error: ErrorV { fatal: true, trace: Seq::empty() } }
            },
            Outcome::Failed { error } => self,
        }
    }

    /// True where a success leaves less input than `input`.
    pub open spec fn advances(self, input: SpanV) -> bool {
        self matches Outcome::Done { rest, value } ==> rest.len() < input.len()
    }

    /// True where a success leaves no more input than `input`.
    pub open spec fn shrinks(self, input: SpanV) -> bool {
        self matches Outcome::Done { rest, value } ==> rest.len() <= input.len()
    }

    /// Ordered choice: this outcome, or `other` where this one is a recoverable
    /// error.
    pub open spec fn or(self, other: Outcome<T>) -> Outcome<T> {
        if self.recoverable() {
            other
        } else {
            self
        }
    }
}

/// A structured parse error.
#[derive(Clone, Debug, PartialEq)]
pub struct ParseError<'a> {
    /// True once the parser was committed to the production that failed.
    pub fatal: bool,
    /// The enclosing productions, innermost first, each with the input at which
    /// it started.
    pub trace: Vec<(Span<'a>, Label)>,
}

impl<'a> DeepView for ParseError<'a> {
    type V = ErrorV;

    open spec fn deep_view(&self) -> ErrorV {
        ErrorV { fatal: self.fatal, trace: self.trace.deep_view() }
    }
}

/// Result of a production: the input that is left and the value, or an error.
pub type Res<'a, O> = Result<(Span<'a>, O), ParseError<'a>>;

/// Mathematical model of a [`Res`].
pub open spec fn outcome<'a, O: DeepView>(r: Res<'a, O>) -> Outcome<O::V> {
    match r {
        Ok((rest, value)) => Outcome::Done { rest: rest@, value: value.deep_view() },
        Err(e) => Outcome::Failed { error: e.deep_view() },
    }
}

impl<'a> ParseError<'a> {
    /// The recoverable error of a production `label` that did not match at `at`.
    pub fn new(at: Span<'a>, label: Label) -> (e: ParseError<'a>)
        ensures
            e.deep_view() == ErrorV::new(at@, label),
    {
        let mut trace = Vec::new();
        trace.push((at, label));
        let e = ParseError { fatal: false, trace };
        assert(e.deep_view().trace =~= seq![(at@, label)]);
        e
    }

    /// Adds the enclosing production `label`, which started at `at`, to the trace.
    pub fn context(self, at: Span<'a>, label: Label) -> (e: ParseError<'a>)
        ensures
            e.deep_view() == self.deep_view().context(at@, label),
    {
        let mut trace = self.trace;
        trace.push((at, label));
        let e = ParseError { fatal: self.fatal, trace };
        assert(e.deep_view().trace =~= self.deep_view().trace.push((at@, label)));
        e
    }

    /// Makes the error fatal.
    pub fn cut(self) -> (e: ParseError<'a>)
        ensures
            e.deep_view() == self.deep_view().cut(),
    {
        ParseError { fatal: true, trace: self.trace }
    }
}

/// Fails with the recoverable error of a production `label` that did not match at
/// `at`.
pub fn fail<'a, O: DeepView>(at: Span<'a>, label: Label) -> (r: Res<'a, O>)
    ensures
        outcome(r) == Outcome::<O::V>::fail(at@, label),
{
    Err(ParseError::new(at, label))
}

/// Adds the enclosing production to the trace of a failed result.
pub fn in_context<'a, O: DeepView>(r: Res<'a, O>, at: Span<'a>, label: Label) -> (out: Res<'a, O>)
    ensures
        outcome(out) == outcome(r).context(at@, label),
{
    match r {
        Ok(v) => Ok(v),
        Err(e) => Err(e.context(at, label)),
    }
}

/// Tells whether a result is an error after which another alternative may be
/// tried.
pub fn recoverable<'a, O: DeepView>(r: &Res<'a, O>) -> (b: bool)
    ensures
        b == outcome(*r).recoverable(),
{
    match r {
        Ok(_) => false,
        Err(e) => !e.fatal,
    }
}

/// Makes a failed result fatal.
pub fn committed<'a, O: DeepView>(r: Res<'a, O>) -> (out: Res<'a, O>)
    ensures
        outcome(out) == outcome(r).cut(),
{
    match r {
        Ok(v) => Ok(v),
        Err(e) => Err(e.cut()),
    }
}

} // verus!
