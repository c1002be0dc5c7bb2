//! The syntax tree and its mathematical model.
//!
//! Every node type has a model type, named with a trailing `V`, in which a
//! `Vec` is a `Seq`, a text is a `Seq<char>` and a [`Span`] is a [`SpanV`]. The
//! contracts of the parsers are stated over the models.

use vstd::prelude::*;
use vstd::std_specs::cmp::{PartialEqSpec, PartialEqSpecImpl};
use crate::span::{Span, SpanV};
use crate::tokens::{Operator, UnOperator};

verus! {

/// The name of a variable, function or class: it starts with a letter or an
/// underscore and goes on with letters, digits and underscores.
pub type Identifier<'a> = &'a str;

/// A value together with the place in the source where it was recognised.
#[derive(Clone, Copy, Debug)]
pub struct Token<'a, T> {
    pub value: T,
    pub pos: Span<'a>,
}

/// Mathematical model of a [`Token`].
pub struct TokenV<T> {
    pub value: T,
    pub pos: SpanV,
}

impl<'a, T: DeepView> DeepView for Token<'a, T> {
    type V = TokenV<T::V>;

    open spec fn deep_view(&self) -> TokenV<T::V> {
        TokenV { value: self.value.deep_view(), pos: self.pos@ }
    }
}

impl<'a, T> Token<'a, T> {
    pub fn new(value: T, pos: Span<'a>) -> (t: Token<'a, T>)
        ensures
            t.value == value,
            t.pos == pos,
    {
        Token { value, pos }
    }
}

impl<'a, T: PartialEq> PartialEq for Token<'a, T> {
    /// Tokens are equal when their values are, wherever they were recognised.
    fn eq(&self, other: &Token<'a, T>) -> (r: bool) {
        self.value == other.value
    }
}

impl<'a, T: PartialEq> PartialEqSpecImpl for Token<'a, T> {
    open spec fn obeys_eq_spec() -> bool {
        T::obeys_eq_spec()
    }

    open spec fn eq_spec(&self, other: &Token<'a, T>) -> bool {
        self.value.eq_spec(&other.value)
    }
}

/// A variable: its name and where it stands.
pub type Variable<'a> = Token<'a, Identifier<'a>>;

/// The literals. A floating-point literal holds the text of the number as it
/// stands in the source.
#[derive(Clone, Debug, PartialEq)]
pub enum Literal<'a> {
    Str(Token<'a, String>),
    Boolean(Token<'a, bool>),
    Nil(Span<'a>),
    Float(Token<'a, &'a str>),
    Int(Token<'a, i32>),
    Variable(Variable<'a>),
}

/// Mathematical model of a [`Literal`].
pub enum LiteralV {
    Str(TokenV<Seq<char>>),
    Boolean(TokenV<bool>),
    Nil(SpanV),
    Float(TokenV<Seq<char>>),
    Int(TokenV<i32>),
    Variable(TokenV<Seq<char>>),
}

impl<'a> DeepView for Literal<'a> {
    type V = LiteralV;

    open spec fn deep_view(&self) -> LiteralV {
        match self {
            Literal::Str(t) => LiteralV::Str(t.deep_view()),
            Literal::Boolean(t) => LiteralV::Boolean(t.deep_view()),
            Literal::Nil(s) => LiteralV::Nil(s@),
            Literal::Float(t) => LiteralV::Float(t.deep_view()),
            Literal::Int(t) => LiteralV::Int(t.deep_view()),
            Literal::Variable(t) => LiteralV::Variable(t.deep_view()),
        }
    }
}

/// Arrays and tables. They are apart from the literals because their elements
/// are expressions. A table keeps its entries in the order in which their keys
/// first stood in the source, and no key twice.
#[derive(Debug, PartialEq)]
pub enum Collection<'a> {
    Array(Vec<Expression<'a>>),
    Table(Vec<TableEntry<'a>>),
}

/// An entry of a table: the key, a text, and the value.
#[derive(Debug, PartialEq)]
pub struct TableEntry<'a> {
    pub key: String,
    pub value: Expression<'a>,
}

/// An expression.
#[derive(Debug, PartialEq)]
pub enum Expression<'a> {
    Literal(Literal<'a>),
    BinaryOp(Box<BinaryOp<'a>>),
    UnaryOp(Box<UnaryOp<'a>>),
    PrefixExpr(Box<PrefixExpr<'a>>),
    Collection(Collection<'a>),
}

/// A binary operator with its two operands.
#[derive(Debug, PartialEq)]
pub struct BinaryOp<'a> {
    pub left: Expression<'a>,
    pub right: Expression<'a>,
    pub op: Operator,
}

/// A unary operator with its operand.
#[derive(Debug, PartialEq)]
pub struct UnaryOp<'a> {
    pub op: UnOperator,
    pub operand: Expression<'a>,
}

/// A primary operand followed by its suffixes, in the order of the source.
#[derive(Debug, PartialEq)]
pub struct PrefixExpr<'a> {
    pub prefix: ExprOrVarname<'a>,
    pub suffix_chain: Vec<ExprSuffix<'a>>,
}

/// The primary operand of a [`PrefixExpr`]: an expression in parentheses or a
/// variable.
#[derive(Debug, PartialEq)]
pub enum ExprOrVarname<'a> {
    Exp(Expression<'a>),
    Varname(Literal<'a>),
}

/// A suffix: `.name`, `[index]` or `(arguments)`.
#[derive(Debug, PartialEq)]
pub enum ExprSuffix<'a> {
    TableDot(Literal<'a>),
    TableIdx(Expression<'a>),
    FuncCall(Call<'a>),
}

/// A call: the arguments, and the name of the callee where one is written in
/// front of them.
#[derive(Debug, PartialEq)]
pub struct Call<'a> {
    pub callee: Option<Variable<'a>>,
    pub args: Vec<Expression<'a>>,
}

/// Mathematical model of a [`Collection`].
pub enum CollectionV {
    Array(Seq<ExpressionV>),
    Table(Seq<TableEntryV>),
}

/// Mathematical model of a [`TableEntry`].
pub struct TableEntryV {
    pub key: Seq<char>,
    pub value: ExpressionV,
}

/// Mathematical model of an [`Expression`].
pub enum ExpressionV {
    Literal(LiteralV),
    BinaryOp(Box<BinaryOpV>),
    UnaryOp(Box<UnaryOpV>),
    PrefixExpr(Box<PrefixExprV>),
    Collection(CollectionV),
}

/// Mathematical model of a [`BinaryOp`].
pub struct BinaryOpV {
    pub left: ExpressionV,
    pub right: ExpressionV,
    pub op: Operator,
}

/// Mathematical model of a [`UnaryOp`].
pub struct UnaryOpV {
    pub op: UnOperator,
    pub operand: ExpressionV,
}

/// Mathematical model of a [`PrefixExpr`].
pub struct PrefixExprV {
    pub prefix: ExprOrVarnameV,
    pub suffix_chain: Seq<ExprSuffixV>,
}

/// Mathematical model of an [`ExprOrVarname`].
pub enum ExprOrVarnameV {
    Exp(ExpressionV),
    Varname(LiteralV),
}

/// Mathematical model of an [`ExprSuffix`].
pub enum ExprSuffixV {
    TableDot(LiteralV),
    TableIdx(ExpressionV),
    FuncCall(CallV),
}

/// Mathematical model of a [`Call`].
pub struct CallV {
    pub callee: Option<TokenV<Seq<char>>>,
    pub args: Seq<ExpressionV>,
}

/// The model of an expression.
pub open spec fn expression_view(e: Expression) -> ExpressionV
    decreases e,
{
    match e {
        Expression::Literal(l) => ExpressionV::Literal(l.deep_view()),
        Expression::BinaryOp(b) => ExpressionV::BinaryOp(
            Box::new(
                BinaryOpV {
                    left: expression_view(b.left),
                    right: expression_view(b.right),
                    op: b.op,
                },
            ),
        ),
        Expression::UnaryOp(u) => ExpressionV::UnaryOp(
            Box::new(UnaryOpV { op: u.op, operand: expression_view(u.operand) }),
        ),
        Expression::PrefixExpr(p) => ExpressionV::PrefixExpr(Box::new(prefix_expr_view(*p))),
        Expression::Collection(c) => ExpressionV::Collection(
            match c {
                Collection::Array(items) => CollectionV::Array(expressions_view(items@)),
                Collection::Table(entries) => CollectionV::Table(entries_view(entries@)),
            },
        ),
    }
}

/// The models of a sequence of expressions.
pub open spec fn expressions_view(s: Seq<Expression>) -> Seq<ExpressionV>
    decreases s,
{
    Seq::new(
        s.len(),
        |i: int|
            if 0 <= i < s.len() {
                expression_view(s[i])
            } else {
                arbitrary()
            },
    )
}

/// The models of the entries of a table.
pub open spec fn entries_view(s: Seq<TableEntry>) -> Seq<TableEntryV>
    decreases s,
{
    Seq::new(
        s.len(),
        |i: int|
            if 0 <= i < s.len() {
                TableEntryV { key: s[i].key@, value: expression_view(s[i].value) }
            } else {
                arbitrary()
            },
    )
}

/// The model of a prefix expression.
pub open spec fn prefix_expr_view(p: PrefixExpr) -> PrefixExprV
    decreases p,
{
    PrefixExprV {
        prefix: match p.prefix {
            ExprOrVarname::Exp(e) => ExprOrVarnameV::Exp(expression_view(e)),
            ExprOrVarname::Varname(l) => ExprOrVarnameV::Varname(l.deep_view()),
        },
        suffix_chain: suffixes_view(p.suffix_chain@),
    }
}

/// The model of a suffix.
pub open spec fn suffix_view(s: ExprSuffix) -> ExprSuffixV
    decreases s,
{
    match s {
        ExprSuffix::TableDot(l) => ExprSuffixV::TableDot(l.deep_view()),
        ExprSuffix::TableIdx(e) => ExprSuffixV::TableIdx(expression_view(e)),
        ExprSuffix::FuncCall(c) => ExprSuffixV::FuncCall(
            CallV { callee: c.callee.deep_view(), args: expressions_view(c.args@) },
        ),
    }
}

/// The models of a sequence of suffixes.
pub open spec fn suffixes_view(s: Seq<ExprSuffix>) -> Seq<ExprSuffixV>
    decreases s,
{
    Seq::new(
        s.len(),
        |i: int|
            if 0 <= i < s.len() {
                suffix_view(s[i])
            } else {
                arbitrary()
            },
    )
}

impl<'a> DeepView for Expression<'a> {
    type V = ExpressionV;

    open spec fn deep_view(&self) -> ExpressionV {
        expression_view(*self)
    }
}

impl<'a> DeepView for Collection<'a> {
    type V = CollectionV;

    open spec fn deep_view(&self) -> CollectionV {
        match self {
            Collection::Array(items) => CollectionV::Array(expressions_view(items@)),
            Collection::Table(entries) => CollectionV::Table(entries_view(entries@)),
        }
    }
}

impl<'a> DeepView for TableEntry<'a> {
    type V = TableEntryV;

    open spec fn deep_view(&self) -> TableEntryV {
        TableEntryV { key: self.key@, value: expression_view(self.value) }
    }
}

impl<'a> DeepView for PrefixExpr<'a> {
    type V = PrefixExprV;

    open spec fn deep_view(&self) -> PrefixExprV {
        prefix_expr_view(*self)
    }
}

impl<'a> DeepView for ExprOrVarname<'a> {
    type V = ExprOrVarnameV;

    open spec fn deep_view(&self) -> ExprOrVarnameV {
        match self {
            ExprOrVarname::Exp(e) => ExprOrVarnameV::Exp(expression_view(*e)),
            ExprOrVarname::Varname(l) => ExprOrVarnameV::Varname(l.deep_view()),
        }
    }
}

impl<'a> DeepView for ExprSuffix<'a> {
    type V = ExprSuffixV;

    open spec fn deep_view(&self) -> ExprSuffixV {
        suffix_view(*self)
    }
}

impl<'a> DeepView for Call<'a> {
    type V = CallV;

    open spec fn deep_view(&self) -> CallV {
        CallV { callee: self.callee.deep_view(), args: expressions_view(self.args@) }
    }
}

impl<'a> DeepView for BinaryOp<'a> {
    type V = BinaryOpV;

    open spec fn deep_view(&self) -> BinaryOpV {
        BinaryOpV {
            left: expression_view(self.left),
            right: expression_view(self.right),
            op: self.op,
        }
    }
}

impl<'a> DeepView for UnaryOp<'a> {
    type V = UnaryOpV;

    open spec fn deep_view(&self) -> UnaryOpV {
        UnaryOpV { op: self.op, operand: expression_view(self.operand) }
    }
}

/// The model of a vector of expressions is the sequence of their models.
pub proof fn lemma_expressions_view(v: Vec<Expression>)
    ensures
        v.deep_view() == expressions_view(v@),
{
    assert(v.deep_view() =~= expressions_view(v@));
}

/// The model of a vector of suffixes is the sequence of their models.
pub proof fn lemma_suffixes_view(v: Vec<ExprSuffix>)
    ensures
        v.deep_view() == suffixes_view(v@),
{
    assert(v.deep_view() =~= suffixes_view(v@));
}

/// The model of a vector of table entries is the sequence of their models.
pub proof fn lemma_entries_view(v: Vec<TableEntry>)
    ensures
        v.deep_view() == entries_view(v@),
{
    assert(v.deep_view() =~= entries_view(v@));
}

/// A sequence of statements, and after them at most one return statement.
#[derive(Debug, PartialEq)]
pub struct Block<'a> {
    pub statements: Vec<Statement<'a>>,
    pub return_stmt: Option<ReturnStmt<'a>>,
}

impl<'a> Block<'a> {
    /// The statements of the block, in their order.
    pub fn into_statements(self) -> (statements: Vec<Statement<'a>>)
        ensures
            statements == self.statements,
    {
        self.statements
    }
}

/// A statement.
#[derive(Debug, PartialEq)]
pub enum Statement<'a> {
    Assignment(Assignment<'a>),
    LAssignment(LAssignment<'a>),
    FuncCall(PrefixExpr<'a>),
    While(While<'a>),
    For(For<'a>),
    If(If<'a>),
    Fun(Function<'a>),
    Class(Class<'a>),
    Import(Import<'a>),
}

/// A return statement: the values that it yields.
#[derive(Debug, PartialEq)]
pub struct ReturnStmt<'a> {
    pub values: Vec<Expression<'a>>,
}

/// An assignment to a place that exists: `place = expression`.
#[derive(Debug, PartialEq)]
pub struct Assignment<'a> {
    pub variable: PrefixExpr<'a>,
    pub expression: Expression<'a>,
}

/// The declaration of a variable: `let name = expression`.
#[derive(Debug, PartialEq)]
pub struct LAssignment<'a> {
    pub variable: Variable<'a>,
    pub expression: Expression<'a>,
}

/// A loop that runs while its condition holds.
#[derive(Debug, PartialEq)]
pub struct While<'a> {
    pub cond: Expression<'a>,
    pub block: Block<'a>,
}

/// A loop over the items that an expression yields.
#[derive(Debug, PartialEq)]
pub struct For<'a> {
    pub iter_item: Variable<'a>,
    pub iterator: Expression<'a>,
    pub block: Block<'a>,
}

/// A conditional: the condition, the block that runs where it holds and, where
/// there is one, the block that runs where it does not.
#[derive(Debug, PartialEq)]
pub struct If<'a> {
    pub cond: Expression<'a>,
    pub stmts: Block<'a>,
    pub else_statements: Option<Block<'a>>,
}

/// The declaration of a function. Each parameter is a variable.
#[derive(Debug, PartialEq)]
pub struct Function<'a> {
    pub name: Identifier<'a>,
    pub parameters: Vec<Literal<'a>>,
    pub block: Block<'a>,
}

/// The declaration of a class: its name and its methods.
#[derive(Debug, PartialEq)]
pub struct Class<'a> {
    pub name: String,
    pub methods: Vec<Function<'a>>,
}

/// An import. Each component of the path, and the alias, is a variable.
#[derive(Clone, Debug, PartialEq)]
pub struct Import<'a> {
    pub external: bool,
    pub path: Vec<Literal<'a>>,
    pub alias: Option<Literal<'a>>,
}

/// Mathematical model of a [`Block`].
pub struct BlockV {
    pub statements: Seq<StatementV>,
    pub return_stmt: Option<ReturnStmtV>,
}

/// Mathematical model of a [`Statement`].
pub enum StatementV {
    Assignment(AssignmentV),
    LAssignment(LAssignmentV),
    FuncCall(PrefixExprV),
    While(Box<WhileV>),
    For(Box<ForV>),
    If(Box<IfV>),
    Fun(Box<FunctionV>),
    Class(ClassV),
    Import(ImportV),
}

/// Mathematical model of a [`ReturnStmt`].
pub struct ReturnStmtV {
    pub values: Seq<ExpressionV>,
}

/// Mathematical model of an [`Assignment`].
pub struct AssignmentV {
    pub variable: PrefixExprV,
    pub expression: ExpressionV,
}

/// Mathematical model of an [`LAssignment`].
pub struct LAssignmentV {
    pub variable: TokenV<Seq<char>>,
    pub expression: ExpressionV,
}

/// Mathematical model of a [`While`].
pub struct WhileV {
    pub cond: ExpressionV,
    pub block: BlockV,
}

/// Mathematical model of a [`For`].
pub struct ForV {
    pub iter_item: TokenV<Seq<char>>,
    pub iterator: ExpressionV,
    pub block: BlockV,
}

/// Mathematical model of an [`If`].
pub struct IfV {
    pub cond: ExpressionV,
    pub stmts: BlockV,
    pub else_statements: Option<BlockV>,
}

/// Mathematical model of a [`Function`].
pub struct FunctionV {
    pub name: Seq<char>,
    pub parameters: Seq<LiteralV>,
    pub block: BlockV,
}

/// Mathematical model of a [`Class`].
pub struct ClassV {
    pub name: Seq<char>,
    pub methods: Seq<FunctionV>,
}

/// Mathematical model of an [`Import`].
pub struct ImportV {
    pub external: bool,
    pub path: Seq<LiteralV>,
    pub alias: Option<LiteralV>,
}

/// The model of a block.
pub open spec fn block_view(b: Block) -> BlockV
    decreases b,
{
    BlockV {
        statements: statements_view(b.statements@),
        return_stmt: match b.return_stmt {
            Some(r) => Some(r.deep_view()),
            None => None,
        },
    }
}

/// The models of a sequence of statements.
pub open spec fn statements_view(s: Seq<Statement>) -> Seq<StatementV>
    decreases s,
{
    Seq::new(
        s.len(),
        |i: int|
            if 0 <= i < s.len() {
                statement_view(s[i])
            } else {
                arbitrary()
            },
    )
}

/// The model of a statement.
pub open spec fn statement_view(s: Statement) -> StatementV
    decreases s,
{
    match s {
        Statement::Assignment(a) => StatementV::Assignment(a.deep_view()),
        Statement::LAssignment(a) => StatementV::LAssignment(a.deep_view()),
        Statement::FuncCall(p) => StatementV::FuncCall(p.deep_view()),
        Statement::While(w) => StatementV::While(
            Box::new(WhileV { cond: w.cond.deep_view(), block: block_view(w.block) }),
        ),
        Statement::For(f) => StatementV::For(
            Box::new(
                ForV {
                    iter_item: f.iter_item.deep_view(),
                    iterator: f.iterator.deep_view(),
                    block: block_view(f.block),
                },
            ),
        ),
        Statement::If(i) => StatementV::If(
            Box::new(
                IfV {
                    cond: i.cond.deep_view(),
                    stmts: block_view(i.stmts),
                    else_statements: match i.else_statements {
                        Some(b) => Some(block_view(b)),
                        None => None,
                    },
                },
            ),
        ),
        Statement::Fun(f) => StatementV::Fun(Box::new(function_view(f))),
        Statement::Class(c) => StatementV::Class(
            ClassV { name: c.name@, methods: functions_view(c.methods@) },
        ),
        Statement::Import(i) => StatementV::Import(i.deep_view()),
    }
}

/// The model of a function.
pub open spec fn function_view(f: Function) -> FunctionV
    decreases f,
{
    FunctionV { name: f.name@, parameters: f.parameters.deep_view(), block: block_view(f.block) }
}

/// The models of a sequence of functions.
pub open spec fn functions_view(s: Seq<Function>) -> Seq<FunctionV>
    decreases s,
{
    Seq::new(
        s.len(),
        |i: int|
            if 0 <= i < s.len() {
                function_view(s[i])
            } else {
                arbitrary()
            },
    )
}

impl<'a> DeepView for ReturnStmt<'a> {
    type V = ReturnStmtV;

    open spec fn deep_view(&self) -> ReturnStmtV {
        ReturnStmtV { values: self.values.deep_view() }
    }
}

impl<'a> DeepView for Assignment<'a> {
    type V = AssignmentV;

    open spec fn deep_view(&self) -> AssignmentV {
        AssignmentV { variable: self.variable.deep_view(), expression: self.expression.deep_view() }
    }
}

impl<'a> DeepView for LAssignment<'a> {
    type V = LAssignmentV;

    open spec fn deep_view(&self) -> LAssignmentV {
        LAssignmentV {
            variable: self.variable.deep_view(),
            expression: self.expression.deep_view(),
        }
    }
}

impl<'a> DeepView for Import<'a> {
    type V = ImportV;

    open spec fn deep_view(&self) -> ImportV {
        ImportV {
            external: self.external,
            path: self.path.deep_view(),
            alias: self.alias.deep_view(),
        }
    }
}

impl<'a> DeepView for Block<'a> {
    type V = BlockV;

    open spec fn deep_view(&self) -> BlockV {
        block_view(*self)
    }
}

impl<'a> DeepView for Statement<'a> {
    type V = StatementV;

    open spec fn deep_view(&self) -> StatementV {
        statement_view(*self)
    }
}

impl<'a> DeepView for While<'a> {
    type V = WhileV;

    open spec fn deep_view(&self) -> WhileV {
        WhileV { cond: self.cond.deep_view(), block: block_view(self.block) }
    }
}

impl<'a> DeepView for For<'a> {
    type V = ForV;

    open spec fn deep_view(&self) -> ForV {
        ForV {
            iter_item: self.iter_item.deep_view(),
            iterator: self.iterator.deep_view(),
            block: block_view(self.block),
        }
    }
}

impl<'a> DeepView for If<'a> {
    type V = IfV;

    open spec fn deep_view(&self) -> IfV {
        IfV {
            cond: self.cond.deep_view(),
            stmts: block_view(self.stmts),
            else_statements: match self.else_statements {
                Some(b) => Some(block_view(b)),
                None => None,
            },
        }
    }
}

impl<'a> DeepView for Function<'a> {
    type V = FunctionV;

    open spec fn deep_view(&self) -> FunctionV {
        function_view(*self)
    }
}

impl<'a> DeepView for Class<'a> {
    type V = ClassV;

    open spec fn deep_view(&self) -> ClassV {
        ClassV { name: self.name@, methods: functions_view(self.methods@) }
    }
}

/// The model of a vector of statements is the sequence of their models.
pub proof fn lemma_statements_view(v: Vec<Statement>)
    ensures
        v.deep_view() == statements_view(v@),
{
    assert(v.deep_view() =~= statements_view(v@));
}

/// The model of a vector of functions is the sequence of their models.
pub proof fn lemma_functions_view(v: Vec<Function>)
    ensures
        v.deep_view() == functions_view(v@),
{
    assert(v.deep_view() =~= functions_view(v@));
}

} // verus!
