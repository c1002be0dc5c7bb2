//! Operator precedence: from a flat list of operands and operators to a tree.
//!
//! An expression is first read as a flat list, in which operands alternate with
//! binary operators and every operand may have unary operators in front of it.
//! The list is then merged into one tree, tier by tier of the precedence
//! table. Merging a tier means: as long as the list holds a binary operator of
//! the tier that stands between two operands, the leftmost such operator and
//! its two operands become one operand. So the operators of one tier associate
//! to the left. The tier that binds tightest is merged first; then the unary
//! operators are applied, the rightmost first, so that stacked unary operators
//! nest from the right; then all tiers are merged in turn.

pub mod completeness;
pub mod nesting;
pub mod order;

use vstd::prelude::*;
use vstd::pervasive::unreached;
use crate::ast::{expression_view, BinaryOp, BinaryOpV, Expression, ExpressionV, UnaryOp, UnaryOpV};
use crate::precedence::completeness::lemma_flat_expression_resolves;
use crate::tokens::{
    binary_tiers, binop_precedence, unary_table, unops, Operator, UnOperator, UnOrBinOp,
};

verus! {

/// An item of a flat expression: an operator or an operand.
#[derive(Debug, PartialEq)]
pub enum OpOrExp<'a> {
    Op(UnOrBinOp),
    Exp(Expression<'a>),
}

/// Mathematical model of an [`OpOrExp`].
pub enum OpOrExpV {
    Op(UnOrBinOp),
    Exp(ExpressionV),
}

impl<'a> DeepView for OpOrExp<'a> {
    type V = OpOrExpV;

    open spec fn deep_view(&self) -> OpOrExpV {
        match self {
            OpOrExp::Op(o) => OpOrExpV::Op(*o),
            OpOrExp::Exp(e) => OpOrExpV::Exp(expression_view(*e)),
        }
    }
}

impl OpOrExpV {
    pub open spec fn is_binop(self) -> bool {
        self matches OpOrExpV::Op(UnOrBinOp::BinOp(_))
    }

    pub open spec fn is_unop(self) -> bool {
        self matches OpOrExpV::Op(UnOrBinOp::UnOp(_))
    }

    pub open spec fn is_exp(self) -> bool {
        self is Exp
    }
}

impl<'a> OpOrExp<'a> {
    pub fn is_binop(&self) -> (r: bool)
        ensures
            r == self.deep_view().is_binop(),
    {
        match self {
            OpOrExp::Op(UnOrBinOp::BinOp(_)) => true,
            _ => false,
        }
    }

    pub fn is_unop(&self) -> (r: bool)
        ensures
            r == self.deep_view().is_unop(),
    {
        match self {
            OpOrExp::Op(UnOrBinOp::UnOp(_)) => true,
            _ => false,
        }
    }

    pub fn is_exp(&self) -> (r: bool)
        ensures
            r == self.deep_view().is_exp(),
    {
        match self {
            OpOrExp::Exp(_) => true,
            _ => false,
        }
    }
}

/// The operand that a binary operator makes of two operands.
pub open spec fn merged_binary(a: OpOrExpV, o: OpOrExpV, b: OpOrExpV) -> OpOrExpV
    recommends
        a.is_exp(),
        o.is_binop(),
        b.is_exp(),
{
    OpOrExpV::Exp(
        ExpressionV::BinaryOp(
            Box::new(BinaryOpV { left: a->Exp_0, right: b->Exp_0, op: o->Op_0->BinOp_0 }),
        ),
    )
}

/// The operand that a unary operator makes of an operand.
pub open spec fn merged_unary(o: OpOrExpV, a: OpOrExpV) -> OpOrExpV
    recommends
        o.is_unop(),
        a.is_exp(),
{
    OpOrExpV::Exp(
        ExpressionV::UnaryOp(Box::new(UnaryOpV { op: o->Op_0->UnOp_0, operand: a->Exp_0 })),
    )
}

/// True where `list[i]` is a binary operator of `tier` between two operands.
pub open spec fn mergeable_binary(list: Seq<OpOrExpV>, tier: Seq<Operator>, i: int) -> bool {
    &&& 0 < i < list.len() - 1
    &&& list[i] matches OpOrExpV::Op(UnOrBinOp::BinOp(o)) && tier.contains(o)
    &&& list[i - 1].is_exp()
    &&& list[i + 1].is_exp()
}

/// True where `list[i]` is a unary operator of `table` in front of an operand.
pub open spec fn mergeable_unary(list: Seq<OpOrExpV>, table: Seq<UnOperator>, i: int) -> bool {
    &&& 0 <= i < list.len() - 1
    &&& list[i] matches OpOrExpV::Op(UnOrBinOp::UnOp(o)) && table.contains(o)
    &&& list[i + 1].is_exp()
}

/// The least index from `from` on at which a binary operator of `tier` can be
/// merged, the length of the list where there is none.
pub open spec fn first_binary(list: Seq<OpOrExpV>, tier: Seq<Operator>, from: int) -> int
    decreases list.len() - from,
{
    if from >= list.len() {
        list.len() as int
    } else if mergeable_binary(list, tier, from) {
        from
    } else {
        first_binary(list, tier, from + 1)
    }
}

/// The greatest index below `below` at which a unary operator of `table` can
/// be merged, -1 where there is none.
pub open spec fn last_unary(list: Seq<OpOrExpV>, table: Seq<UnOperator>, below: int) -> int
    decreases below,
{
    if below <= 0 {
        -1
    } else if mergeable_unary(list, table, below - 1) {
        below - 1
    } else {
        last_unary(list, table, below - 1)
    }
}

/// The list in which the binary operator at `i` and its two operands are one
/// operand.
pub open spec fn merge_binary_at(list: Seq<OpOrExpV>, i: int) -> Seq<OpOrExpV> {
    list.take(i - 1).push(merged_binary(list[i - 1], list[i], list[i + 1])) + list.skip(i + 2)
}

/// The list in which the unary operator at `i` and its operand are one operand.
pub open spec fn merge_unary_at(list: Seq<OpOrExpV>, i: int) -> Seq<OpOrExpV> {
    list.take(i).push(merged_unary(list[i], list[i + 1])) + list.skip(i + 2)
}

/// The list after all merges of one tier: the leftmost operator that can be
/// merged is merged, until none is left.
pub open spec fn drain_tier(list: Seq<OpOrExpV>, tier: Seq<Operator>) -> Seq<OpOrExpV>
    decreases list.len(),
{
    let i = first_binary(list, tier, 0);
    if mergeable_binary(list, tier, i) {
        drain_tier(merge_binary_at(list, i), tier)
    } else {
        list
    }
}

/// The list after all merges of unary operators: the rightmost operator that
/// can be merged is merged, until none is left.
pub open spec fn drain_unary(list: Seq<OpOrExpV>, table: Seq<UnOperator>) -> Seq<OpOrExpV>
    decreases list.len(),
{
    let i = last_unary(list, table, list.len() as int);
    if mergeable_unary(list, table, i) {
        drain_unary(merge_unary_at(list, i), table)
    } else {
        list
    }
}

/// The list after the merges of the tiers from `from` on, each tier after the
/// one before it.
pub open spec fn drain_tiers(list: Seq<OpOrExpV>, tiers: Seq<Seq<Operator>>, from: int) -> Seq<
    OpOrExpV,
>
    decreases tiers.len() - from,
{
    if from < 0 || from >= tiers.len() {
        list
    } else {
        drain_tiers(drain_tier(list, tiers[from]), tiers, from + 1)
    }
}

/// The tree of a flat expression: the tightest tier is merged, then the unary
/// operators, then every tier in turn. There is a tree where one operand is
/// left at the end, and nothing else.
pub open spec fn spec_resolve(list: Seq<OpOrExpV>) -> Option<ExpressionV> {
    let first = drain_tier(list, binary_tiers()[0]);
    let applied = drain_unary(first, unary_table());
    let merged = drain_tiers(applied, binary_tiers(), 0);
    if merged.len() == 1 && merged[0].is_exp() {
        Some(merged[0]->Exp_0)
    } else {
        None
    }
}

/// Makes one operand of a binary operator and its two operands.
pub fn merge_nodes_binop<'a>(a: OpOrExp<'a>, o: OpOrExp<'a>, b: OpOrExp<'a>) -> (r: OpOrExp<'a>)
    requires
        a.deep_view().is_exp(),
        o.deep_view().is_binop(),
        b.deep_view().is_exp(),
    ensures
        r.deep_view() == merged_binary(a.deep_view(), o.deep_view(), b.deep_view()),
{
    match (a, o, b) {
        (OpOrExp::Exp(left), OpOrExp::Op(UnOrBinOp::BinOp(op)), OpOrExp::Exp(right)) => {
            OpOrExp::Exp(Expression::BinaryOp(Box::new(BinaryOp { left, right, op })))
        },
        _ => unreached(),
    }
}

/// Makes one operand of a unary operator and its operand.
pub fn merge_nodes_unop<'a>(o: OpOrExp<'a>, a: OpOrExp<'a>) -> (r: OpOrExp<'a>)
    requires
        o.deep_view().is_unop(),
        a.deep_view().is_exp(),
    ensures
        r.deep_view() == merged_unary(o.deep_view(), a.deep_view()),
{
    match (o, a) {
        (OpOrExp::Op(UnOrBinOp::UnOp(op)), OpOrExp::Exp(operand)) => {
            OpOrExp::Exp(Expression::UnaryOp(Box::new(UnaryOp { op, operand })))
        },
        _ => unreached(),
    }
}

fn tier_holds(tier: &Vec<Operator>, op: Operator) -> (r: bool)
    ensures
        r == tier@.contains(op),
{
    let mut i: usize = 0;
    while i < tier.len()
        invariant
            i <= tier@.len(),
            forall|j: int| 0 <= j < i ==> tier@[j] != op,
        decreases tier@.len() - i,
    {
        if tier[i] == op {
            return true;
        }
        i += 1;
    }
    false
}

fn table_holds(table: &Vec<UnOperator>, op: UnOperator) -> (r: bool)
    ensures
        r == table@.contains(op),
{
    let mut i: usize = 0;
    while i < table.len()
        invariant
            i <= table@.len(),
            forall|j: int| 0 <= j < i ==> table@[j] != op,
        decreases table@.len() - i,
    {
        if table[i] == op {
            return true;
        }
        i += 1;
    }
    false
}

fn can_merge_binary<'a>(explist: &Vec<OpOrExp<'a>>, binops: &Vec<Operator>, i: usize) -> (r: bool)
    requires
        i < explist@.len(),
    ensures
        r == mergeable_binary(explist.deep_view(), binops@, i as int),
{
    if i == 0 || i >= explist.len() - 1 {
        return false;
    }
    match &explist[i] {
        OpOrExp::Op(UnOrBinOp::BinOp(o)) => tier_holds(binops, *o) && explist[i - 1].is_exp()
            && explist[i + 1].is_exp(),
        _ => false,
    }
}

fn can_merge_unary<'a>(explist: &Vec<OpOrExp<'a>>, table: &Vec<UnOperator>, i: usize) -> (r: bool)
    requires
        i < explist@.len(),
    ensures
        r == mergeable_unary(explist.deep_view(), table@, i as int),
{
    if i >= explist.len() - 1 {
        return false;
    }
    match &explist[i] {
        OpOrExp::Op(UnOrBinOp::UnOp(o)) => table_holds(table, *o) && explist[i + 1].is_exp(),
        _ => false,
    }
}

/// Merges all binary operators of one tier, the leftmost first.
pub fn merge_all_binops<'a>(explist: &mut Vec<OpOrExp<'a>>, binops: &Vec<Operator>)
    ensures
        final(explist).deep_view() == drain_tier(old(explist).deep_view(), binops@),
{
    loop
        invariant
            drain_tier(explist.deep_view(), binops@) == drain_tier(
                old(explist).deep_view(),
                binops@,
            ),
        ensures
            explist.deep_view() == drain_tier(old(explist).deep_view(), binops@),
        decreases explist@.len(),
    {
        let ghost list = explist.deep_view();
        let mut i: usize = 0;
        while i < explist.len() && !can_merge_binary(explist, binops, i)
            invariant
                i <= explist@.len(),
                list == explist.deep_view(),
                first_binary(list, binops@, 0) == first_binary(list, binops@, i as int),
            decreases explist@.len() - i,
        {
            i += 1;
        }
        if i >= explist.len() {
            break;
        }
        let a = explist.remove(i - 1);
        let o = explist.remove(i - 1);
        let b = explist.remove(i - 1);
        let merged = merge_nodes_binop(a, o, b);
        explist.insert(i - 1, merged);
        assert(explist.deep_view() =~= merge_binary_at(list, i as int));
    }
}

/// Applies all unary operators of the table, the rightmost first.
pub fn merge_all_unops<'a>(explist: &mut Vec<OpOrExp<'a>>, table: &Vec<UnOperator>)
    ensures
        final(explist).deep_view() == drain_unary(old(explist).deep_view(), table@),
{
    loop
        invariant
            drain_unary(explist.deep_view(), table@) == drain_unary(
                old(explist).deep_view(),
                table@,
            ),
        ensures
            explist.deep_view() == drain_unary(old(explist).deep_view(), table@),
        decreases explist@.len(),
    {
        let ghost list = explist.deep_view();
        let mut i: usize = explist.len();
        while i > 0 && !can_merge_unary(explist, table, i - 1)
            invariant
                i <= explist@.len(),
                list == explist.deep_view(),
                last_unary(list, table@, list.len() as int) == last_unary(list, table@, i as int),
            decreases i,
        {
            i -= 1;
        }
        if i == 0 {
            break;
        }
        let o = explist.remove(i - 1);
        let a = explist.remove(i - 1);
        let merged = merge_nodes_unop(o, a);
        explist.insert(i - 1, merged);
        assert(explist.deep_view() =~= merge_unary_at(list, i - 1));
    }
}

/// A flat expression: operands and operators in the order of the source. The
/// list has the form that [`alternates`] states, so it always has a tree.
#[derive(Debug, PartialEq)]
pub struct FlatExpr<'a> {
    items: Vec<OpOrExp<'a>>,
}

impl<'a> DeepView for FlatExpr<'a> {
    type V = Seq<OpOrExpV>;

    closed spec fn deep_view(&self) -> Seq<OpOrExpV> {
        self.items.deep_view()
    }
}

impl<'a> FlatExpr<'a> {
    #[verifier::type_invariant]
    spec fn well_formed(self) -> bool {
        alternates(self.items.deep_view())
    }

    /// The flat expression of a list that has the form of one.
    pub fn new(items: Vec<OpOrExp<'a>>) -> (flat: FlatExpr<'a>)
        requires
            alternates(items.deep_view()),
        ensures
            flat.deep_view() == items.deep_view(),
    {
        FlatExpr { items }
    }

    /// The operands and operators, in the order of the source.
    pub fn into_items(self) -> (items: Vec<OpOrExp<'a>>)
        ensures
            items.deep_view() == self.deep_view(),
            alternates(items.deep_view()),
    {
        proof {
            use_type_invariant(&self);
        }
        self.items
    }
}

impl<'a> Expression<'a> {
    /// The tree of a flat expression.
    pub fn from(fe: FlatExpr<'a>) -> (e: Expression<'a>)
        ensures
            spec_resolve(fe.deep_view()) == Some(e.deep_view()),
    {
        let items = fe.into_items();
        proof {
            lemma_flat_expression_resolves(items.deep_view());
        }
        match resolve(items) {
            Some(e) => e,
            None => unreached(),
        }
    }
}

/// Builds the tree of a list of operands and operators. The result is `None`
/// where the list does not come down to one operand.
pub fn resolve<'a>(explist: Vec<OpOrExp<'a>>) -> (r: Option<Expression<'a>>)
    ensures
        r.deep_view() == spec_resolve(explist.deep_view()),
{
    let mut explist = explist;
    let tiers = binop_precedence();
    let table = unops();
    assert(tiers.deep_view()[0] == tiers@[0].deep_view());
    assert(tiers@[0].deep_view() =~= tiers@[0]@);
    merge_all_binops(&mut explist, &tiers[0]);
    merge_all_unops(&mut explist, &table);
    let ghost applied = explist.deep_view();
    let mut k: usize = 0;
    while k < tiers.len()
        invariant
            k <= tiers@.len(),
            tiers.deep_view() == binary_tiers(),
            drain_tiers(explist.deep_view(), binary_tiers(), k as int) == drain_tiers(
                applied,
                binary_tiers(),
                0,
            ),
        decreases tiers@.len() - k,
    {
        assert(tiers.deep_view()[k as int] == tiers@[k as int].deep_view());
        assert(tiers@[k as int].deep_view() =~= tiers@[k as int]@);
        merge_all_binops(&mut explist, &tiers[k]);
        k += 1;
    }
    if explist.len() != 1 {
        return None;
    }
    match explist.pop() {
        Some(OpOrExp::Exp(e)) => Some(e),
        _ => None,
    }
}

/// True for a list in which operands and binary operators alternate, and
/// unary operators stand only in front of an operand or of one another: the
/// form of every flat expression.
pub open spec fn alternates(list: Seq<OpOrExpV>) -> bool {
    &&& list.len() > 0
    &&& forall|i: int|
        0 <= i < list.len() && (#[trigger] list[i]).is_binop() ==> 0 < i < list.len() - 1 && list[i
            - 1].is_exp() && !list[i + 1].is_binop()
    &&& forall|i: int|
        0 <= i < list.len() && (#[trigger] list[i]).is_unop() ==> i < list.len() - 1 && !list[i
            + 1].is_binop()
    &&& forall|i: int|
        0 <= i < list.len() && (#[trigger] list[i]).is_exp() ==> i == list.len() - 1 || list[i
            + 1].is_binop()
}

} // verus!
