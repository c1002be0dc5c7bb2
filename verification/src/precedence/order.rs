//! The tree of a list has the operands and operators of the list, in the
//! order of the source.

use vstd::prelude::*;
use crate::ast::ExpressionV;
use crate::precedence::{
    drain_tier, drain_tiers, drain_unary, first_binary, last_unary, merge_binary_at, merge_unary_at,
    mergeable_binary, mergeable_unary, merged_binary, merged_unary, spec_resolve, OpOrExpV,
};
use crate::tokens::{binary_tiers, unary_table, Operator, UnOperator, UnOrBinOp};

verus! {

/// The operands and operators of an expression in the order of the source.
/// An expression that is made by a binary or a unary operator is taken apart;
/// every other expression is one operand.
pub open spec fn spread(e: ExpressionV) -> Seq<OpOrExpV>
    decreases e,
{
    match e {
        ExpressionV::BinaryOp(b) => spread(b.left).push(OpOrExpV::Op(UnOrBinOp::BinOp(b.op)))
            + spread(b.right),
        ExpressionV::UnaryOp(u) => seq![OpOrExpV::Op(UnOrBinOp::UnOp(u.op))] + spread(u.operand),
        _ => seq![OpOrExpV::Exp(e)],
    }
}

/// The operands and operators of one item of a list.
pub open spec fn spread_item(item: OpOrExpV) -> Seq<OpOrExpV> {
    match item {
        OpOrExpV::Exp(e) => spread(e),
        OpOrExpV::Op(o) => seq![item],
    }
}

/// The operands and operators of a list in the order of the source, every
/// operand taken apart.
pub open spec fn spread_all(list: Seq<OpOrExpV>) -> Seq<OpOrExpV>
    decreases list.len(),
{
    if list.len() == 0 {
        Seq::empty()
    } else {
        spread_all(list.drop_last()) + spread_item(list.last())
    }
}

/// True for an operand that no operator has made, and for every operator.
pub open spec fn is_plain(item: OpOrExpV) -> bool {
    item matches OpOrExpV::Exp(e) ==> !(e is BinaryOp) && !(e is UnaryOp)
}

/// Taking a list apart goes part by part.
pub proof fn lemma_spread_all_concat(a: Seq<OpOrExpV>, b: Seq<OpOrExpV>)
    ensures
        spread_all(a + b) == spread_all(a) + spread_all(b),
    decreases b.len(),
{
    if b.len() == 0 {
        assert(a + b =~= a);
        assert(spread_all(a) + spread_all(b) =~= spread_all(a));
    } else {
        assert((a + b).drop_last() =~= a + b.drop_last());
        assert((a + b).last() == b.last());
        lemma_spread_all_concat(a, b.drop_last());
        assert(spread_all(a + b) =~= spread_all(a) + spread_all(b));
    }
}

/// A list of plain items taken apart is the list itself.
pub proof fn lemma_spread_all_plain(list: Seq<OpOrExpV>)
    requires
        forall|i: int| 0 <= i < list.len() ==> is_plain(#[trigger] list[i]),
    ensures
        spread_all(list) == list,
    decreases list.len(),
{
    if list.len() > 0 {
        let front = list.drop_last();
        assert forall|i: int| 0 <= i < front.len() implies is_plain(#[trigger] front[i]) by {
            assert(front[i] == list[i]);
        }
        lemma_spread_all_plain(front);
        assert(is_plain(list.last()));
        assert(spread_item(list.last()) =~= seq![list.last()]);
        assert(spread_all(list) =~= list);
    } else {
        assert(spread_all(list) =~= list);
    }
}

/// Taking apart a list with one more item at its end.
pub proof fn lemma_spread_all_push(list: Seq<OpOrExpV>, item: OpOrExpV)
    ensures
        spread_all(list.push(item)) == spread_all(list) + spread_item(item),
{
    assert(list.push(item).drop_last() =~= list);
    assert(list.push(item).last() == item);
}

proof fn lemma_spread_all_one(item: OpOrExpV)
    ensures
        spread_all(seq![item]) == spread_item(item),
{
    let none = Seq::<OpOrExpV>::empty();
    assert(seq![item] =~= none.push(item));
    lemma_spread_all_push(none, item);
    assert(spread_all(none) =~= none);
    assert(none + spread_item(item) =~= spread_item(item));
}

/// Merging a binary operator keeps the operands and operators of a list and
/// their order.
pub proof fn lemma_merge_binary_spread(list: Seq<OpOrExpV>, tier: Seq<Operator>, i: int)
    requires
        mergeable_binary(list, tier, i),
    ensures
        spread_all(merge_binary_at(list, i)) == spread_all(list),
{
    let front = list.take(i - 1);
    let back = list.skip(i + 2);
    let a = list[i - 1];
    let o = list[i];
    let b = list[i + 1];
    let merged = merged_binary(a, o, b);
    let three = front.push(a).push(o).push(b);
    assert(list =~= three + back);
    assert(merge_binary_at(list, i) =~= front.push(merged) + back);
    lemma_spread_all_concat(front.push(merged), back);
    lemma_spread_all_concat(three, back);
    lemma_spread_all_push(front, merged);
    lemma_spread_all_push(front, a);
    lemma_spread_all_push(front.push(a), o);
    lemma_spread_all_push(front.push(a).push(o), b);
    assert(spread_item(o) =~= seq![o]);
    assert(spread_item(merged) =~= spread_item(a) + spread_item(o) + spread_item(b));
    assert(spread_all(three) =~= spread_all(front) + spread_item(merged));
}

/// Merging a unary operator keeps the operands and operators of a list and
/// their order.
pub proof fn lemma_merge_unary_spread(list: Seq<OpOrExpV>, table: Seq<UnOperator>, i: int)
    requires
        mergeable_unary(list, table, i),
    ensures
        spread_all(merge_unary_at(list, i)) == spread_all(list),
{
    let front = list.take(i);
    let back = list.skip(i + 2);
    let o = list[i];
    let a = list[i + 1];
    let merged = merged_unary(o, a);
    let two = front.push(o).push(a);
    assert(list =~= two + back);
    assert(merge_unary_at(list, i) =~= front.push(merged) + back);
    lemma_spread_all_concat(front.push(merged), back);
    lemma_spread_all_concat(two, back);
    lemma_spread_all_push(front, merged);
    lemma_spread_all_push(front, o);
    lemma_spread_all_push(front.push(o), a);
    assert(spread_item(o) =~= seq![o]);
    assert(spread_item(merged) =~= spread_item(o) + spread_item(a));
    assert(spread_all(two) =~= spread_all(front) + spread_item(merged));
}

/// Merging one tier keeps the operands and operators of a list and their
/// order.
pub proof fn lemma_drain_tier_spread(list: Seq<OpOrExpV>, tier: Seq<Operator>)
    ensures
        spread_all(drain_tier(list, tier)) == spread_all(list),
    decreases list.len(),
{
    let i = first_binary(list, tier, 0);
    if mergeable_binary(list, tier, i) {
        lemma_merge_binary_spread(list, tier, i);
        lemma_drain_tier_spread(merge_binary_at(list, i), tier);
    }
}

/// Applying the unary operators keeps the operands and operators of a list
/// and their order.
pub proof fn lemma_drain_unary_spread(list: Seq<OpOrExpV>, table: Seq<UnOperator>)
    ensures
        spread_all(drain_unary(list, table)) == spread_all(list),
    decreases list.len(),
{
    let i = last_unary(list, table, list.len() as int);
    if mergeable_unary(list, table, i) {
        lemma_merge_unary_spread(list, table, i);
        lemma_drain_unary_spread(merge_unary_at(list, i), table);
    }
}

/// Merging the tiers from `from` on keeps the operands and operators of a list
/// and their order.
pub proof fn lemma_drain_tiers_spread(list: Seq<OpOrExpV>, tiers: Seq<Seq<Operator>>, from: int)
    ensures
        spread_all(drain_tiers(list, tiers, from)) == spread_all(list),
    decreases tiers.len() - from,
{
    if 0 <= from < tiers.len() {
        lemma_drain_tier_spread(list, tiers[from]);
        lemma_drain_tiers_spread(drain_tier(list, tiers[from]), tiers, from + 1);
    }
}

/// The tree of a list has the operands and operators of the list, in their
/// order.
pub proof fn lemma_resolve_keeps_order(list: Seq<OpOrExpV>)
    requires
        spec_resolve(list) is Some,
    ensures
        spread(spec_resolve(list)->Some_0) == spread_all(list),
{
    let first = drain_tier(list, binary_tiers()[0]);
    let applied = drain_unary(first, unary_table());
    let merged = drain_tiers(applied, binary_tiers(), 0);
    lemma_drain_tier_spread(list, binary_tiers()[0]);
    lemma_drain_unary_spread(first, unary_table());
    lemma_drain_tiers_spread(applied, binary_tiers(), 0);
    assert(merged =~= seq![merged[0]]);
    lemma_spread_all_one(merged[0]);
}

} // verus!
