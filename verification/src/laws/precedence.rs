//! The tree of a flat expression: precedence, associativity and order.

use vstd::prelude::*;
use crate::ast::{BinaryOpV, ExpressionV, UnaryOpV};
use crate::error::Outcome;
use crate::grammar::expression::{
    flat_items, head_items, lemma_flat_items_alternate, spec_bin_op_chain, spec_expression,
    spec_flatexp, spec_head, ExprHeadV,
};
use crate::precedence::completeness::lemma_flat_expression_resolves;
use crate::precedence::nesting::{lemma_resolve_nests_by_precedence, nested_by_precedence};
use crate::precedence::order::{is_plain, lemma_resolve_keeps_order, lemma_spread_all_plain, spread};
use crate::precedence::{
    drain_tier, drain_tiers, drain_unary, first_binary, last_unary, merge_binary_at, merge_unary_at,
    mergeable_binary, mergeable_unary, spec_resolve, OpOrExpV,
};
use crate::span::SpanV;
use crate::tokens::{
    binary_tiers, lemma_every_operator_has_one_tier, lemma_every_unary_operator_listed, tier_of,
    unary_table, Operator, UnOperator, UnOrBinOp,
};

verus! {

/// The tree of one operand is the operand.
pub proof fn lemma_single_operand_resolves(e: ExpressionV)
    ensures
        spec_resolve(seq![OpOrExpV::Exp(e)]) == Some(e),
{
    let list = seq![OpOrExpV::Exp(e)];
    assert forall|tier: Seq<Operator>| drain_tier(list, tier) == list by {
        reveal_with_fuel(first_binary, 3);
        assert(first_binary(list, tier, 0) == 1);
    }
    assert(drain_unary(list, unary_table()) == list) by {
        reveal_with_fuel(last_unary, 3);
        assert(last_unary(list, unary_table(), 1) == -1);
    }
    assert(binary_tiers().len() == 6);
    assert(drain_tiers(list, binary_tiers(), 0) == list) by {
        reveal_with_fuel(drain_tiers, 8);
    }
}

/// The expression of a binary operator and its two operands.
pub open spec fn binary(left: ExpressionV, op: Operator, right: ExpressionV) -> ExpressionV {
    ExpressionV::BinaryOp(Box::new(BinaryOpV { left, right, op }))
}

/// The expression of a unary operator and its operand.
pub open spec fn unary(op: UnOperator, operand: ExpressionV) -> ExpressionV {
    ExpressionV::UnaryOp(Box::new(UnaryOpV { op, operand }))
}

spec fn operand(e: ExpressionV) -> OpOrExpV {
    OpOrExpV::Exp(e)
}

spec fn binop(o: Operator) -> OpOrExpV {
    OpOrExpV::Op(UnOrBinOp::BinOp(o))
}

spec fn unop(o: UnOperator) -> OpOrExpV {
    OpOrExpV::Op(UnOrBinOp::UnOp(o))
}

proof fn lemma_drain_one(e: ExpressionV, tier: Seq<Operator>)
    ensures
        drain_tier(seq![operand(e)], tier) == seq![operand(e)],
{
    let list = seq![operand(e)];
    reveal_with_fuel(first_binary, 3);
    assert(first_binary(list, tier, 0) == 1);
}

proof fn lemma_drain_three(a: ExpressionV, o: Operator, b: ExpressionV, tier: Seq<Operator>)
    ensures
        drain_tier(seq![operand(a), binop(o), operand(b)], tier) == if tier.contains(o) {
            seq![operand(binary(a, o, b))]
        } else {
            seq![operand(a), binop(o), operand(b)]
        },
{
    let list = seq![operand(a), binop(o), operand(b)];
    reveal_with_fuel(first_binary, 5);
    if tier.contains(o) {
        assert(mergeable_binary(list, tier, 1));
        assert(first_binary(list, tier, 0) == 1);
        assert(merge_binary_at(list, 1) =~= seq![operand(binary(a, o, b))]);
        lemma_drain_one(binary(a, o, b), tier);
    } else {
        assert(first_binary(list, tier, 0) == 3);
    }
}

proof fn lemma_drain_five(
    a: ExpressionV,
    o1: Operator,
    b: ExpressionV,
    o2: Operator,
    c: ExpressionV,
    tier: Seq<Operator>,
)
    ensures
        drain_tier(seq![operand(a), binop(o1), operand(b), binop(o2), operand(c)], tier)
            == if tier.contains(o1) && tier.contains(o2) {
            seq![operand(binary(binary(a, o1, b), o2, c))]
        } else if tier.contains(o1) {
            seq![operand(binary(a, o1, b)), binop(o2), operand(c)]
        } else if tier.contains(o2) {
            seq![operand(a), binop(o1), operand(binary(b, o2, c))]
        } else {
            seq![operand(a), binop(o1), operand(b), binop(o2), operand(c)]
        },
{
    let list = seq![operand(a), binop(o1), operand(b), binop(o2), operand(c)];
    reveal_with_fuel(first_binary, 7);
    if tier.contains(o1) {
        assert(mergeable_binary(list, tier, 1));
        assert(first_binary(list, tier, 0) == 1);
        assert(merge_binary_at(list, 1) =~= seq![
            operand(binary(a, o1, b)),
            binop(o2),
            operand(c),
        ]);
        lemma_drain_three(binary(a, o1, b), o2, c, tier);
    } else if tier.contains(o2) {
        assert(mergeable_binary(list, tier, 3));
        assert(first_binary(list, tier, 0) == 3);
        assert(merge_binary_at(list, 3) =~= seq![
            operand(a),
            binop(o1),
            operand(binary(b, o2, c)),
        ]);
        lemma_drain_three(a, o1, binary(b, o2, c), tier);
    } else {
        assert(first_binary(list, tier, 0) == 5);
    }
}

proof fn lemma_no_unary_to_apply(list: Seq<OpOrExpV>, below: int)
    requires
        0 <= below <= list.len(),
        forall|i: int| 0 <= i < list.len() ==> !(#[trigger] list[i]).is_unop(),
    ensures
        last_unary(list, unary_table(), below) == -1,
    decreases below,
{
    if below > 0 {
        lemma_no_unary_to_apply(list, below - 1);
    }
}

/// The list that is left of `a o1 b o2 c` when the tiers below `k` are merged.
spec fn two_operators_after(
    a: ExpressionV,
    o1: Operator,
    b: ExpressionV,
    o2: Operator,
    c: ExpressionV,
    k: int,
) -> Seq<OpOrExpV> {
    if tier_of(o1) < k && tier_of(o2) < k {
        seq![operand(two_operators_tree(a, o1, b, o2, c))]
    } else if tier_of(o1) < k {
        seq![operand(binary(a, o1, b)), binop(o2), operand(c)]
    } else if tier_of(o2) < k {
        seq![operand(a), binop(o1), operand(binary(b, o2, c))]
    } else {
        seq![operand(a), binop(o1), operand(b), binop(o2), operand(c)]
    }
}

/// The tree of `a o1 b o2 c`: the operator of the tier that binds tighter is
/// applied first, and of two operators of one tier the left one.
pub open spec fn two_operators_tree(
    a: ExpressionV,
    o1: Operator,
    b: ExpressionV,
    o2: Operator,
    c: ExpressionV,
) -> ExpressionV {
    if tier_of(o2) < tier_of(o1) {
        binary(a, o1, binary(b, o2, c))
    } else {
        binary(binary(a, o1, b), o2, c)
    }
}

proof fn lemma_two_operators_step(
    a: ExpressionV,
    o1: Operator,
    b: ExpressionV,
    o2: Operator,
    c: ExpressionV,
    j: int,
    k: int,
)
    requires
        0 <= k < 6,
        k <= j <= 6,
        j == k || j == k + 1,
    ensures
        drain_tier(two_operators_after(a, o1, b, o2, c, j), binary_tiers()[k])
            == two_operators_after(a, o1, b, o2, c, k + 1),
{
    let tier = binary_tiers()[k];
    lemma_every_operator_has_one_tier(o1, k);
    lemma_every_operator_has_one_tier(o2, k);
    lemma_drain_five(a, o1, b, o2, c, tier);
    lemma_drain_three(binary(a, o1, b), o2, c, tier);
    lemma_drain_three(a, o1, binary(b, o2, c), tier);
    lemma_drain_one(two_operators_tree(a, o1, b, o2, c), tier);
}

proof fn lemma_two_operators_tiers(
    a: ExpressionV,
    o1: Operator,
    b: ExpressionV,
    o2: Operator,
    c: ExpressionV,
    k: int,
)
    requires
        0 <= k <= 6,
    ensures
        drain_tiers(two_operators_after(a, o1, b, o2, c, k), binary_tiers(), k) == seq![
            operand(two_operators_tree(a, o1, b, o2, c)),
        ],
    decreases 6 - k,
{
    assert(binary_tiers().len() == 6);
    if k < 6 {
        lemma_two_operators_step(a, o1, b, o2, c, k, k);
        lemma_two_operators_tiers(a, o1, b, o2, c, k + 1);
    } else {
        lemma_every_operator_has_one_tier(o1, 0);
        lemma_every_operator_has_one_tier(o2, 0);
    }
}

/// Precedence and associativity of binary operators: of two operators between
/// three operands, the one of the tier that binds tighter is applied first,
/// and where both are of one tier, the left one.
pub proof fn law_binary_precedence(
    a: ExpressionV,
    o1: Operator,
    b: ExpressionV,
    o2: Operator,
    c: ExpressionV,
)
    ensures
        spec_resolve(
            seq![
                OpOrExpV::Exp(a),
                OpOrExpV::Op(UnOrBinOp::BinOp(o1)),
                OpOrExpV::Exp(b),
                OpOrExpV::Op(UnOrBinOp::BinOp(o2)),
                OpOrExpV::Exp(c),
            ],
        ) == Some(two_operators_tree(a, o1, b, o2, c)),
{
    let list = seq![operand(a), binop(o1), operand(b), binop(o2), operand(c)];
    assert(list == two_operators_after(a, o1, b, o2, c, 0)) by {
        lemma_every_operator_has_one_tier(o1, 0);
        lemma_every_operator_has_one_tier(o2, 0);
    }
    lemma_two_operators_step(a, o1, b, o2, c, 0, 0);
    let first = two_operators_after(a, o1, b, o2, c, 1);
    assert(drain_tier(list, binary_tiers()[0]) == first);
    lemma_no_unary_to_apply(first, first.len() as int);
    assert(drain_unary(first, unary_table()) == first);
    lemma_two_operators_step(a, o1, b, o2, c, 1, 0);
    assert(drain_tiers(first, binary_tiers(), 0) == drain_tiers(first, binary_tiers(), 1)) by {
        assert(binary_tiers().len() == 6);
    }
    lemma_two_operators_tiers(a, o1, b, o2, c, 1);
}

proof fn lemma_drain_two(u: UnOperator, a: ExpressionV, tier: Seq<Operator>)
    ensures
        drain_tier(seq![unop(u), operand(a)], tier) == seq![unop(u), operand(a)],
{
    let list = seq![unop(u), operand(a)];
    reveal_with_fuel(first_binary, 4);
    assert(first_binary(list, tier, 0) == 2);
}

proof fn lemma_drain_four(
    u: UnOperator,
    a: ExpressionV,
    o: Operator,
    b: ExpressionV,
    tier: Seq<Operator>,
)
    ensures
        drain_tier(seq![unop(u), operand(a), binop(o), operand(b)], tier) == if tier.contains(o) {
            seq![unop(u), operand(binary(a, o, b))]
        } else {
            seq![unop(u), operand(a), binop(o), operand(b)]
        },
{
    let list = seq![unop(u), operand(a), binop(o), operand(b)];
    reveal_with_fuel(first_binary, 6);
    if tier.contains(o) {
        assert(mergeable_binary(list, tier, 2));
        assert(first_binary(list, tier, 0) == 2);
        assert(merge_binary_at(list, 2) =~= seq![unop(u), operand(binary(a, o, b))]);
        lemma_drain_two(u, binary(a, o, b), tier);
    } else {
        assert(first_binary(list, tier, 0) == 4);
    }
}

proof fn lemma_apply_one_unary(u: UnOperator, a: ExpressionV, tail: Seq<OpOrExpV>)
    requires
        forall|i: int| 0 <= i < tail.len() ==> !(#[trigger] tail[i]).is_unop(),
    ensures
        drain_unary(seq![unop(u), operand(a)] + tail, unary_table()) == seq![
            operand(unary(u, a)),
        ] + tail,
{
    let list = seq![unop(u), operand(a)] + tail;
    let table = unary_table();
    lemma_every_unary_operator_listed(u);
    assert(mergeable_unary(list, table, 0));
    assert forall|i: int| 1 <= i < list.len() implies !mergeable_unary(list, table, i) by {
        if i >= 2 {
            assert(list[i] == tail[i - 2]);
        }
    }
    lemma_last_unary_is(list, table, list.len() as int, 0);
    let merged = seq![operand(unary(u, a))] + tail;
    assert(merge_unary_at(list, 0) =~= merged);
    assert forall|i: int| 0 <= i < merged.len() implies !(#[trigger] merged[i]).is_unop() by {
        if i >= 1 {
            assert(merged[i] == tail[i - 1]);
        }
    }
    lemma_no_unary_to_apply(merged, merged.len() as int);
    assert(last_unary(list, table, list.len() as int) == 0);
    assert(drain_unary(list, table) == drain_unary(merged, table));
    assert(!mergeable_unary(merged, table, -1));
    assert(drain_unary(merged, table) == merged);
}

proof fn lemma_last_unary_is(list: Seq<OpOrExpV>, table: Seq<UnOperator>, below: int, i: int)
    requires
        0 <= i < below <= list.len(),
        mergeable_unary(list, table, i),
        forall|j: int| i < j < list.len() ==> !mergeable_unary(list, table, j),
    ensures
        last_unary(list, table, below) == i,
    decreases below,
{
    if below - 1 > i {
        lemma_last_unary_is(list, table, below - 1, i);
    }
}

/// The list that is left of `a o b` when the tiers below `k` are merged.
spec fn one_operator_after(a: ExpressionV, o: Operator, b: ExpressionV, k: int) -> Seq<OpOrExpV> {
    if tier_of(o) < k {
        seq![operand(binary(a, o, b))]
    } else {
        seq![operand(a), binop(o), operand(b)]
    }
}

proof fn lemma_one_operator_tiers(a: ExpressionV, o: Operator, b: ExpressionV, k: int)
    requires
        0 <= k <= 6,
    ensures
        drain_tiers(one_operator_after(a, o, b, k), binary_tiers(), k) == seq![
            operand(binary(a, o, b)),
        ],
    decreases 6 - k,
{
    assert(binary_tiers().len() == 6);
    lemma_every_operator_has_one_tier(o, 0);
    if k < 6 {
        lemma_every_operator_has_one_tier(o, k);
        lemma_drain_three(a, o, b, binary_tiers()[k]);
        lemma_drain_one(binary(a, o, b), binary_tiers()[k]);
        lemma_one_operator_tiers(a, o, b, k + 1);
    }
}

proof fn lemma_one_operand_tiers(e: ExpressionV, k: int)
    requires
        0 <= k <= 6,
    ensures
        drain_tiers(seq![operand(e)], binary_tiers(), k) == seq![operand(e)],
    decreases 6 - k,
{
    assert(binary_tiers().len() == 6);
    if k < 6 {
        lemma_drain_one(e, binary_tiers()[k]);
        lemma_one_operand_tiers(e, k + 1);
    }
}

/// The tree of `u a o b`: the unary operator is applied to its operand before
/// every binary operator but those of the tier that binds tightest.
pub open spec fn unary_then_binary_tree(
    u: UnOperator,
    a: ExpressionV,
    o: Operator,
    b: ExpressionV,
) -> ExpressionV {
    if tier_of(o) == 0 {
        unary(u, binary(a, o, b))
    } else {
        binary(unary(u, a), o, b)
    }
}

/// Precedence of unary operators: a unary operator binds tighter than every
/// binary operator but those of the first tier.
pub proof fn law_unary_precedence(u: UnOperator, a: ExpressionV, o: Operator, b: ExpressionV)
    ensures
        spec_resolve(
            seq![
                OpOrExpV::Op(UnOrBinOp::UnOp(u)),
                OpOrExpV::Exp(a),
                OpOrExpV::Op(UnOrBinOp::BinOp(o)),
                OpOrExpV::Exp(b),
            ],
        ) == Some(unary_then_binary_tree(u, a, o, b)),
{
    let list = seq![unop(u), operand(a), binop(o), operand(b)];
    let tiers = binary_tiers();
    lemma_every_operator_has_one_tier(o, 0);
    lemma_drain_four(u, a, o, b, tiers[0]);
    if tier_of(o) == 0 {
        let first = seq![unop(u), operand(binary(a, o, b))];
        assert(drain_tier(list, tiers[0]) == first);
        lemma_apply_one_unary(u, binary(a, o, b), Seq::empty());
        assert(first + Seq::<OpOrExpV>::empty() =~= first);
        let applied = seq![operand(unary(u, binary(a, o, b)))];
        assert(applied + Seq::<OpOrExpV>::empty() =~= applied);
        assert(drain_unary(first, unary_table()) == applied);
        lemma_one_operand_tiers(unary(u, binary(a, o, b)), 0);
    } else {
        assert(drain_tier(list, tiers[0]) == list);
        let tail = seq![binop(o), operand(b)];
        lemma_apply_one_unary(u, a, tail);
        assert(seq![unop(u), operand(a)] + tail =~= list);
        let applied = seq![operand(unary(u, a)), binop(o), operand(b)];
        assert(seq![operand(unary(u, a))] + tail =~= applied);
        assert(drain_unary(list, unary_table()) == applied);
        assert(applied == one_operator_after(unary(u, a), o, b, 0));
        lemma_one_operator_tiers(unary(u, a), o, b, 0);
    }
}

/// Stacked unary operators nest from the right: the operator next to the
/// operand is applied first.
pub proof fn law_unary_operators_nest(u1: UnOperator, u2: UnOperator, a: ExpressionV)
    ensures
        spec_resolve(
            seq![
                OpOrExpV::Op(UnOrBinOp::UnOp(u1)),
                OpOrExpV::Op(UnOrBinOp::UnOp(u2)),
                OpOrExpV::Exp(a),
            ],
        ) == Some(unary(u1, unary(u2, a))),
{
    let list = seq![unop(u1), unop(u2), operand(a)];
    let tiers = binary_tiers();
    let table = unary_table();
    assert(drain_tier(list, tiers[0]) == list) by {
        reveal_with_fuel(first_binary, 5);
        assert(first_binary(list, tiers[0], 0) == 3);
    }
    lemma_every_unary_operator_listed(u1);
    lemma_every_unary_operator_listed(u2);
    assert(mergeable_unary(list, table, 1));
    lemma_last_unary_is(list, table, 3, 1);
    let inner = seq![unop(u1), operand(unary(u2, a))];
    assert(merge_unary_at(list, 1) =~= inner);
    lemma_apply_one_unary(u1, unary(u2, a), Seq::empty());
    assert(inner + Seq::<OpOrExpV>::empty() =~= inner);
    let applied = seq![operand(unary(u1, unary(u2, a)))];
    assert(applied + Seq::<OpOrExpV>::empty() =~= applied);
    assert(drain_unary(list, table) == applied);
    lemma_one_operand_tiers(unary(u1, unary(u2, a)), 0);
}

/// Every flat expression has a tree: the list of a head and a chain of
/// operators and heads always comes down to one operand.
pub proof fn law_flat_expression_has_a_tree(head: ExprHeadV, chain: Seq<(Operator, ExprHeadV)>)
    ensures
        spec_resolve(flat_items(head, chain)) is Some,
{
    lemma_flat_items_alternate(head, chain);
    lemma_flat_expression_resolves(flat_items(head, chain));
}

proof fn lemma_flat_items_plain(head: ExprHeadV, chain: Seq<(Operator, ExprHeadV)>)
    ensures
        forall|i: int|
            0 <= i < flat_items(head, chain).len() ==> is_plain(
                #[trigger] flat_items(head, chain)[i],
            ),
    decreases chain.len(),
{
    if chain.len() > 0 {
        lemma_flat_items_plain(head, chain.drop_last());
        let before = flat_items(head, chain.drop_last());
        let next = head_items(chain.last().1);
        let list = flat_items(head, chain);
        assert forall|i: int| 0 <= i < list.len() implies is_plain(#[trigger] list[i]) by {
            if i < before.len() {
                assert(list[i] == before[i]);
            } else if i > before.len() {
                assert(list[i] == next[i - before.len() - 1]);
            }
        }
    }
}

/// The tree of a flat expression has the operands and operators of the flat
/// expression, in the order of the source.
pub proof fn law_tree_keeps_source_order(head: ExprHeadV, chain: Seq<(Operator, ExprHeadV)>)
    ensures
        spec_resolve(flat_items(head, chain)) is Some,
        spread(spec_resolve(flat_items(head, chain))->Some_0) == flat_items(head, chain),
{
    law_flat_expression_has_a_tree(head, chain);
    lemma_resolve_keeps_order(flat_items(head, chain));
    lemma_flat_items_plain(head, chain);
    lemma_spread_all_plain(flat_items(head, chain));
}

/// The tree of a flat expression is nested by precedence: under a binary
/// operator, the left operand is made by no operator of a later tier and the
/// right operand by none but of an earlier tier, and the operand of a unary
/// operator is made by no binary operator but of the first tier.
pub proof fn law_tree_is_nested_by_precedence(head: ExprHeadV, chain: Seq<(Operator, ExprHeadV)>)
    ensures
        spec_resolve(flat_items(head, chain)) matches Some(tree) && nested_by_precedence(tree),
{
    lemma_flat_items_alternate(head, chain);
    lemma_flat_items_plain(head, chain);
    lemma_resolve_nests_by_precedence(flat_items(head, chain));
}

/// An expression is parsed wherever a flat expression is, with the same input
/// left, and fails as the flat expression does wherever that fails: making the
/// tree never fails.
pub proof fn law_expression_follows_flat_expression(input: SpanV)
    ensures
        match spec_flatexp(input) {
            Outcome::Done { rest, value } => spec_expression(input) == (Outcome::Done {
                rest,
                value: spec_resolve(value)->Some_0,
            }) && spec_resolve(value) is Some,
            Outcome::Failed { error } => spec_expression(input) == (Outcome::<
                ExpressionV,
            >::Failed { error }),
        },
{
    match spec_head(input).within(input) {
        Outcome::Done { rest, value: head } => {
            match spec_bin_op_chain(rest) {
                Outcome::Done { rest, value: chain } => {
                    law_flat_expression_has_a_tree(head, chain);
                },
                Outcome::Failed { error } => {},
            }
        },
        Outcome::Failed { error } => {},
    }
}

} // verus!
