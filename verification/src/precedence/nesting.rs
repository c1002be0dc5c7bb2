//! The tree of a flat expression is nested by the precedence of its
//! operators.

use vstd::prelude::*;
use crate::ast::ExpressionV;
use crate::precedence::completeness::{
    from_tier, lemma_drain_tier_alternates, lemma_drain_unary_applies_all, lemma_first_binary,
    lemma_flat_expression_resolves, lemma_merge_binary_keeps, lemma_merge_unary_keeps,
};
use crate::precedence::order::is_plain;
use crate::precedence::{
    alternates, drain_tier, drain_tiers, drain_unary, first_binary, last_unary, merge_binary_at,
    merge_unary_at, mergeable_binary, mergeable_unary, merged_binary, merged_unary, spec_resolve,
    OpOrExpV,
};
use crate::tokens::{
    binary_tiers, lemma_every_operator_has_one_tier, tier_of, unary_table, Operator,
};

verus! {

/// The tier of the binary operator that makes an expression, -1 for an
/// expression that no binary operator makes.
pub open spec fn top_tier(e: ExpressionV) -> int {
    match e {
        ExpressionV::BinaryOp(b) => tier_of(b.op),
        _ => -1,
    }
}

/// True for a tree in which the binary operators are nested by their
/// precedence. The left operand of a binary operator is made by no binary
/// operator of a later tier, the right operand by none but of an earlier tier,
/// and the operand of a unary operator by none but of the first tier. An
/// expression that no operator makes counts as one operand.
pub open spec fn nested_by_precedence(e: ExpressionV) -> bool
    decreases e,
{
    match e {
        ExpressionV::BinaryOp(b) => {
            &&& nested_by_precedence(b.left)
            &&& nested_by_precedence(b.right)
            &&& top_tier(b.left) <= tier_of(b.op)
            &&& top_tier(b.right) < tier_of(b.op)
        },
        ExpressionV::UnaryOp(u) => nested_by_precedence(u.operand) && top_tier(u.operand) <= 0,
        _ => true,
    }
}

/// True for an item that is an operator, or an operand that is nested by
/// precedence and made by no operator of a tier after `k`.
pub open spec fn settled(item: OpOrExpV, k: int) -> bool {
    item matches OpOrExpV::Exp(e) ==> nested_by_precedence(e) && top_tier(e) <= k
}

/// True for a list whose operands all are settled up to the tier `k`.
pub open spec fn all_settled(list: Seq<OpOrExpV>, k: int) -> bool {
    forall|i: int| 0 <= i < list.len() ==> settled(#[trigger] list[i], k)
}

/// True for a list in which the operand to the right of a binary operator of
/// the tier `k` is made by an operator of an earlier tier or by none.
pub open spec fn right_operands_fresh(list: Seq<OpOrExpV>, k: int) -> bool {
    forall|i: int|
        0 <= i < list.len() - 1 && from_tier(#[trigger] list[i], k) && list[i].is_binop()
            && !from_tier(list[i], k + 1) ==> (list[i + 1] matches OpOrExpV::Exp(e) ==> top_tier(e)
            < k)
}

proof fn lemma_merge_binary_settled(list: Seq<OpOrExpV>, k: int, i: int)
    requires
        0 <= k < binary_tiers().len(),
        alternates(list),
        mergeable_binary(list, binary_tiers()[k], i),
        forall|j: int| 0 <= j < i ==> !mergeable_binary(list, binary_tiers()[k], j),
        all_settled(list, k),
        right_operands_fresh(list, k),
    ensures
        all_settled(merge_binary_at(list, i), k),
        right_operands_fresh(merge_binary_at(list, i), k),
{
    let tier = binary_tiers()[k];
    let merged = merge_binary_at(list, i);
    let o = list[i]->Op_0->BinOp_0;
    lemma_every_operator_has_one_tier(o, k);
    assert(merged.len() == list.len() - 2);
    assert forall|j: int| 0 <= j < merged.len() implies #[trigger] merged[j] == (if j < i - 1 {
        list[j]
    } else if j == i - 1 {
        merged_binary(list[i - 1], list[i], list[i + 1])
    } else {
        list[j + 2]
    }) by {}
    assert(settled(list[i - 1], k));
    assert(settled(list[i + 1], k));
    assert(from_tier(list[i], k) && !from_tier(list[i], k + 1));
    assert forall|j: int| 0 <= j < merged.len() implies settled(#[trigger] merged[j], k) by {
        if j < i - 1 {
            assert(settled(list[j], k));
        } else if j > i - 1 {
            assert(settled(list[j + 2], k));
        }
    }
    assert forall|j: int|
        0 <= j < merged.len() - 1 && from_tier(#[trigger] merged[j], k) && merged[j].is_binop()
            && !from_tier(merged[j], k + 1) implies (merged[j + 1] matches OpOrExpV::Exp(e)
        ==> top_tier(e) < k) by {
        if j < i - 2 {
            assert(from_tier(list[j], k));
        } else if j == i - 2 {
            let p = list[j]->Op_0->BinOp_0;
            lemma_every_operator_has_one_tier(p, k);
            assert(list[j].is_binop());
            assert(mergeable_binary(list, tier, j));
        } else {
            assert(from_tier(list[j + 2], k));
        }
    }
}

/// Merging the tier `k` keeps the operands nested by precedence.
pub proof fn lemma_drain_tier_settled(list: Seq<OpOrExpV>, k: int)
    requires
        0 <= k < binary_tiers().len(),
        alternates(list),
        all_settled(list, k),
        right_operands_fresh(list, k),
    ensures
        all_settled(drain_tier(list, binary_tiers()[k]), k),
        forall|j: int|
            0 <= j < drain_tier(list, binary_tiers()[k]).len() ==> !mergeable_binary(
                drain_tier(list, binary_tiers()[k]),
                binary_tiers()[k],
                j,
            ),
    decreases list.len(),
{
    let tier = binary_tiers()[k];
    let i = first_binary(list, tier, 0);
    lemma_first_binary(list, tier, 0);
    if mergeable_binary(list, tier, i) {
        lemma_first_binary_is_first(list, tier, 0, i);
        lemma_merge_binary_keeps(list, tier, i, 0);
        lemma_merge_binary_settled(list, k, i);
        lemma_drain_tier_settled(merge_binary_at(list, i), k);
    }
}

/// No binary operator can be merged before the first that can.
pub proof fn lemma_first_binary_is_first(
    list: Seq<OpOrExpV>,
    tier: Seq<Operator>,
    from: int,
    i: int,
)
    requires
        0 <= from,
        i == first_binary(list, tier, from),
    ensures
        forall|j: int| from <= j < i ==> !mergeable_binary(list, tier, j),
    decreases list.len() - from,
{
    if from < list.len() && !mergeable_binary(list, tier, from) {
        lemma_first_binary_is_first(list, tier, from + 1, i);
    }
}

/// True for a list in which the operand to the right of a binary operator of
/// the first tier, where it is an operand, is made by no binary operator.
pub open spec fn first_tier_waits(list: Seq<OpOrExpV>) -> bool {
    forall|i: int|
        0 <= i < list.len() - 1 && (#[trigger] list[i]).is_binop() && !from_tier(list[i], 1) ==> (
        list[i + 1] matches OpOrExpV::Exp(e) ==> top_tier(e) < 0)
}

proof fn lemma_merge_unary_settled(list: Seq<OpOrExpV>, i: int)
    requires
        alternates(list),
        mergeable_unary(list, unary_table(), i),
        all_settled(list, 0),
        first_tier_waits(list),
    ensures
        all_settled(merge_unary_at(list, i), 0),
        first_tier_waits(merge_unary_at(list, i)),
{
    let merged = merge_unary_at(list, i);
    assert(merged.len() == list.len() - 1);
    assert forall|j: int| 0 <= j < merged.len() implies #[trigger] merged[j] == (if j < i {
        list[j]
    } else if j == i {
        merged_unary(list[i], list[i + 1])
    } else {
        list[j + 1]
    }) by {}
    assert(settled(list[i + 1], 0));
    assert forall|j: int| 0 <= j < merged.len() implies settled(#[trigger] merged[j], 0) by {
        if j < i {
            assert(settled(list[j], 0));
        } else if j > i {
            assert(settled(list[j + 1], 0));
        }
    }
    assert forall|j: int|
        0 <= j < merged.len() - 1 && (#[trigger] merged[j]).is_binop() && !from_tier(
            merged[j],
            1,
        ) implies (merged[j + 1] matches OpOrExpV::Exp(e) ==> top_tier(e) < 0) by {
        if j < i - 1 {
            assert(list[j].is_binop());
        } else if j == i - 1 {
            assert(list[j].is_binop());
        } else {
            assert(list[j + 1].is_binop());
        }
    }
}

/// Applying the unary operators keeps the operands nested by precedence.
pub proof fn lemma_drain_unary_settled(list: Seq<OpOrExpV>)
    requires
        alternates(list),
        all_settled(list, 0),
        first_tier_waits(list),
    ensures
        all_settled(drain_unary(list, unary_table()), 0),
        first_tier_waits(drain_unary(list, unary_table())),
    decreases list.len(),
{
    let table = unary_table();
    let i = last_unary(list, table, list.len() as int);
    if mergeable_unary(list, table, i) {
        lemma_merge_unary_keeps(list, table, i);
        lemma_merge_unary_settled(list, i);
        lemma_drain_unary_settled(merge_unary_at(list, i));
    }
}

/// Merging the tiers from `k` on keeps the operands nested by precedence.
pub proof fn lemma_drain_tiers_settled(list: Seq<OpOrExpV>, k: int)
    requires
        0 <= k <= binary_tiers().len(),
        alternates(list),
        all_settled(list, k),
        k < binary_tiers().len() ==> right_operands_fresh(list, k),
    ensures
        all_settled(drain_tiers(list, binary_tiers(), k), binary_tiers().len() as int),
    decreases binary_tiers().len() - k,
{
    if k < binary_tiers().len() {
        let next = drain_tier(list, binary_tiers()[k]);
        lemma_drain_tier_settled(list, k);
        lemma_drain_tier_alternates(list, binary_tiers()[k]);
        assert(all_settled(next, k + 1)) by {
            assert forall|i: int| 0 <= i < next.len() implies settled(
                #[trigger] next[i],
                k + 1,
            ) by {
                assert(settled(next[i], k));
            }
        }
        assert(right_operands_fresh(next, k + 1)) by {
            assert forall|i: int|
                0 <= i < next.len() - 1 && from_tier(#[trigger] next[i], k + 1)
                    && next[i].is_binop() && !from_tier(next[i], k + 2) implies (next[i
                + 1] matches OpOrExpV::Exp(e) ==> top_tier(e) < k + 1) by {
                assert(settled(next[i + 1], k));
            }
        }
        lemma_drain_tiers_settled(next, k + 1);
    } else {
        assert forall|i: int| 0 <= i < list.len() implies settled(
            #[trigger] list[i],
            binary_tiers().len() as int,
        ) by {
            assert(settled(list[i], k));
        }
    }
}

/// The tree of a flat expression whose operands are plain is nested by
/// precedence.
pub proof fn lemma_resolve_nests_by_precedence(list: Seq<OpOrExpV>)
    requires
        alternates(list),
        forall|i: int| 0 <= i < list.len() ==> is_plain(#[trigger] list[i]),
    ensures
        spec_resolve(list) matches Some(e) && nested_by_precedence(e),
{
    lemma_flat_expression_resolves(list);
    let tiers = binary_tiers();
    assert(tiers.len() == 6) by {
        lemma_every_operator_has_one_tier(Operator::Add, 0);
    }
    assert forall|i: int| 0 <= i < list.len() implies settled(#[trigger] list[i], 0) by {
        assert(is_plain(list[i]));
    }
    assert(right_operands_fresh(list, 0)) by {
        assert forall|i: int|
            0 <= i < list.len() - 1 && from_tier(#[trigger] list[i], 0) && list[i].is_binop()
                && !from_tier(list[i], 1) implies (list[i + 1] matches OpOrExpV::Exp(e)
            ==> top_tier(e) < 0) by {
            assert(is_plain(list[i + 1]));
        }
    }
    let first = drain_tier(list, tiers[0]);
    lemma_drain_tier_settled(list, 0);
    lemma_drain_tier_alternates(list, tiers[0]);
    assert(first_tier_waits(first)) by {
        assert forall|i: int|
            0 <= i < first.len() - 1 && (#[trigger] first[i]).is_binop() && !from_tier(
                first[i],
                1,
            ) implies (first[i + 1] matches OpOrExpV::Exp(e) ==> top_tier(e) < 0) by {
            let o = first[i]->Op_0->BinOp_0;
            lemma_every_operator_has_one_tier(o, 0);
            if first[i + 1].is_exp() {
                assert(mergeable_binary(first, tiers[0], i));
            }
        }
    }
    let applied = drain_unary(first, unary_table());
    lemma_drain_unary_settled(first);
    lemma_drain_unary_applies_all(first);
    assert(right_operands_fresh(applied, 0)) by {
        assert forall|i: int|
            0 <= i < applied.len() - 1 && from_tier(#[trigger] applied[i], 0)
                && applied[i].is_binop() && !from_tier(applied[i], 1) implies (applied[i
            + 1] matches OpOrExpV::Exp(e) ==> top_tier(e) < 0) by {}
    }
    lemma_drain_tiers_settled(applied, 0);
    let merged = drain_tiers(applied, tiers, 0);
    assert(settled(merged[0], 6));
}

} // verus!
