//! Every flat expression has a tree: merging a list that has the form of a
//! flat expression always comes down to one operand.

use vstd::prelude::*;
use crate::precedence::{
    alternates, drain_tier, drain_tiers, drain_unary, first_binary, last_unary, merge_binary_at,
    merge_unary_at, mergeable_binary, mergeable_unary, merged_binary, merged_unary, spec_resolve,
    OpOrExpV,
};
use crate::tokens::{
    binary_tiers, lemma_every_operator_has_one_tier, lemma_every_unary_operator_listed, tier_of,
    unary_table, Operator, UnOperator, UnOrBinOp,
};

verus! {

/// True for a list without unary operators.
pub open spec fn no_unops(list: Seq<OpOrExpV>) -> bool {
    forall|i: int| 0 <= i < list.len() ==> !(#[trigger] list[i]).is_unop()
}

/// True for an item that is no binary operator of a tier before `k`.
pub open spec fn from_tier(item: OpOrExpV, k: int) -> bool {
    item matches OpOrExpV::Op(UnOrBinOp::BinOp(o)) ==> tier_of(o) >= k
}

/// True for a list whose binary operators all are of the tier `k` or of a
/// later one.
pub open spec fn binops_from(list: Seq<OpOrExpV>, k: int) -> bool {
    forall|i: int| 0 <= i < list.len() ==> from_tier(#[trigger] list[i], k)
}

/// Where no binary operator can be merged from `from` on, there is none
/// before the end; else the first one is found.
pub proof fn lemma_first_binary(list: Seq<OpOrExpV>, tier: Seq<Operator>, from: int)
    requires
        0 <= from,
    ensures
        from <= first_binary(list, tier, from) || first_binary(list, tier, from) == list.len(),
        mergeable_binary(list, tier, first_binary(list, tier, from)) || forall|j: int|
            from <= j < list.len() ==> !mergeable_binary(list, tier, j),
    decreases list.len() - from,
{
    if from < list.len() && !mergeable_binary(list, tier, from) {
        lemma_first_binary(list, tier, from + 1);
    }
}

/// Where no unary operator can be merged below `below`, there is none; else
/// the last one is found.
pub proof fn lemma_last_unary(list: Seq<OpOrExpV>, table: Seq<UnOperator>, below: int)
    requires
        below <= list.len(),
    ensures
        mergeable_unary(list, table, last_unary(list, table, below)) || forall|j: int|
            0 <= j < below ==> !mergeable_unary(list, table, j),
    decreases below,
{
    if below > 0 && !mergeable_unary(list, table, below - 1) {
        lemma_last_unary(list, table, below - 1);
    }
}

/// Merging a binary operator keeps the form of a flat expression, adds no
/// unary operator and no binary operator.
pub proof fn lemma_merge_binary_keeps(list: Seq<OpOrExpV>, tier: Seq<Operator>, i: int, k: int)
    requires
        alternates(list),
        mergeable_binary(list, tier, i),
    ensures
        alternates(merge_binary_at(list, i)),
        merge_binary_at(list, i).len() == list.len() - 2,
        no_unops(list) ==> no_unops(merge_binary_at(list, i)),
        binops_from(list, k) ==> binops_from(merge_binary_at(list, i), k),
{
    let merged = merge_binary_at(list, i);
    assert(merged.len() == list.len() - 2);
    assert forall|j: int| 0 <= j < merged.len() implies #[trigger] merged[j] == (if j < i - 1 {
        list[j]
    } else if j == i - 1 {
        merged_binary(list[i - 1], list[i], list[i + 1])
    } else {
        list[j + 2]
    }) by {}
    assert forall|j: int| 0 <= j < merged.len() && (#[trigger] merged[j]).is_binop() implies 0 < j
        < merged.len() - 1 && merged[j - 1].is_exp() && !merged[j + 1].is_binop() by {
        if j < i - 1 {
            assert(list[j].is_binop());
        } else {
            assert(list[j + 2].is_binop());
        }
    }
    assert forall|j: int| 0 <= j < merged.len() && (#[trigger] merged[j]).is_unop() implies j
        < merged.len() - 1 && !merged[j + 1].is_binop() by {
        if j < i - 1 {
            assert(list[j].is_unop());
        } else {
            assert(list[j + 2].is_unop());
        }
    }
    assert forall|j: int| 0 <= j < merged.len() && (#[trigger] merged[j]).is_exp() implies j
        == merged.len() - 1 || merged[j + 1].is_binop() by {
        if j < i - 1 {
            assert(list[j].is_exp());
        } else if j == i - 1 {
            assert(list[i + 1].is_exp());
        } else {
            assert(list[j + 2].is_exp());
        }
    }
    if no_unops(list) {
        assert forall|j: int| 0 <= j < merged.len() implies !(#[trigger] merged[j]).is_unop() by {
            if j < i - 1 {
                assert(!list[j].is_unop());
            } else if j > i - 1 {
                assert(!list[j + 2].is_unop());
            }
        }
    }
    if binops_from(list, k) {
        assert forall|j: int| 0 <= j < merged.len() implies from_tier(#[trigger] merged[j], k) by {
            if j < i - 1 {
                assert(list[j] == merged[j]);
            } else if j > i - 1 {
                assert(list[j + 2] == merged[j]);
            }
        }
    }
}

/// Merging a unary operator keeps the form of a flat expression.
pub proof fn lemma_merge_unary_keeps(list: Seq<OpOrExpV>, table: Seq<UnOperator>, i: int)
    requires
        alternates(list),
        mergeable_unary(list, table, i),
    ensures
        alternates(merge_unary_at(list, i)),
        merge_unary_at(list, i).len() == list.len() - 1,
{
    let merged = merge_unary_at(list, i);
    assert(merged.len() == list.len() - 1);
    assert forall|j: int| 0 <= j < merged.len() implies #[trigger] merged[j] == (if j < i {
        list[j]
    } else if j == i {
        merged_unary(list[i], list[i + 1])
    } else {
        list[j + 1]
    }) by {}
    assert forall|j: int| 0 <= j < merged.len() && (#[trigger] merged[j]).is_binop() implies 0 < j
        < merged.len() - 1 && merged[j - 1].is_exp() && !merged[j + 1].is_binop() by {
        if j < i {
            assert(list[j].is_binop());
        } else {
            assert(list[j + 1].is_binop());
        }
    }
    assert forall|j: int| 0 <= j < merged.len() && (#[trigger] merged[j]).is_unop() implies j
        < merged.len() - 1 && !merged[j + 1].is_binop() by {
        if j < i {
            assert(list[j].is_unop());
        } else {
            assert(list[j + 1].is_unop());
        }
    }
    assert forall|j: int| 0 <= j < merged.len() && (#[trigger] merged[j]).is_exp() implies j
        == merged.len() - 1 || merged[j + 1].is_binop() by {
        if j < i {
            assert(list[j].is_exp());
        } else if j == i {
            assert(list[i + 1].is_exp());
        } else {
            assert(list[j + 1].is_exp());
        }
    }
}

/// Merging one tier keeps the form of a flat expression.
pub proof fn lemma_drain_tier_alternates(list: Seq<OpOrExpV>, tier: Seq<Operator>)
    requires
        alternates(list),
    ensures
        alternates(drain_tier(list, tier)),
    decreases list.len(),
{
    let i = first_binary(list, tier, 0);
    if mergeable_binary(list, tier, i) {
        lemma_merge_binary_keeps(list, tier, i, 0);
        lemma_drain_tier_alternates(merge_binary_at(list, i), tier);
    }
}

/// After the unary operators are applied, a flat expression holds none.
pub proof fn lemma_drain_unary_applies_all(list: Seq<OpOrExpV>)
    requires
        alternates(list),
    ensures
        alternates(drain_unary(list, unary_table())),
        no_unops(drain_unary(list, unary_table())),
    decreases list.len(),
{
    let table = unary_table();
    let i = last_unary(list, table, list.len() as int);
    lemma_last_unary(list, table, list.len() as int);
    if mergeable_unary(list, table, i) {
        lemma_merge_unary_keeps(list, table, i);
        lemma_drain_unary_applies_all(merge_unary_at(list, i));
    } else {
        assert forall|j: int| 0 <= j < list.len() implies !(#[trigger] list[j]).is_unop() by {
            if list[j].is_unop() {
                lemma_last_unop_is_mergeable(list, j);
            }
        }
    }
}

/// In a flat expression that holds a unary operator, the last of them stands
/// in front of an operand.
pub proof fn lemma_last_unop_is_mergeable(list: Seq<OpOrExpV>, j: int)
    requires
        alternates(list),
        0 <= j < list.len(),
        list[j].is_unop(),
    ensures
        exists|i: int| j <= i < list.len() && mergeable_unary(list, unary_table(), i),
    decreases list.len() - j,
{
    let next = list[j + 1];
    if next.is_unop() {
        lemma_last_unop_is_mergeable(list, j + 1);
    } else {
        assert(next.is_exp());
        lemma_every_unary_operator_listed(list[j]->Op_0->UnOp_0);
        assert(mergeable_unary(list, unary_table(), j));
    }
}

/// Merging the tier `k` of a flat expression without unary operators, whose
/// binary operators are of that tier or of later ones, leaves binary
/// operators of later tiers only.
pub proof fn lemma_drain_tier_clears(list: Seq<OpOrExpV>, k: int)
    requires
        0 <= k < binary_tiers().len(),
        alternates(list),
        no_unops(list),
        binops_from(list, k),
    ensures
        alternates(drain_tier(list, binary_tiers()[k])),
        no_unops(drain_tier(list, binary_tiers()[k])),
        binops_from(drain_tier(list, binary_tiers()[k]), k + 1),
    decreases list.len(),
{
    let tier = binary_tiers()[k];
    let i = first_binary(list, tier, 0);
    lemma_first_binary(list, tier, 0);
    if mergeable_binary(list, tier, i) {
        lemma_merge_binary_keeps(list, tier, i, k);
        lemma_drain_tier_clears(merge_binary_at(list, i), k);
    } else {
        assert forall|j: int| 0 <= j < list.len() implies from_tier(
            #[trigger] list[j],
            k + 1,
        ) by {
            if list[j].is_binop() {
                let o = list[j]->Op_0->BinOp_0;
                lemma_every_operator_has_one_tier(o, k);
                assert(!list[j + 1].is_unop());
                assert(list[j + 1].is_exp());
                if tier_of(o) == k {
                    assert(mergeable_binary(list, tier, j));
                }
            }
        }
    }
}

/// Merging the tiers from `k` on of a flat expression without unary
/// operators, whose binary operators are of these tiers, leaves one operand.
pub proof fn lemma_drain_tiers_completes(list: Seq<OpOrExpV>, k: int)
    requires
        0 <= k <= binary_tiers().len(),
        alternates(list),
        no_unops(list),
        binops_from(list, k),
    ensures
        drain_tiers(list, binary_tiers(), k).len() == 1,
        drain_tiers(list, binary_tiers(), k)[0].is_exp(),
    decreases binary_tiers().len() - k,
{
    if k < binary_tiers().len() {
        lemma_drain_tier_clears(list, k);
        lemma_drain_tiers_completes(drain_tier(list, binary_tiers()[k]), k + 1);
    } else {
        assert(list[0].is_exp()) by {
            if list[0].is_binop() {
                lemma_every_operator_has_one_tier(list[0]->Op_0->BinOp_0, 0);
            }
        }
        if list.len() > 1 {
            assert(list[1].is_binop());
            lemma_every_operator_has_one_tier(list[1]->Op_0->BinOp_0, 0);
        }
    }
}

/// Every list that has the form of a flat expression comes down to one tree.
pub proof fn lemma_flat_expression_resolves(list: Seq<OpOrExpV>)
    requires
        alternates(list),
    ensures
        spec_resolve(list) is Some,
{
    let first = drain_tier(list, binary_tiers()[0]);
    lemma_drain_tier_alternates(list, binary_tiers()[0]);
    lemma_drain_unary_applies_all(first);
    let applied = drain_unary(first, unary_table());
    assert(binops_from(applied, 0)) by {
        assert forall|i: int| 0 <= i < applied.len() implies from_tier(
            #[trigger] applied[i],
            0,
        ) by {
            if applied[i].is_binop() {
                lemma_every_operator_has_one_tier(applied[i]->Op_0->BinOp_0, 0);
            }
        }
    }
    lemma_drain_tiers_completes(applied, 0);
}

} // verus!
