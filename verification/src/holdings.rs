//! The units of one asset held under one shard code, summed over all holders.

use crate::ledger::{balance_in, AssetId, Balance, BalanceKey};
use crate::model::AssetsState;
use vstd::prelude::*;
use vstd::set::fold::{is_fun_commutative, lemma_fold_empty, lemma_fold_insert};

verus! {

/// Adds the balance stored under a key to an accumulator.
pub open spec fn add_balance(m: Map<BalanceKey, Balance>) -> spec_fn(int, BalanceKey) -> int {
    |acc: int, k: BalanceKey| acc + balance_in(m, k)
}

/// Sum of the balances stored under `keys`.
pub open spec fn sum_over(keys: Set<BalanceKey>, m: Map<BalanceKey, Balance>) -> int {
    keys.fold(0int, add_balance(m))
}

/// The key belongs to asset `id` under `shard_code`.
pub open spec fn in_class(k: BalanceKey, shard_code: Seq<u8>, id: AssetId) -> bool {
    k.0 == shard_code && k.1 == id
}

/// The stored keys of asset `id` under `shard_code`.
pub open spec fn class_keys(m: Map<BalanceKey, Balance>, shard_code: Seq<u8>, id: AssetId) -> Set<
    BalanceKey,
> {
    m.dom().filter(|k: BalanceKey| in_class(k, shard_code, id))
}

/// All units of asset `id` held under `shard_code` in the balance map `m`.
pub open spec fn holdings_in(m: Map<BalanceKey, Balance>, shard_code: Seq<u8>, id: AssetId) -> int {
    sum_over(class_keys(m, shard_code, id), m)
}

/// All units of asset `id` held under `shard_code`.
pub open spec fn holdings(s: AssetsState, shard_code: Seq<u8>, id: AssetId) -> int {
    holdings_in(s.balances, shard_code, id)
}

proof fn lemma_add_commutative(m: Map<BalanceKey, Balance>)
    ensures
        is_fun_commutative(add_balance(m)),
{
}

proof fn lemma_sum_remove(keys: Set<BalanceKey>, m: Map<BalanceKey, Balance>, k: BalanceKey)
    requires
        keys.finite(),
        keys.contains(k),
    ensures
        sum_over(keys, m) == sum_over(keys.remove(k), m) + balance_in(m, k),
{
    lemma_add_commutative(m);
    lemma_fold_insert(keys.remove(k), 0int, add_balance(m), k);
    assert(keys.remove(k).insert(k) =~= keys);
}

proof fn lemma_sum_agree(keys: Set<BalanceKey>, m1: Map<BalanceKey, Balance>, m2: Map<BalanceKey, Balance>)
    requires
        keys.finite(),
        forall|k: BalanceKey| #[trigger] keys.contains(k) ==> balance_in(m1, k) == balance_in(m2, k),
    ensures
        sum_over(keys, m1) == sum_over(keys, m2),
    decreases keys.len(),
{
    if keys.len() == 0 {
        keys.lemma_len0_is_empty();
        lemma_fold_empty(0int, add_balance(m1));
        lemma_fold_empty(0int, add_balance(m2));
    } else {
        let k = keys.choose();
        vstd::set::axiom_set_choose_len(keys);
        lemma_sum_remove(keys, m1, k);
        lemma_sum_remove(keys, m2, k);
        lemma_sum_agree(keys.remove(k), m1, m2);
    }
}

/// Storing `v` under `k` changes the holdings of the class of `k` by the
/// difference with what was stored there, and no other class's holdings.
pub proof fn lemma_holdings_insert(
    m: Map<BalanceKey, Balance>,
    k: BalanceKey,
    v: Balance,
    shard_code: Seq<u8>,
    id: AssetId,
)
    requires
        m.dom().finite(),
    ensures
        m.insert(k, v).dom().finite(),
        in_class(k, shard_code, id) ==> holdings_in(m.insert(k, v), shard_code, id) == holdings_in(
            m,
            shard_code,
            id,
        ) - balance_in(m, k) + v,
        !in_class(k, shard_code, id) ==> holdings_in(m.insert(k, v), shard_code, id)
            == holdings_in(m, shard_code, id),
{
    let m2 = m.insert(k, v);
    let d = class_keys(m, shard_code, id);
    let d2 = class_keys(m2, shard_code, id);
    m.dom().lemma_len_filter(|x: BalanceKey| in_class(x, shard_code, id));
    m2.dom().lemma_len_filter(|x: BalanceKey| in_class(x, shard_code, id));
    if in_class(k, shard_code, id) {
        assert(d2 =~= d.insert(k));
        assert(d2.remove(k) =~= d.remove(k));
        lemma_sum_remove(d2, m2, k);
        lemma_sum_agree(d.remove(k), m2, m);
        if d.contains(k) {
            lemma_sum_remove(d, m, k);
        } else {
            assert(d.remove(k) =~= d);
        }
    } else {
        assert(d2 =~= d);
        lemma_sum_agree(d, m2, m);
    }
}

/// Removing the entry under `k` takes its balance off the holdings of its
/// class, and changes no other class's holdings.
pub proof fn lemma_holdings_remove(
    m: Map<BalanceKey, Balance>,
    k: BalanceKey,
    shard_code: Seq<u8>,
    id: AssetId,
)
    requires
        m.dom().finite(),
    ensures
        m.remove(k).dom().finite(),
        in_class(k, shard_code, id) ==> holdings_in(m.remove(k), shard_code, id) == holdings_in(
            m,
            shard_code,
            id,
        ) - balance_in(m, k),
        !in_class(k, shard_code, id) ==> holdings_in(m.remove(k), shard_code, id) == holdings_in(
            m,
            shard_code,
            id,
        ),
{
    let m2 = m.remove(k);
    let d = class_keys(m, shard_code, id);
    let d2 = class_keys(m2, shard_code, id);
    m.dom().lemma_len_filter(|x: BalanceKey| in_class(x, shard_code, id));
    m2.dom().lemma_len_filter(|x: BalanceKey| in_class(x, shard_code, id));
    if in_class(k, shard_code, id) {
        assert(d2 =~= d.remove(k));
        lemma_sum_agree(d.remove(k), m2, m);
        if d.contains(k) {
            lemma_sum_remove(d, m, k);
        } else {
            assert(d.remove(k) =~= d);
        }
    } else {
        assert(d2 =~= d);
        lemma_sum_agree(d, m2, m);
    }
}

} // verus!
