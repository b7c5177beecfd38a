//! Properties of the assets module that hold across calls.

use crate::encoding::{account_shard_code, AccountId};
use crate::holdings::{holdings, lemma_holdings_insert, lemma_holdings_remove};
use crate::ledger::{balance_in, AssetId, Balance, BalanceKey};
use crate::model::{
    destroy_step, destroy_underflows, issue_overflows, issue_step, relay_fails_hard, relay_step,
    transfer_overflows, transfer_step, AssetsState,
};
use crate::types::{signer_of, Decimals, DispatchError, Origin, RelayedTransfer};
use vstd::prelude::*;

verus! {

/// Every call keeps the state well formed: finitely many balances, and every
/// issued asset id below the next one to be handed out.
pub proof fn law_calls_keep_state_well_formed(
    s: AssetsState,
    origin: Origin,
    name: Seq<u8>,
    total: Balance,
    decimals: Decimals,
    shard_code: Seq<u8>,
    id: AssetId,
    target: AccountId,
    amount: Balance,
    curr_shard: u16,
    target_shard: u16,
    tx: Option<RelayedTransfer>,
)
    requires
        s.wf(),
    ensures
        !issue_overflows(s, origin, name) ==> issue_step(s, origin, name, total, decimals).0.wf(),
        transfer_step(s, origin, shard_code, id, target, amount, curr_shard, target_shard).0.wf(),
        !destroy_underflows(s, origin, shard_code, id) ==> destroy_step(
            s,
            origin,
            shard_code,
            id,
        ).0.wf(),
        relay_step(s, tx).0.wf(),
{
    if !issue_overflows(s, origin, name) {
        let post = issue_step(s, origin, name, total, decimals).0;
        assert forall|x: AssetId| #[trigger] post.assets.contains_key(x) implies x
            < post.next_asset_id by {
            if x != s.next_asset_id {
                assert(s.assets.contains_key(x));
            }
        }
    }
    if !destroy_underflows(s, origin, shard_code, id) {
        let post = destroy_step(s, origin, shard_code, id).0;
        if let Ok(who) = signer_of(origin) {
            if s.balance(shard_code, id, who) != 0 {
                assert(s.assets.contains_key(id));
            }
        }
        assert forall|x: AssetId| #[trigger] post.assets.contains_key(x) implies x
            < post.next_asset_id by {
            if x != id {
                assert(s.assets.contains_key(x));
            }
        }
    }
}

/// A refused call changes nothing and deposits no event; an accepted call
/// deposits exactly one event.
pub proof fn law_refused_calls_change_nothing(
    s: AssetsState,
    origin: Origin,
    name: Seq<u8>,
    total: Balance,
    decimals: Decimals,
    shard_code: Seq<u8>,
    id: AssetId,
    target: AccountId,
    amount: Balance,
    curr_shard: u16,
    target_shard: u16,
    tx: Option<RelayedTransfer>,
)
    ensures
        ({
            let (post, r) = issue_step(s, origin, name, total, decimals);
            &&& r is Err ==> post == s
            &&& r is Ok ==> post.events == s.events.push(post.events.last())
        }),
        ({
            let (post, r) = transfer_step(
                s,
                origin,
                shard_code,
                id,
                target,
                amount,
                curr_shard,
                target_shard,
            );
            &&& r is Err ==> post == s
            &&& r is Ok ==> post.events == s.events.push(post.events.last())
        }),
        ({
            let (post, r) = destroy_step(s, origin, shard_code, id);
            &&& r is Err ==> post == s
            &&& r is Ok ==> post.events == s.events.push(post.events.last())
        }),
        ({
            let (post, r) = relay_step(s, tx);
            &&& r is Err ==> post == s
            &&& r is Ok ==> post.events == s.events.push(post.events.last())
        }),
{
    let (p1, r1) = issue_step(s, origin, name, total, decimals);
    if r1 is Ok {
        assert(p1.events =~= s.events.push(p1.events.last()));
    }
    let (p2, r2) = transfer_step(s, origin, shard_code, id, target, amount, curr_shard, target_shard);
    if r2 is Ok {
        assert(p2.events =~= s.events.push(p2.events.last()));
    }
    let (p3, r3) = destroy_step(s, origin, shard_code, id);
    if r3 is Ok {
        assert(p3.events =~= s.events.push(p3.events.last()));
    }
    let (p4, r4) = relay_step(s, tx);
    if r4 is Ok {
        assert(p4.events =~= s.events.push(p4.events.last()));
    }
}

/// Issuing succeeds exactly for a signed origin and a name of at most
/// `MAX_NAME_SIZE` bytes. The new asset gets the next identifier, its whole
/// supply is held by the issuer under the issuer's shard code, its details
/// are recorded, and every asset issued before keeps its details.
pub proof fn law_issue_gives_supply_to_issuer(
    s: AssetsState,
    who: AccountId,
    name: Seq<u8>,
    total: Balance,
    decimals: Decimals,
)
    requires
        s.wf(),
        name.len() <= crate::types::MAX_NAME_SIZE,
        s.next_asset_id < AssetId::MAX,
    ensures
        ({
            let (post, r) = issue_step(s, Origin::Signed(who), name, total, decimals);
            let id = s.next_asset_id;
            &&& r is Ok
            &&& !s.assets.contains_key(id)
            &&& post.next_asset_id == id + 1
            &&& post.balance(account_shard_code(who), id, who) == total
            &&& post.total_supply(id) == total
            &&& post.name(id) == name
            &&& post.decimals(id) == decimals
            &&& post.issuer(id) == who
            &&& forall|x: AssetId| #[trigger]
                s.assets.contains_key(x) ==> post.assets.contains_key(x) && post.assets[x]
                    == s.assets[x]
        }),
{
}

/// Two issues in a row hand out two different identifiers.
pub proof fn law_issued_ids_are_distinct(
    s: AssetsState,
    o1: Origin,
    n1: Seq<u8>,
    t1: Balance,
    d1: Decimals,
    o2: Origin,
    n2: Seq<u8>,
    t2: Balance,
    d2: Decimals,
)
    requires
        s.wf(),
        !issue_overflows(s, o1, n1),
        issue_step(s, o1, n1, t1, d1).1 is Ok,
        !issue_overflows(issue_step(s, o1, n1, t1, d1).0, o2, n2),
        issue_step(issue_step(s, o1, n1, t1, d1).0, o2, n2, t2, d2).1 is Ok,
    ensures
        ({
            let s1 = issue_step(s, o1, n1, t1, d1).0;
            let s2 = issue_step(s1, o2, n2, t2, d2).0;
            &&& s1.next_asset_id == s.next_asset_id + 1
            &&& s2.next_asset_id == s1.next_asset_id + 1
            &&& s2.assets.contains_key(s.next_asset_id)
            &&& s2.assets.contains_key(s1.next_asset_id)
            &&& s2.assets[s.next_asset_id] == s1.assets[s.next_asset_id]
        }),
{
}

/// A transfer within one shard moves exactly `amount` units from the signer
/// to the target. No other balance changes, nor any asset's details.
pub proof fn law_transfer_moves_amount(
    s: AssetsState,
    who: AccountId,
    shard_code: Seq<u8>,
    id: AssetId,
    target: AccountId,
    amount: Balance,
    shard: u16,
)
    requires
        !transfer_overflows(s, Origin::Signed(who), shard_code, id, target, amount, shard, shard),
        transfer_step(s, Origin::Signed(who), shard_code, id, target, amount, shard, shard).1 is Ok,
        who != target,
    ensures
        ({
            let post = transfer_step(
                s,
                Origin::Signed(who),
                shard_code,
                id,
                target,
                amount,
                shard,
                shard,
            ).0;
            &&& post.balance(shard_code, id, who) == s.balance(shard_code, id, who) - amount
            &&& post.balance(shard_code, id, target) == s.balance(shard_code, id, target) + amount
            &&& post.balance(shard_code, id, who) + post.balance(shard_code, id, target)
                == s.balance(shard_code, id, who) + s.balance(shard_code, id, target)
            &&& forall|k: BalanceKey|
                k != (shard_code, id, who) && k != (shard_code, id, target) ==> balance_in(
                    post.balances,
                    k,
                ) == #[trigger] balance_in(s.balances, k)
            &&& post.assets == s.assets
            &&& post.next_asset_id == s.next_asset_id
        }),
{
}

/// A transfer to an account of another shard only debits the signer: the
/// units leave this shard, to be credited where the target lives.
pub proof fn law_cross_shard_transfer_only_debits(
    s: AssetsState,
    who: AccountId,
    shard_code: Seq<u8>,
    id: AssetId,
    target: AccountId,
    amount: Balance,
    curr_shard: u16,
    target_shard: u16,
)
    requires
        curr_shard != target_shard,
        transfer_step(
            s,
            Origin::Signed(who),
            shard_code,
            id,
            target,
            amount,
            curr_shard,
            target_shard,
        ).1 is Ok,
    ensures
        ({
            let post = transfer_step(
                s,
                Origin::Signed(who),
                shard_code,
                id,
                target,
                amount,
                curr_shard,
                target_shard,
            ).0;
            &&& post.balance(shard_code, id, who) == s.balance(shard_code, id, who) - amount
            &&& forall|k: BalanceKey|
                k != (shard_code, id, who) ==> balance_in(post.balances, k) == #[trigger] balance_in(
                    s.balances,
                    k,
                )
            &&& post.assets == s.assets
        }),
{
}

/// Sending `amount` within a shard and sending it back restores every balance.
pub proof fn law_transfer_round_trip(
    s: AssetsState,
    a: AccountId,
    b: AccountId,
    shard_code: Seq<u8>,
    id: AssetId,
    amount: Balance,
    shard: u16,
)
    requires
        !transfer_overflows(s, Origin::Signed(a), shard_code, id, b, amount, shard, shard),
        transfer_step(s, Origin::Signed(a), shard_code, id, b, amount, shard, shard).1 is Ok,
    ensures
        ({
            let s1 = transfer_step(s, Origin::Signed(a), shard_code, id, b, amount, shard, shard).0;
            let (s2, r2) = transfer_step(
                s1,
                Origin::Signed(b),
                shard_code,
                id,
                a,
                amount,
                shard,
                shard,
            );
            &&& !transfer_overflows(s1, Origin::Signed(b), shard_code, id, a, amount, shard, shard)
            &&& r2 is Ok
            &&& forall|k: BalanceKey| #[trigger]
                balance_in(s2.balances, k) == balance_in(s.balances, k)
            &&& s2.assets == s.assets
        }),
{
}

/// Destroying removes the signer's whole holding and takes exactly that much
/// off the asset's total supply; nothing else changes.
pub proof fn law_destroy_takes_holding_off_supply(
    s: AssetsState,
    who: AccountId,
    shard_code: Seq<u8>,
    id: AssetId,
)
    requires
        !destroy_underflows(s, Origin::Signed(who), shard_code, id),
        destroy_step(s, Origin::Signed(who), shard_code, id).1 is Ok,
    ensures
        ({
            let post = destroy_step(s, Origin::Signed(who), shard_code, id).0;
            &&& post.balance(shard_code, id, who) == 0
            &&& post.total_supply(id) == s.total_supply(id) - s.balance(shard_code, id, who)
            &&& forall|k: BalanceKey|
                k != (shard_code, id, who) ==> balance_in(post.balances, k) == #[trigger] balance_in(
                    s.balances,
                    k,
                )
            &&& forall|x: AssetId| x != id ==> #[trigger] post.total_supply(x) == s.total_supply(x)
            &&& post.name(id) == s.name(id)
            &&& post.decimals(id) == s.decimals(id)
            &&& post.issuer(id) == s.issuer(id)
        }),
{
}

/// A decoded relayed transfer credits its receiver with its amount and
/// changes nothing else; one that did not decode is refused.
pub proof fn law_relay_credits_receiver(s: AssetsState, tx: Option<RelayedTransfer>)
    requires
        !relay_fails_hard(s, tx),
    ensures
        ({
            let (post, r) = relay_step(s, tx);
            match tx {
                None => r == Err::<(), DispatchError>(DispatchError::InvalidTransfer) && post == s,
                Some(t) => {
                    let key = (t.shard_code@, t.asset_id.unwrap(), t.to);
                    &&& r is Ok
                    &&& balance_in(post.balances, key) == balance_in(s.balances, key) + t.amount
                    &&& forall|k: BalanceKey|
                        k != key ==> balance_in(post.balances, k) == #[trigger] balance_in(
                            s.balances,
                            k,
                        )
                    &&& post.assets == s.assets
                },
            }
        }),
{
}

/// A transfer within one shard keeps, for every asset and shard code, the
/// units held in total: the supply of an asset neither grows nor shrinks.
pub proof fn law_transfer_conserves_holdings(
    s: AssetsState,
    who: AccountId,
    shard_code: Seq<u8>,
    id: AssetId,
    target: AccountId,
    amount: Balance,
    shard: u16,
)
    requires
        s.wf(),
        !transfer_overflows(s, Origin::Signed(who), shard_code, id, target, amount, shard, shard),
    ensures
        ({
            let post = transfer_step(
                s,
                Origin::Signed(who),
                shard_code,
                id,
                target,
                amount,
                shard,
                shard,
            ).0;
            forall|sc: Seq<u8>, x: AssetId| #[trigger] holdings(post, sc, x) == holdings(s, sc, x)
        }),
{
    let (post, r) = transfer_step(
        s,
        Origin::Signed(who),
        shard_code,
        id,
        target,
        amount,
        shard,
        shard,
    );
    if r is Ok {
        let from = (shard_code, id, who);
        let to = (shard_code, id, target);
        let held = balance_in(s.balances, from);
        let m1 = s.balances.insert(from, (held - amount) as Balance);
        let v2 = (balance_in(m1, to) + amount) as Balance;
        assert forall|sc: Seq<u8>, x: AssetId| #[trigger] holdings(post, sc, x) == holdings(
            s,
            sc,
            x,
        ) by {
            lemma_holdings_insert(s.balances, from, (held - amount) as Balance, sc, x);
            lemma_holdings_insert(m1, to, v2, sc, x);
        }
    }
}

/// A transfer to another shard takes exactly `amount` units of the asset out
/// of this shard's holdings.
pub proof fn law_cross_shard_transfer_moves_out(
    s: AssetsState,
    who: AccountId,
    shard_code: Seq<u8>,
    id: AssetId,
    target: AccountId,
    amount: Balance,
    curr_shard: u16,
    target_shard: u16,
)
    requires
        s.wf(),
        curr_shard != target_shard,
        transfer_step(
            s,
            Origin::Signed(who),
            shard_code,
            id,
            target,
            amount,
            curr_shard,
            target_shard,
        ).1 is Ok,
    ensures
        holdings(
            transfer_step(
                s,
                Origin::Signed(who),
                shard_code,
                id,
                target,
                amount,
                curr_shard,
                target_shard,
            ).0,
            shard_code,
            id,
        ) == holdings(s, shard_code, id) - amount,
{
    let from = (shard_code, id, who);
    let held = balance_in(s.balances, from);
    lemma_holdings_insert(s.balances, from, (held - amount) as Balance, shard_code, id);
}

/// A relayed transfer brings exactly its amount into the holdings of its
/// asset under its shard code.
pub proof fn law_relay_moves_in(s: AssetsState, t: RelayedTransfer)
    requires
        s.wf(),
        !relay_fails_hard(s, Some(t)),
    ensures
        holdings(relay_step(s, Some(t)).0, t.shard_code@, t.asset_id.unwrap()) == holdings(
            s,
            t.shard_code@,
            t.asset_id.unwrap(),
        ) + t.amount,
{
    let key = (t.shard_code@, t.asset_id.unwrap(), t.to);
    lemma_holdings_insert(
        s.balances,
        key,
        (balance_in(s.balances, key) + t.amount) as Balance,
        t.shard_code@,
        t.asset_id.unwrap(),
    );
}

/// Destroying lowers the holdings of the asset under the shard code and its
/// total supply by the same amount, so where the two agreed they still agree.
pub proof fn law_destroy_keeps_supply_equal_to_holdings(
    s: AssetsState,
    who: AccountId,
    shard_code: Seq<u8>,
    id: AssetId,
)
    requires
        s.wf(),
        !destroy_underflows(s, Origin::Signed(who), shard_code, id),
        destroy_step(s, Origin::Signed(who), shard_code, id).1 is Ok,
    ensures
        ({
            let post = destroy_step(s, Origin::Signed(who), shard_code, id).0;
            let held = s.balance(shard_code, id, who);
            &&& holdings(post, shard_code, id) == holdings(s, shard_code, id) - held
            &&& post.total_supply(id) == s.total_supply(id) - held
            &&& holdings(s, shard_code, id) == s.total_supply(id) ==> holdings(post, shard_code, id)
                == post.total_supply(id)
        }),
{
    lemma_holdings_remove(s.balances, (shard_code, id, who), shard_code, id);
}

/// Issuing puts the whole supply in the issuer's hands: under the issuer's
/// shard code, the holdings of the new asset gain `total` (over whatever the
/// issuer's key held before).
pub proof fn law_issue_holdings(
    s: AssetsState,
    who: AccountId,
    name: Seq<u8>,
    total: Balance,
    decimals: Decimals,
)
    requires
        s.wf(),
        name.len() <= crate::types::MAX_NAME_SIZE,
        s.next_asset_id < AssetId::MAX,
    ensures
        ({
            let post = issue_step(s, Origin::Signed(who), name, total, decimals).0;
            let sc = account_shard_code(who);
            let id = s.next_asset_id;
            &&& holdings(post, sc, id) == holdings(s, sc, id) - s.balance(sc, id, who) + total
            &&& post.total_supply(id) == total
        }),
{
    let sc = account_shard_code(who);
    lemma_holdings_insert(s.balances, (sc, s.next_asset_id, who), total, sc, s.next_asset_id);
}

/// Issuing reads and writes only the details of the new asset: for every
/// other asset id, the total supply, name, decimals and issuer read the same
/// after the call as before, whatever the call's outcome.
pub proof fn law_issue_keeps_other_assets(
    s: AssetsState,
    origin: Origin,
    name: Seq<u8>,
    total: Balance,
    decimals: Decimals,
)
    ensures
        ({
            let post = issue_step(s, origin, name, total, decimals).0;
            forall|x: AssetId|
                x != s.next_asset_id ==> {
                    &&& #[trigger] post.total_supply(x) == s.total_supply(x)
                    &&& post.name(x) == s.name(x)
                    &&& post.decimals(x) == s.decimals(x)
                    &&& post.issuer(x) == s.issuer(x)
                }
        }),
{
}

/// An asset issued first keeps its supply, decimals and issuer when a second
/// asset is issued after it.
pub proof fn law_second_issue_keeps_first_asset(
    s: AssetsState,
    w1: AccountId,
    n1: Seq<u8>,
    t1: Balance,
    d1: Decimals,
    w2: AccountId,
    n2: Seq<u8>,
    t2: Balance,
    d2: Decimals,
)
    requires
        n1.len() <= crate::types::MAX_NAME_SIZE,
        n2.len() <= crate::types::MAX_NAME_SIZE,
        s.next_asset_id + 1 < AssetId::MAX,
    ensures
        ({
            let id = s.next_asset_id;
            let s1 = issue_step(s, Origin::Signed(w1), n1, t1, d1).0;
            let s2 = issue_step(s1, Origin::Signed(w2), n2, t2, d2).0;
            &&& s2.total_supply(id) == t1
            &&& s2.name(id) == n1
            &&& s2.decimals(id) == d1
            &&& s2.issuer(id) == w1
            &&& s2.total_supply((id + 1) as AssetId) == t2
            &&& s2.decimals((id + 1) as AssetId) == d2
            &&& s2.issuer((id + 1) as AssetId) == w2
        }),
{
    let s1 = issue_step(s, Origin::Signed(w1), n1, t1, d1).0;
    law_issue_keeps_other_assets(s1, Origin::Signed(w2), n2, t2, d2);
}

/// Issuing succeeds exactly for a signed origin and a name of at most
/// `MAX_NAME_SIZE` bytes.
pub proof fn law_issue_succeeds_when(
    s: AssetsState,
    origin: Origin,
    name: Seq<u8>,
    total: Balance,
    decimals: Decimals,
)
    ensures
        issue_step(s, origin, name, total, decimals).1 is Ok <==> (origin is Signed && name.len()
            <= crate::types::MAX_NAME_SIZE),
{
}

/// A transfer succeeds exactly when it is signed, moves a non-zero amount, and
/// the signer holds at least that amount under the shard code; whether the
/// asset was ever issued on this shard, and where the target lives, play no
/// part.
pub proof fn law_transfer_succeeds_when(
    s: AssetsState,
    origin: Origin,
    shard_code: Seq<u8>,
    id: AssetId,
    target: AccountId,
    amount: Balance,
    curr_shard: u16,
    target_shard: u16,
)
    ensures
        transfer_step(s, origin, shard_code, id, target, amount, curr_shard, target_shard).1 is Ok
            <==> (match origin {
            Origin::Signed(who) => amount != 0 && amount <= s.balance(shard_code, id, who),
            _ => false,
        }),
        (match origin {
            Origin::Signed(who) => amount != 0 && amount <= s.balance(shard_code, id, who) && who
                != target && curr_shard == target_shard,
            _ => false,
        }) ==> ({
            let who = origin->Signed_0;
            let post = transfer_step(
                s,
                origin,
                shard_code,
                id,
                target,
                amount,
                curr_shard,
                target_shard,
            ).0;
            &&& post.balance(shard_code, id, who) + amount == s.balance(shard_code, id, who)
            &&& post.balance(shard_code, id, target) == s.balance(shard_code, id, target) + amount
        }) || s.balance(shard_code, id, target) + amount > Balance::MAX,
{
}

/// Destroying succeeds exactly when it is signed and the signer holds a
/// non-zero balance under the given shard code, whichever shard code that is;
/// the holding then reads zero.
pub proof fn law_destroy_succeeds_when(
    s: AssetsState,
    origin: Origin,
    shard_code: Seq<u8>,
    id: AssetId,
)
    ensures
        destroy_step(s, origin, shard_code, id).1 is Ok <==> (match origin {
            Origin::Signed(who) => s.balance(shard_code, id, who) != 0,
            _ => false,
        }),
        (match origin {
            Origin::Signed(who) => s.balance(shard_code, id, who) != 0,
            _ => false,
        }) ==> destroy_step(s, origin, shard_code, id).0.balance(
            shard_code,
            id,
            origin->Signed_0,
        ) == 0,
{
}

/// A relayed transfer is refused exactly when it did not decode.
pub proof fn law_relay_succeeds_when(s: AssetsState, tx: Option<RelayedTransfer>)
    ensures
        relay_step(s, tx).1 is Ok <==> tx is Some,
{
}

} // verus!
