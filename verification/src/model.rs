//! The abstract state of the assets module and what each call does to it.

use crate::encoding::{account_shard_code, AccountId};
use crate::ledger::{balance_in, AssetId, Balance, BalanceKey};
use crate::types::{
    signer_of, AssetDetails, Decimals, DispatchError, DispatchResult, EventView, Origin,
    RelayedTransfer, MAX_NAME_SIZE,
};
use vstd::prelude::*;

verus! {

/// Everything the module stores, as mathematical values.
#[verifier::ext_equal]
pub struct AssetsState {
    /// Units of each asset held by each account, per shard code.
    pub balances: Map<BalanceKey, Balance>,
    /// The identifier the next issued asset receives.
    pub next_asset_id: AssetId,
    /// Name, total supply, decimals and issuer of every issued asset.
    pub assets: Map<AssetId, AssetDetails>,
    /// The events deposited so far, oldest first.
    pub events: Seq<EventView>,
}

impl AssetsState {
    /// The state at genesis: nothing issued, nothing held.
    pub open spec fn genesis(next_asset_id: AssetId) -> AssetsState {
        AssetsState {
            balances: Map::empty(),
            next_asset_id,
            assets: Map::empty(),
            events: Seq::empty(),
        }
    }

    /// Units of asset `id` that `who` holds under `shard_code` (zero if none).
    pub open spec fn balance(self, shard_code: Seq<u8>, id: AssetId, who: AccountId) -> Balance {
        balance_in(self.balances, (shard_code, id, who))
    }

    /// Total supply of asset `id` (zero if never issued).
    pub open spec fn total_supply(self, id: AssetId) -> Balance {
        if self.assets.contains_key(id) {
            self.assets[id].total_supply
        } else {
            0
        }
    }

    /// Name of asset `id` (empty if never issued).
    pub open spec fn name(self, id: AssetId) -> Seq<u8> {
        if self.assets.contains_key(id) {
            self.assets[id].name
        } else {
            Seq::empty()
        }
    }

    /// Decimals of asset `id` (zero if never issued).
    pub open spec fn decimals(self, id: AssetId) -> Decimals {
        if self.assets.contains_key(id) {
            self.assets[id].decimals
        } else {
            0
        }
    }

    /// Issuer of asset `id` (account zero if never issued).
    pub open spec fn issuer(self, id: AssetId) -> AccountId {
        if self.assets.contains_key(id) {
            self.assets[id].issuer
        } else {
            0
        }
    }

    /// Finitely many balances are stored, and every issued asset id lies
    /// below the next identifier to be handed out.
    pub open spec fn wf(self) -> bool {
        &&& self.balances.dom().finite()
        &&& forall|id: AssetId| #[trigger] self.assets.contains_key(id) ==> id < self.next_asset_id
    }
}

/// Issuing would need an identifier past the largest one.
pub open spec fn issue_overflows(s: AssetsState, origin: Origin, name: Seq<u8>) -> bool {
    &&& signer_of(origin) is Ok
    &&& name.len() <= MAX_NAME_SIZE
    &&& s.next_asset_id == AssetId::MAX
}

/// A new asset `s.next_asset_id` whose whole supply `total` belongs to `who`.
pub open spec fn issue_asset(
    s: AssetsState,
    who: AccountId,
    name: Seq<u8>,
    total: Balance,
    decimals: Decimals,
) -> AssetsState {
    let id = s.next_asset_id;
    let sc = account_shard_code(who);
    AssetsState {
        balances: s.balances.insert((sc, id, who), total),
        next_asset_id: (id + 1) as AssetId,
        assets: s.assets.insert(
            id,
            AssetDetails { name, total_supply: total, decimals, issuer: who },
        ),
        events: s.events.push(EventView::Issued(sc, id, name, who, total, decimals)),
    }
}

/// The `issue` call: a signed origin with a name of at most `MAX_NAME_SIZE`
/// bytes issues a new asset.
pub open spec fn issue_step(
    s: AssetsState,
    origin: Origin,
    name: Seq<u8>,
    total: Balance,
    decimals: Decimals,
) -> (AssetsState, DispatchResult) {
    match signer_of(origin) {
        Err(e) => (s, Err(e)),
        Ok(who) => if name.len() > MAX_NAME_SIZE {
            (s, Err(DispatchError::NameTooLong))
        } else {
            (issue_asset(s, who, name, total, decimals), Ok(()))
        },
    }
}

/// Crediting the target of a transfer in the same shard would exceed the
/// largest balance.
pub open spec fn transfer_overflows(
    s: AssetsState,
    origin: Origin,
    shard_code: Seq<u8>,
    id: AssetId,
    target: AccountId,
    amount: Balance,
    curr_shard: u16,
    target_shard: u16,
) -> bool {
    match signer_of(origin) {
        Err(_) => false,
        Ok(who) => {
            &&& amount != 0
            &&& s.balance(shard_code, id, who) >= amount
            &&& curr_shard == target_shard
            &&& target != who
            &&& s.balance(shard_code, id, target) + amount > Balance::MAX
        },
    }
}

/// The `transfer` call: the signer must hold at least `amount` (non-zero)
/// units under `shard_code`. They leave the signer; the target receives them
/// here only when it lives in the current shard (otherwise they are relayed).
pub open spec fn transfer_step(
    s: AssetsState,
    origin: Origin,
    shard_code: Seq<u8>,
    id: AssetId,
    target: AccountId,
    amount: Balance,
    curr_shard: u16,
    target_shard: u16,
) -> (AssetsState, DispatchResult) {
    match signer_of(origin) {
        Err(e) => (s, Err(e)),
        Ok(who) => {
            let from = (shard_code, id, who);
            let held = balance_in(s.balances, from);
            if amount == 0 {
                (s, Err(DispatchError::ZeroAmount))
            } else if held < amount {
                (s, Err(DispatchError::InsufficientBalance))
            } else {
                let to = (shard_code, id, target);
                let debited = s.balances.insert(from, (held - amount) as Balance);
                let credited = if curr_shard == target_shard {
                    debited.insert(to, (balance_in(debited, to) + amount) as Balance)
                } else {
                    debited
                };
                (
                    AssetsState {
                        balances: credited,
                        next_asset_id: s.next_asset_id,
                        assets: s.assets,
                        events: s.events.push(
                            EventView::Transferred(shard_code, id, who, target, amount),
                        ),
                    },
                    Ok(()),
                )
            }
        },
    }
}

/// Destroying would take the total supply below zero.
pub open spec fn destroy_underflows(
    s: AssetsState,
    origin: Origin,
    shard_code: Seq<u8>,
    id: AssetId,
) -> bool {
    match signer_of(origin) {
        Err(_) => false,
        Ok(who) => {
            &&& s.balance(shard_code, id, who) != 0
            &&& s.total_supply(id) < s.balance(shard_code, id, who)
        },
    }
}

/// The `destroy` call: the signer's whole (non-zero) holding of asset `id`
/// under `shard_code` is removed and taken off the asset's total supply.
pub open spec fn destroy_step(
    s: AssetsState,
    origin: Origin,
    shard_code: Seq<u8>,
    id: AssetId,
) -> (AssetsState, DispatchResult) {
    match signer_of(origin) {
        Err(e) => (s, Err(e)),
        Ok(who) => {
            let key = (shard_code, id, who);
            let held = balance_in(s.balances, key);
            if held == 0 {
                (s, Err(DispatchError::ZeroBalance))
            } else {
                let d = s.assets[id];
                (
                    AssetsState {
                        balances: s.balances.remove(key),
                        next_asset_id: s.next_asset_id,
                        assets: s.assets.insert(
                            id,
                            AssetDetails {
                                name: d.name,
                                total_supply: (s.total_supply(id) - held) as Balance,
                                decimals: d.decimals,
                                issuer: d.issuer,
                            },
                        ),
                        events: s.events.push(EventView::Destroyed(shard_code, id, who, held)),
                    },
                    Ok(()),
                )
            }
        },
    }
}

/// A decoded relayed transfer that cannot be applied: it names no asset, or
/// crediting its receiver would exceed the largest balance.
pub open spec fn relay_fails_hard(s: AssetsState, tx: Option<RelayedTransfer>) -> bool {
    match tx {
        None => false,
        Some(t) => match t.asset_id {
            None => true,
            Some(id) => s.balance(t.shard_code@, id, t.to) + t.amount > Balance::MAX,
        },
    }
}

/// The relayed side of a cross-shard transfer: a transfer that decoded is
/// credited to its receiver; one that did not is refused.
pub open spec fn relay_step(s: AssetsState, tx: Option<RelayedTransfer>) -> (
    AssetsState,
    DispatchResult,
) {
    match tx {
        None => (s, Err(DispatchError::InvalidTransfer)),
        Some(t) => {
            let id = t.asset_id.unwrap();
            let key = (t.shard_code@, id, t.to);
            (
                AssetsState {
                    balances: s.balances.insert(
                        key,
                        (balance_in(s.balances, key) + t.amount) as Balance,
                    ),
                    next_asset_id: s.next_asset_id,
                    assets: s.assets,
                    events: s.events.push(
                        EventView::Transferred(t.shard_code@, id, t.from, t.to, t.amount),
                    ),
                },
                Ok(()),
            )
        },
    }
}

} // verus!
