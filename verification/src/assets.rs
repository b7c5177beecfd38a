//! The assets module: issuing, transferring, destroying and relaying fungible
//! assets, each call proved to act on the state as `model` says.

use crate::encoding::{shard_code_of, AccountId};
use crate::ledger::{AssetId, Balance, BalanceLedger};
use crate::model::{
    destroy_step, destroy_underflows, issue_asset, issue_overflows, issue_step, relay_fails_hard,
    relay_step, transfer_overflows, transfer_step, AssetsState,
};
use crate::types::{
    ensure_signed, AssetDetails, Decimals, DispatchError, DispatchResult, Event, EventView, Origin,
    RelayedTransfer, MAX_NAME_SIZE,
};
use vstd::prelude::*;

verus! {

/// Name, decimals and issuer of an issued asset.
struct AssetMeta {
    name: Vec<u8>,
    decimals: Decimals,
    issuer: AccountId,
}

/// The storage of the assets module.
///
/// Asset identifiers are handed out in order, so the asset issued `i`-th
/// (counting from zero) has identifier `first_asset_id + i`; its metadata is
/// `metas[i]` and its total supply `supplies[i]`.
pub struct Module {
    balances: BalanceLedger,
    first_asset_id: AssetId,
    metas: Vec<AssetMeta>,
    supplies: Vec<Balance>,
    events: Vec<Event>,
}

impl View for Module {
    type V = AssetsState;

    closed spec fn view(&self) -> AssetsState {
        AssetsState {
            balances: self.balances@,
            next_asset_id: (self.first_asset_id + self.metas@.len()) as AssetId,
            assets: Map::new(
                |id: AssetId| self.first_asset_id <= id < self.first_asset_id + self.metas@.len(),
                |id: AssetId| self.details_at(id - self.first_asset_id),
            ),
            events: self.events@.map_values(|e: Event| e@),
        }
    }
}

impl Module {
    closed spec fn details_at(&self, i: int) -> AssetDetails {
        AssetDetails {
            name: self.metas@[i].name@,
            total_supply: self.supplies@[i],
            decimals: self.metas@[i].decimals,
            issuer: self.metas@[i].issuer,
        }
    }

    /// The storage is consistent: balance keys are distinct, every issued
    /// asset has a supply, and identifiers stay within range.
    pub closed spec fn inv(&self) -> bool {
        &&& self.balances.wf()
        &&& self.metas@.len() == self.supplies@.len()
        &&& self.first_asset_id + self.metas@.len() <= AssetId::MAX
    }

    /// A consistent storage has a well-formed abstract state.
    pub proof fn lemma_inv_wf(&self)
        requires
            self.inv(),
        ensures
            self@.wf(),
    {
        self.balances.lemma_finite();
    }

    /// Genesis storage: the first asset issued will get `next_asset_id`.
    pub fn new(next_asset_id: AssetId) -> (r: Module)
        ensures
            r.inv(),
            r@ == AssetsState::genesis(next_asset_id),
    {
        let r = Module {
            balances: BalanceLedger::new(),
            first_asset_id: next_asset_id,
            metas: Vec::new(),
            supplies: Vec::new(),
            events: Vec::new(),
        };
        assert(r@.assets =~= Map::<AssetId, AssetDetails>::empty());
        assert(r@.events =~= Seq::<EventView>::empty());
        assert(r@ =~= AssetsState::genesis(next_asset_id));
        r
    }

    /// The identifier the next issued asset receives.
    pub fn next_asset_id(&self) -> (r: AssetId)
        requires
            self.inv(),
        ensures
            r == self@.next_asset_id,
    {
        self.first_asset_id + self.metas.len() as AssetId
    }

    /// Position of asset `id` among the issued ones, if it was issued.
    fn index_of(&self, id: AssetId) -> (r: Option<usize>)
        requires
            self.inv(),
        ensures
            match r {
                Some(i) => self@.assets.contains_key(id) && i < self.metas@.len() && i
                    == id - self.first_asset_id,
                None => !self@.assets.contains_key(id),
            },
    {
        if id >= self.first_asset_id && id - self.first_asset_id < self.metas.len() as AssetId {
            Some((id - self.first_asset_id) as usize)
        } else {
            None
        }
    }

    /// Issue a new class of fungible assets. There are `total` such assets and
    /// they all belong to the signer initially, under the signer's shard code.
    pub fn issue(&mut self, origin: Origin, name: Vec<u8>, total: Balance, decimals: Decimals) -> (r:
        DispatchResult)
        requires
            old(self).inv(),
            !issue_overflows(old(self)@, origin, name@),
        ensures
            final(self).inv(),
            (final(self)@, r) == issue_step(old(self)@, origin, name@, total, decimals),
    {
        let who = match ensure_signed(origin) {
            Ok(who) => who,
            Err(e) => return Err(e),
        };
        if name.len() > MAX_NAME_SIZE {
            return Err(DispatchError::NameTooLong);
        }
        self.issue_asset(who, name, total, decimals);
        Ok(())
    }

    fn issue_asset(&mut self, who: AccountId, name: Vec<u8>, total: Balance, decimals: Decimals)
        requires
            old(self).inv(),
            old(self)@.next_asset_id < AssetId::MAX,
        ensures
            final(self).inv(),
            final(self)@ == issue_asset(old(self)@, who, name@, total, decimals),
    {
        let ghost pre = self@;
        let id = self.next_asset_id();
        let shard_code = shard_code_of(who);
        let sc = shard_code.clone();
        assert(sc@ =~= shard_code@);
        let nm = name.clone();
        assert(nm@ =~= name@);
        self.balances.insert(sc, id, who, total);
        self.supplies.push(total);
        self.metas.push(AssetMeta { name: nm, decimals, issuer: who });
        let ev = Event::Issued(shard_code, id, name, who, total, decimals);
        self.events.push(ev);
        proof {
            let post = issue_asset(pre, who, name@, total, decimals);
            assert(self@.assets =~= post.assets) by {
                assert forall|x: AssetId| #[trigger] self@.assets.contains_key(x) implies self@.assets[x]
                    == post.assets[x] by {
                    if x != id {
                        assert(pre.assets.contains_key(x));
                    }
                }
            }
            assert(self@.events =~= post.events);
            assert(self@ =~= post);
        }
    }

    /// Move `amount` units of asset `id` held under `shard_code` from the signer
    /// to `target`. `curr_shard` is the shard this module runs in and
    /// `target_shard` the shard that `target` belongs to: the target is
    /// credited here only when the two agree.
    pub fn transfer(
        &mut self,
        origin: Origin,
        shard_code: Vec<u8>,
        id: AssetId,
        target: AccountId,
        amount: Balance,
        curr_shard: u16,
        target_shard: u16,
    ) -> (r: DispatchResult)
        requires
            old(self).inv(),
            !transfer_overflows(
                old(self)@,
                origin,
                shard_code@,
                id,
                target,
                amount,
                curr_shard,
                target_shard,
            ),
        ensures
            final(self).inv(),
            (final(self)@, r) == transfer_step(
                old(self)@,
                origin,
                shard_code@,
                id,
                target,
                amount,
                curr_shard,
                target_shard,
            ),
    {
        let ghost pre = self@;
        let who = match ensure_signed(origin) {
            Ok(who) => who,
            Err(e) => return Err(e),
        };
        let held = self.balances.get(&shard_code, id, who);
        if amount == 0 {
            return Err(DispatchError::ZeroAmount);
        }
        if held < amount {
            return Err(DispatchError::InsufficientBalance);
        }
        let sc = shard_code.clone();
        assert(sc@ =~= shard_code@);
        self.balances.insert(sc, id, who, held - amount);
        if curr_shard == target_shard {
            let got = self.balances.get(&shard_code, id, target);
            let sc2 = shard_code.clone();
            assert(sc2@ =~= shard_code@);
            self.balances.insert(sc2, id, target, got + amount);
        }
        self.events.push(Event::Transferred(shard_code, id, who, target, amount));
        proof {
            let post = transfer_step(
                pre,
                origin,
                shard_code@,
                id,
                target,
                amount,
                curr_shard,
                target_shard,
            ).0;
            assert(self@.assets =~= post.assets);
            assert(self@.events =~= post.events);
            assert(self@ =~= post);
        }
        Ok(())
    }

    /// Destroy the signer's whole holding of asset `id` under `shard_code`,
    /// taking it off the asset's total supply.
    pub fn destroy(&mut self, origin: Origin, shard_code: Vec<u8>, id: AssetId) -> (r:
        DispatchResult)
        requires
            old(self).inv(),
            !destroy_underflows(old(self)@, origin, shard_code@, id),
        ensures
            final(self).inv(),
            (final(self)@, r) == destroy_step(old(self)@, origin, shard_code@, id),
    {
        let ghost pre = self@;
        let who = match ensure_signed(origin) {
            Ok(who) => who,
            Err(e) => return Err(e),
        };
        let held = self.balances.get(&shard_code, id, who);
        if held == 0 {
            return Err(DispatchError::ZeroBalance);
        }
        let i = match self.index_of(id) {
            Some(i) => i,
            None => {
                assert(false);
                return Err(DispatchError::ZeroBalance);
            },
        };
        let taken = self.balances.take(&shard_code, id, who);
        let supply = self.supplies[i];
        self.supplies[i] = supply - taken;
        self.events.push(Event::Destroyed(shard_code, id, who, taken));
        proof {
            let post = destroy_step(pre, origin, shard_code@, id).0;
            assert(self@.assets =~= post.assets) by {
                assert forall|x: AssetId| #[trigger] self@.assets.contains_key(x) implies self@.assets[x]
                    == post.assets[x] by {
                    if x != id {
                        assert(pre.assets.contains_key(x));
                    }
                }
            }
            assert(self@.events =~= post.events);
            assert(self@ =~= post);
        }
        Ok(())
    }

    /// Apply the receiving side of a cross-shard transfer. `tx` is the decoded
    /// relayed extrinsic, or `None` where it did not decode.
    pub fn relay_transfer(&mut self, tx: Option<RelayedTransfer>) -> (r: DispatchResult)
        requires
            old(self).inv(),
            !relay_fails_hard(old(self)@, tx),
        ensures
            final(self).inv(),
            (final(self)@, r) == relay_step(old(self)@, tx),
    {
        let ghost pre = self@;
        let ghost tx0 = tx;
        match tx {
            None => Err(DispatchError::InvalidTransfer),
            Some(t) => {
                let id = match t.asset_id {
                    Some(id) => id,
                    None => {
                        assert(false);
                        return Err(DispatchError::InvalidTransfer);
                    },
                };
                let got = self.balances.get(&t.shard_code, id, t.to);
                let sc = t.shard_code.clone();
                assert(sc@ =~= t.shard_code@);
                self.balances.insert(sc, id, t.to, got + t.amount);
                self.events.push(Event::Transferred(t.shard_code, id, t.from, t.to, t.amount));
                proof {
                    let post = relay_step(pre, tx0).0;
                    assert(self@.assets =~= post.assets);
                    assert(self@.events =~= post.events);
                    assert(self@ =~= post);
                }
                Ok(())
            },
        }
    }

    /// Units of asset `id` that `who` holds under `shard_code`.
    pub fn balance(&self, shard_code: Vec<u8>, id: AssetId, who: AccountId) -> (r: Balance)
        requires
            self.inv(),
        ensures
            r == self@.balance(shard_code@, id, who),
    {
        self.balances.get(&shard_code, id, who)
    }

    /// Total supply of asset `id`.
    pub fn total_supply(&self, id: AssetId) -> (r: Balance)
        requires
            self.inv(),
        ensures
            r == self@.total_supply(id),
    {
        match self.index_of(id) {
            Some(i) => self.supplies[i],
            None => 0,
        }
    }

    /// Name of asset `id`.
    pub fn name(&self, id: AssetId) -> (r: Vec<u8>)
        requires
            self.inv(),
        ensures
            r@ == self@.name(id),
    {
        match self.index_of(id) {
            Some(i) => {
                let r = self.metas[i].name.clone();
                assert(r@ =~= self.metas@[i as int].name@);
                r
            },
            None => Vec::new(),
        }
    }

    /// Decimals of asset `id`.
    pub fn decimals(&self, id: AssetId) -> (r: Decimals)
        requires
            self.inv(),
        ensures
            r == self@.decimals(id),
    {
        match self.index_of(id) {
            Some(i) => self.metas[i].decimals,
            None => 0,
        }
    }

    /// Issuer of asset `id`.
    pub fn issuer(&self, id: AssetId) -> (r: AccountId)
        requires
            self.inv(),
        ensures
            r == self@.issuer(id),
    {
        match self.index_of(id) {
            Some(i) => self.metas[i].issuer,
            None => 0,
        }
    }

    /// The events deposited so far, oldest first.
    pub fn events(&self) -> (r: &Vec<Event>)
        ensures
            r@.map_values(|e: Event| e@) == self@.events,
    {
        &self.events
    }
}

} // verus!
