//! The balance ledger: a finite map from (shard code, asset id, account) to a
//! balance, kept as a vector of entries whose keys are pairwise distinct.

use crate::encoding::AccountId;
use vstd::prelude::*;

verus! {

/// Identifier of an asset class.
pub type AssetId = u32;

/// Units in which balances are recorded.
pub type Balance = u64;

/// The key of a balance as seen in specifications: shard code, asset, holder.
pub type BalanceKey = (Seq<u8>, AssetId, AccountId);

/// One stored balance.
pub struct BalanceEntry {
    pub shard_code: Vec<u8>,
    pub asset_id: AssetId,
    pub who: AccountId,
    pub balance: Balance,
}

impl BalanceEntry {
    pub open spec fn key(self) -> BalanceKey {
        (self.shard_code@, self.asset_id, self.who)
    }
}

/// Position `i` of `entries` holds the key `k`.
pub open spec fn key_at(entries: Seq<BalanceEntry>, i: int, k: BalanceKey) -> bool {
    0 <= i < entries.len() && entries[i].key() == k
}

/// No two entries share a key.
pub open spec fn keys_unique(entries: Seq<BalanceEntry>) -> bool {
    forall|i: int, j: int|
        #![trigger entries[i].key(), entries[j].key()]
        0 <= i < entries.len() && 0 <= j < entries.len() && i != j ==> entries[i].key()
            != entries[j].key()
}

/// The map that a sequence of entries stands for.
pub open spec fn entries_view(entries: Seq<BalanceEntry>) -> Map<BalanceKey, Balance> {
    Map::new(
        |k: BalanceKey| exists|i: int| key_at(entries, i, k),
        |k: BalanceKey| entries[choose|i: int| key_at(entries, i, k)].balance,
    )
}

/// The value stored under `k`, or zero where nothing is stored.
pub open spec fn balance_in(m: Map<BalanceKey, Balance>, k: BalanceKey) -> Balance {
    if m.contains_key(k) {
        m[k]
    } else {
        0
    }
}

/// With unique keys, the map holds at the key of entry `i` exactly its balance.
pub proof fn lemma_entries_view_at(entries: Seq<BalanceEntry>, i: int)
    requires
        keys_unique(entries),
        0 <= i < entries.len(),
    ensures
        entries_view(entries).contains_key(entries[i].key()),
        entries_view(entries)[entries[i].key()] == entries[i].balance,
{
    let k = entries[i].key();
    assert(key_at(entries, i, k));
    let j = choose|j: int| key_at(entries, j, k);
    assert(key_at(entries, j, k));
    if j != i {
        assert(entries[i].key() != entries[j].key());
    }
}

/// The map that a ledger stands for is finite.
pub proof fn lemma_entries_view_finite(entries: Seq<BalanceEntry>)
    ensures
        entries_view(entries).dom().finite(),
{
    let keys = entries.map_values(|e: BalanceEntry| e.key()).to_set();
    assert(entries_view(entries).dom() =~= keys) by {
        assert forall|k: BalanceKey| entries_view(entries).dom().contains(k) implies keys.contains(
            k,
        ) by {
            let i = choose|i: int| key_at(entries, i, k);
            assert(entries.map_values(|e: BalanceEntry| e.key())[i] == k);
        }
        assert forall|k: BalanceKey| keys.contains(k) implies entries_view(
            entries,
        ).dom().contains(k) by {
            let s = entries.map_values(|e: BalanceEntry| e.key());
            let i = choose|i: int| 0 <= i < s.len() && s[i] == k;
            assert(key_at(entries, i, k));
        }
    }
    vstd::seq_lib::seq_to_set_is_finite(entries.map_values(|e: BalanceEntry| e.key()));
}

/// Stored balances, keyed by shard code, asset id and holder.
pub struct BalanceLedger {
    entries: Vec<BalanceEntry>,
}

impl View for BalanceLedger {
    type V = Map<BalanceKey, Balance>;

    closed spec fn view(&self) -> Map<BalanceKey, Balance> {
        entries_view(self.entries@)
    }
}

/// Byte strings compare equal exactly when their contents are.
fn bytes_eq(a: &Vec<u8>, b: &Vec<u8>) -> (r: bool)
    ensures
        r == (a@ == b@),
{
    if a.len() != b.len() {
        return false;
    }
    let n = a.len();
    let mut i: usize = 0;
    while i < n
        invariant
            n == a.len(),
            n == b.len(),
            i <= n,
            forall|j: int| 0 <= j < i ==> a@[j] == b@[j],
        decreases n - i,
    {
        if a[i] != b[i] {
            return false;
        }
        i = i + 1;
    }
    assert(a@ =~= b@);
    true
}

impl BalanceLedger {
    /// The ledger's entries have pairwise distinct keys.
    pub closed spec fn wf(&self) -> bool {
        keys_unique(self.entries@)
    }

    /// An empty ledger.
    pub fn new() -> (r: Self)
        ensures
            r.wf(),
            r@ == Map::<BalanceKey, Balance>::empty(),
    {
        let r = BalanceLedger { entries: Vec::new() };
        assert(r@ =~= Map::<BalanceKey, Balance>::empty());
        r
    }

    /// The stored map is finite.
    pub proof fn lemma_finite(&self)
        ensures
            self@.dom().finite(),
    {
        lemma_entries_view_finite(self.entries@);
    }

    /// Position of the entry with the given key, if any.
    fn find(&self, shard_code: &Vec<u8>, asset_id: AssetId, who: AccountId) -> (r: Option<usize>)
        requires
            self.wf(),
        ensures
            match r {
                Some(i) => i < self.entries@.len() && self.entries@[i as int].key() == (
                    shard_code@,
                    asset_id,
                    who,
                ),
                None => !self@.contains_key((shard_code@, asset_id, who)),
            },
    {
        let ghost k = (shard_code@, asset_id, who);
        let n = self.entries.len();
        let mut i: usize = 0;
        while i < n
            invariant
                n == self.entries@.len(),
                i <= n,
                k == (shard_code@, asset_id, who),
                forall|j: int| 0 <= j < i ==> self.entries@[j].key() != k,
            decreases n - i,
        {
            let e = &self.entries[i];
            if e.asset_id == asset_id && e.who == who && bytes_eq(&e.shard_code, shard_code) {
                return Some(i);
            }
            i = i + 1;
        }
        assert(!self@.contains_key(k)) by {
            if self@.contains_key(k) {
                let j = choose|j: int| key_at(self.entries@, j, k);
                assert(key_at(self.entries@, j, k));
            }
        }
        None
    }

    /// The balance stored under the key, or zero.
    pub fn get(&self, shard_code: &Vec<u8>, asset_id: AssetId, who: AccountId) -> (r: Balance)
        requires
            self.wf(),
        ensures
            r == balance_in(self@, (shard_code@, asset_id, who)),
    {
        match self.find(shard_code, asset_id, who) {
            Some(i) => {
                proof {
                    lemma_entries_view_at(self.entries@, i as int);
                }
                self.entries[i].balance
            },
            None => 0,
        }
    }

    /// Store `value` under the key, replacing what was there.
    pub fn insert(&mut self, shard_code: Vec<u8>, asset_id: AssetId, who: AccountId, value: Balance)
        requires
            old(self).wf(),
        ensures
            final(self).wf(),
            final(self)@ == old(self)@.insert((shard_code@, asset_id, who), value),
    {
        let ghost k = (shard_code@, asset_id, who);
        let ghost old_entries = self.entries@;
        match self.find(&shard_code, asset_id, who) {
            Some(i) => {
                let e = BalanceEntry { shard_code, asset_id, who, balance: value };
                self.entries[i] = e;
                proof {
                    let ne = self.entries@;
                    assert(forall|j: int| 0 <= j < ne.len() ==> #[trigger] ne[j].key() == old_entries[j].key());
                    assert(keys_unique(ne));
                    assert forall|k2: BalanceKey| #[trigger] self@.contains_key(k2) == entries_view(old_entries).insert(k, value).contains_key(k2)
                        && (self@.contains_key(k2) ==> self@[k2] == entries_view(old_entries).insert(k, value)[k2]) by {
                        if exists|j: int| key_at(ne, j, k2) {
                            let j = choose|j: int| key_at(ne, j, k2);
                            assert(key_at(old_entries, j, k2));
                            lemma_entries_view_at(ne, j);
                            if j != i {
                                lemma_entries_view_at(old_entries, j);
                            }
                        } else {
                            if exists|j: int| key_at(old_entries, j, k2) {
                                let j = choose|j: int| key_at(old_entries, j, k2);
                                assert(key_at(ne, j, k2));
                            }
                            assert(key_at(old_entries, i as int, k));
                        }
                    }
                    assert(self@ =~= entries_view(old_entries).insert(k, value));
                }
            },
            None => {
                let e = BalanceEntry { shard_code, asset_id, who, balance: value };
                self.entries.push(e);
                proof {
                    let ne = self.entries@;
                    let n = old_entries.len() as int;
                    assert(forall|j: int| 0 <= j < n ==> #[trigger] ne[j] == old_entries[j]);
                    assert forall|a: int, b: int|
                        #![trigger ne[a].key(), ne[b].key()]
                        0 <= a < ne.len() && 0 <= b < ne.len() && a != b implies ne[a].key()
                            != ne[b].key() by {
                        if a == n {
                            assert(!key_at(old_entries, b, k));
                        } else if b == n {
                            assert(!key_at(old_entries, a, k));
                        }
                    }
                    assert forall|k2: BalanceKey| #[trigger] self@.contains_key(k2) == entries_view(old_entries).insert(k, value).contains_key(k2)
                        && (self@.contains_key(k2) ==> self@[k2] == entries_view(old_entries).insert(k, value)[k2]) by {
                        if k2 == k {
                            lemma_entries_view_at(ne, n);
                        } else if exists|j: int| key_at(old_entries, j, k2) {
                            let j = choose|j: int| key_at(old_entries, j, k2);
                            assert(key_at(ne, j, k2));
                            lemma_entries_view_at(ne, j);
                            lemma_entries_view_at(old_entries, j);
                        } else {
                            if exists|j: int| key_at(ne, j, k2) {
                                let j = choose|j: int| key_at(ne, j, k2);
                                if j < n {
                                    assert(key_at(old_entries, j, k2));
                                }
                            }
                        }
                    }
                    assert(self@ =~= entries_view(old_entries).insert(k, value));
                }
            },
        }
    }

    /// Remove the entry under the key, returning the balance it held (zero if none).
    pub fn take(&mut self, shard_code: &Vec<u8>, asset_id: AssetId, who: AccountId) -> (r: Balance)
        requires
            old(self).wf(),
        ensures
            final(self).wf(),
            r == balance_in(old(self)@, (shard_code@, asset_id, who)),
            final(self)@ == old(self)@.remove((shard_code@, asset_id, who)),
    {
        let ghost k = (shard_code@, asset_id, who);
        let ghost old_entries = self.entries@;
        match self.find(shard_code, asset_id, who) {
            Some(i) => {
                proof {
                    lemma_entries_view_at(old_entries, i as int);
                }
                let e = self.entries.remove(i);
                proof {
                    let ne = self.entries@;
                    let ii = i as int;
                    assert(forall|j: int| 0 <= j < ii ==> #[trigger] ne[j] == old_entries[j]);
                    assert(forall|j: int| ii <= j < ne.len() ==> #[trigger] ne[j] == old_entries[j + 1]);
                    assert forall|a: int, b: int|
                        #![trigger ne[a].key(), ne[b].key()]
                        0 <= a < ne.len() && 0 <= b < ne.len() && a != b implies ne[a].key()
                            != ne[b].key() by {
                        let oa = if a < ii { a } else { a + 1 };
                        let ob = if b < ii { b } else { b + 1 };
                        assert(old_entries[oa].key() != old_entries[ob].key());
                    }
                    assert forall|k2: BalanceKey| #[trigger] self@.contains_key(k2) == entries_view(old_entries).remove(k).contains_key(k2)
                        && (self@.contains_key(k2) ==> self@[k2] == entries_view(old_entries).remove(k)[k2]) by {
                        if exists|j: int| key_at(ne, j, k2) {
                            let j = choose|j: int| key_at(ne, j, k2);
                            let oj = if j < ii { j } else { j + 1 };
                            assert(key_at(old_entries, oj, k2));
                            assert(old_entries[oj].key() != old_entries[ii].key());
                            lemma_entries_view_at(ne, j);
                            lemma_entries_view_at(old_entries, oj);
                        } else {
                            if exists|j: int| key_at(old_entries, j, k2) && k2 != k {
                                let j = choose|j: int| key_at(old_entries, j, k2) && k2 != k;
                                assert(j != ii);
                                let nj = if j < ii { j } else { j - 1 };
                                assert(key_at(ne, nj, k2));
                            }
                        }
                    }
                    assert(self@ =~= entries_view(old_entries).remove(k));
                }
                e.balance
            },
            None => {
                assert(self@ =~= self@.remove(k));
                0
            },
        }
    }
}

} // verus!
