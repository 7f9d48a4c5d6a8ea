//! The ledger store: the three containers of the ledger, read-only snapshots
//! of them, and forks that collect the writes of a transaction until they are
//! merged or dropped.

use crate::crypto;
use crate::crypto::PublicKey;
use crate::keys::{first_of, is_first, lemma_first, lemma_push, occurs};
use crate::model::{
    append_bid, find_lot, history_of, lot_ids, store_lot, BidModel, LedgerModel, LotModel,
    WalletModel,
};
use crate::schema::{Bid, Lot, Wallet};
use vstd::prelude::*;

verus! {

/// The wallets of a ledger, each stored under the key of its owner.
#[derive(Debug)]
pub struct WalletIndex {
    entries: Vec<Wallet>,
}

impl View for WalletIndex {
    type V = Map<PublicKey, WalletModel>;

    closed spec fn view(&self) -> Map<PublicKey, WalletModel> {
        Map::new(
            |key: PublicKey| occurs(self.keys(), key),
            |key: PublicKey| self.entries[first_of(self.keys(), key)]@,
        )
    }
}

impl WalletIndex {
    /// The keys of the stored wallets, in the order of the entries.
    spec fn keys(self) -> Seq<PublicKey> {
        Seq::new(self.entries.len() as nat, |i: int| self.entries[i]@.pub_key)
    }

    /// Every wallet is stored under its own key.
    pub proof fn lemma_keyed(self)
        ensures
            forall|key: PublicKey| #[trigger]
                self@.contains_key(key) ==> self@[key].pub_key == key,
    {
        assert forall|key: PublicKey| #[trigger] self@.contains_key(key) implies self@[key].pub_key
            == key by {
            assert(is_first(self.keys(), key, first_of(self.keys(), key)));
        }
    }

    /// A container without wallets.
    pub fn new() -> (wallets: Self)
        ensures
            wallets@ == Map::<PublicKey, WalletModel>::empty(),
    {
        let wallets = WalletIndex { entries: Vec::new() };
        assert(wallets@ =~= Map::<PublicKey, WalletModel>::empty());
        wallets
    }

    /// Where the wallet of `key` is stored, if one is.
    fn find(&self, key: &PublicKey) -> (found: Option<usize>)
        ensures
            match found {
                Some(i) => is_first(self.keys(), *key, i as int),
                None => !occurs(self.keys(), *key),
            },
    {
        let mut i: usize = 0;
        while i < self.entries.len()
            invariant
                i <= self.entries.len(),
                forall|j: int| 0 <= j < i ==> self.keys()[j] != *key,
            decreases self.entries.len() - i,
        {
            if *self.entries[i].pub_key() == *key {
                return Some(i);
            }
            i = i + 1;
        }
        None
    }

    /// The wallet stored for `key`, if there is one.
    pub fn get(&self, key: &PublicKey) -> (wallet: Option<Wallet>)
        ensures
            match wallet {
                Some(w) => self@.contains_key(*key) && w@ == self@[*key],
                None => !self@.contains_key(*key),
            },
    {
        match self.find(key) {
            Some(i) => {
                proof {
                    lemma_first(self.keys(), *key, i as int);
                }
                Some(self.entries[i].clone())
            },
            None => None,
        }
    }

    /// Whether a wallet is stored for `key`.
    pub fn contains(&self, key: &PublicKey) -> (held: bool)
        ensures
            held == self@.contains_key(*key),
    {
        match self.find(key) {
            Some(i) => {
                proof {
                    lemma_first(self.keys(), *key, i as int);
                }
                true
            },
            None => false,
        }
    }

    /// Stores `wallet` under the key of its owner, in place of the wallet
    /// that was stored there, if any.
    pub fn put(&mut self, wallet: Wallet)
        ensures
            final(self)@ == old(self)@.insert(wallet@.pub_key, wallet@),
    {
        let ghost before = *self;
        let ghost key = wallet@.pub_key;
        let ghost stored = wallet@;
        match self.find(wallet.pub_key()) {
            Some(i) => {
                self.entries.set(i, wallet);
                proof {
                    assert(self.keys() =~= before.keys());
                    lemma_first(self.keys(), key, i as int);
                    assert forall|k: PublicKey| occurs(self.keys(), k) && k != key implies first_of(
                        self.keys(),
                        k,
                    ) != i by {
                        assert(is_first(self.keys(), k, first_of(self.keys(), k)));
                    }
                }
            },
            None => {
                self.entries.push(wallet);
                proof {
                    assert(self.keys() =~= before.keys().push(key));
                    assert forall|k: PublicKey|
                        occurs(self.keys(), k) == (occurs(before.keys(), k) || k == key) && (occurs(
                            self.keys(),
                            k,
                        ) ==> first_of(self.keys(), k) == if occurs(before.keys(), k) {
                            first_of(before.keys(), k)
                        } else {
                            before.entries.len() as int
                        }) by {
                        lemma_push(before.keys(), key, k);
                    }
                    assert forall|k: PublicKey| occurs(before.keys(), k) implies 0 <= first_of(
                        before.keys(),
                        k,
                    ) < before.entries.len() by {
                        assert(is_first(before.keys(), k, first_of(before.keys(), k)));
                    }
                }
            },
        }
        assert(self@ =~= before@.insert(key, stored));
    }
}

/// The lots of a ledger, in the order in which they were first stored, each
/// under its own identifier.
#[derive(Debug)]
pub struct LotIndex {
    entries: Vec<Lot>,
}

impl View for LotIndex {
    type V = Seq<LotModel>;

    closed spec fn view(&self) -> Seq<LotModel> {
        Seq::new(self.entries.len() as nat, |i: int| self.entries[i]@)
    }
}

impl LotIndex {
    /// A container without lots.
    pub fn new() -> (lots: Self)
        ensures
            lots@ == Seq::<LotModel>::empty(),
    {
        let lots = LotIndex { entries: Vec::new() };
        assert(lots@ =~= Seq::<LotModel>::empty());
        lots
    }

    /// Where the lot with identifier `id` is stored, if one is.
    fn find(&self, id: &crypto::Hash) -> (found: Option<usize>)
        ensures
            match found {
                Some(i) => is_first(lot_ids(self@), *id, i as int),
                None => !occurs(lot_ids(self@), *id),
            },
    {
        let mut i: usize = 0;
        while i < self.entries.len()
            invariant
                i <= self.entries.len(),
                forall|j: int| 0 <= j < i ==> lot_ids(self@)[j] != *id,
            decreases self.entries.len() - i,
        {
            if *self.entries[i].tx_hash() == *id {
                return Some(i);
            }
            i = i + 1;
        }
        None
    }

    /// The number of lots.
    pub fn len(&self) -> (len: usize)
        ensures
            len == self@.len(),
    {
        self.entries.len()
    }

    /// The lot with identifier `id`, if there is one.
    pub fn get(&self, id: &crypto::Hash) -> (lot: Option<Lot>)
        ensures
            match lot {
                Some(l) => Some(l@) == find_lot(self@, *id),
                None => find_lot(self@, *id) is None,
            },
    {
        match self.find(id) {
            Some(i) => {
                proof {
                    lemma_first(lot_ids(self@), *id, i as int);
                }
                Some(self.entries[i].clone())
            },
            None => None,
        }
    }

    /// Stores `lot` under its identifier: in place of the lot that had it, or
    /// else as the newest lot.
    pub fn put(&mut self, lot: Lot)
        ensures
            final(self)@ == store_lot(old(self)@, lot@),
    {
        let ghost before = self@;
        match self.find(lot.tx_hash()) {
            Some(i) => {
                proof {
                    lemma_first(lot_ids(before), lot@.tx_hash, i as int);
                }
                self.entries.set(i, lot);
            },
            None => {
                self.entries.push(lot);
            },
        }
        assert(self@ =~= store_lot(before, lot@));
    }
}

/// The bids placed on one lot, oldest first.
#[derive(Debug)]
struct BidEntry {
    lot: crypto::Hash,
    bids: Vec<Bid>,
}

/// The bids as values.
pub open spec fn bid_models(bids: Seq<Bid>) -> Seq<BidModel> {
    Seq::new(bids.len(), |i: int| bids[i]@)
}

/// The bid histories of a ledger, by the identifier of the lot.
#[derive(Debug)]
pub struct BidIndex {
    entries: Vec<BidEntry>,
}

impl View for BidIndex {
    type V = Map<crypto::Hash, Seq<BidModel>>;

    closed spec fn view(&self) -> Map<crypto::Hash, Seq<BidModel>> {
        Map::new(
            |id: crypto::Hash| occurs(self.keys(), id),
            |id: crypto::Hash| bid_models(self.entries[first_of(self.keys(), id)].bids@),
        )
    }
}

impl BidIndex {
    /// The identifiers that have a history, in the order of the entries.
    spec fn keys(self) -> Seq<crypto::Hash> {
        Seq::new(self.entries.len() as nat, |i: int| self.entries[i].lot)
    }

    /// A container without bids.
    pub fn new() -> (bids: Self)
        ensures
            bids@ == Map::<crypto::Hash, Seq<BidModel>>::empty(),
    {
        let bids = BidIndex { entries: Vec::new() };
        assert(bids@ =~= Map::<crypto::Hash, Seq<BidModel>>::empty());
        bids
    }

    /// Where the history of `id` is stored, if it has one.
    fn find(&self, id: &crypto::Hash) -> (found: Option<usize>)
        ensures
            match found {
                Some(i) => is_first(self.keys(), *id, i as int) && self@.contains_key(*id)
                    && self@[*id] == bid_models(self.entries[i as int].bids@),
                None => !occurs(self.keys(), *id) && !self@.contains_key(*id),
            },
    {
        let mut i: usize = 0;
        while i < self.entries.len()
            invariant
                i <= self.entries.len(),
                forall|j: int| 0 <= j < i ==> self.keys()[j] != *id,
            decreases self.entries.len() - i,
        {
            if self.entries[i].lot == *id {
                proof {
                    lemma_first(self.keys(), *id, i as int);
                }
                return Some(i);
            }
            i = i + 1;
        }
        None
    }

    /// The bids placed under `id`, oldest first.
    pub fn history(&self, id: &crypto::Hash) -> (bids: Vec<Bid>)
        ensures
            bid_models(bids@) == history_of(self@, *id),
    {
        match self.find(id) {
            Some(i) => {
                let bids = self.entries[i].bids.clone();
                assert(bid_models(bids@) =~= bid_models(self.entries[i as int].bids@));
                bids
            },
            None => {
                let bids = Vec::new();
                assert(bid_models(bids@) =~= Seq::<BidModel>::empty());
                bids
            },
        }
    }

    /// The number of bids placed under `id`.
    pub fn len(&self, id: &crypto::Hash) -> (len: usize)
        ensures
            len == history_of(self@, *id).len(),
    {
        match self.find(id) {
            Some(i) => self.entries[i].bids.len(),
            None => 0,
        }
    }

    /// The newest bid placed under `id`, if any was.
    pub fn last(&self, id: &crypto::Hash) -> (bid: Option<Bid>)
        ensures
            match bid {
                Some(b) => history_of(self@, *id).len() > 0 && b@ == history_of(self@, *id).last(),
                None => history_of(self@, *id).len() == 0,
            },
    {
        match self.find(id) {
            Some(i) => {
                let bids = &self.entries[i].bids;
                if bids.len() > 0 {
                    Some(bids[bids.len() - 1])
                } else {
                    None
                }
            },
            None => None,
        }
    }

    /// Appends `bid` to the history of `id`.
    pub fn push(&mut self, id: &crypto::Hash, bid: Bid)
        ensures
            final(self)@ == append_bid(old(self)@, *id, bid@),
    {
        let ghost before = *self;
        match self.find(id) {
            Some(i) => {
                self.entries[i].bids.push(bid);
                proof {
                    assert(self.keys() =~= before.keys());
                    assert(bid_models(self.entries[i as int].bids@) =~= bid_models(
                        before.entries[i as int].bids@,
                    ).push(bid@));
                    assert forall|k: crypto::Hash|
                        occurs(self.keys(), k) && k != *id implies first_of(self.keys(), k)
                        != i by {
                        assert(is_first(self.keys(), k, first_of(self.keys(), k)));
                    }
                }
            },
            None => {
                let mut bids = Vec::new();
                bids.push(bid);
                self.entries.push(BidEntry { lot: *id, bids });
                proof {
                    assert(self.keys() =~= before.keys().push(*id));
                    assert(bid_models(bids@) =~= Seq::<BidModel>::empty().push(bid@));
                    assert forall|k: crypto::Hash|
                        occurs(self.keys(), k) == (occurs(before.keys(), k) || k == *id) && (occurs(
                            self.keys(),
                            k,
                        ) ==> first_of(self.keys(), k) == if occurs(before.keys(), k) {
                            first_of(before.keys(), k)
                        } else {
                            before.entries.len() as int
                        }) by {
                        lemma_push(before.keys(), *id, k);
                    }
                    assert forall|k: crypto::Hash| occurs(before.keys(), k) implies 0 <= first_of(
                        before.keys(),
                        k,
                    ) < before.entries.len() by {
                        assert(is_first(before.keys(), k, first_of(before.keys(), k)));
                    }
                }
            },
        }
        assert(self@ =~= append_bid(before@, *id, bid@));
    }
}

impl Clone for WalletIndex {
    fn clone(&self) -> (copy: Self)
        ensures
            copy@ == self@,
    {
        let copy = WalletIndex { entries: self.entries.clone() };
        proof {
            assert(copy.keys() =~= self.keys());
            assert(copy@ =~= self@);
        }
        copy
    }
}

impl Clone for LotIndex {
    fn clone(&self) -> (copy: Self)
        ensures
            copy@ == self@,
    {
        let copy = LotIndex { entries: self.entries.clone() };
        proof {
            assert(copy@ =~= self@);
        }
        copy
    }
}

impl Clone for BidIndex {
    fn clone(&self) -> (copy: Self)
        ensures
            copy@ == self@,
    {
        let mut entries: Vec<BidEntry> = Vec::new();
        let mut i: usize = 0;
        while i < self.entries.len()
            invariant
                i <= self.entries.len(),
                entries.len() == i,
                forall|j: int|
                    0 <= j < i ==> (#[trigger] entries[j]).lot == self.entries[j].lot && bid_models(
                        entries[j].bids@,
                    ) == bid_models(self.entries[j].bids@),
            decreases self.entries.len() - i,
        {
            let bids = self.entries[i].bids.clone();
            assert(bid_models(bids@) =~= bid_models(self.entries[i as int].bids@));
            entries.push(BidEntry { lot: self.entries[i].lot, bids });
            i = i + 1;
        }
        let copy = BidIndex { entries };
        proof {
            assert(copy.keys() =~= self.keys());
            assert(copy@ =~= self@);
        }
        copy
    }
}

/// The bid history of one lot, for appending.
pub struct BidHistoryMut<'a> {
    pub bids: &'a mut BidIndex,
    pub lot: crypto::Hash,
}

impl<'a> BidHistoryMut<'a> {
    /// Appends `bid` to the history.
    pub fn push(&mut self, bid: Bid)
        ensures
            final(self).bids@ == append_bid(old(self).bids@, old(self).lot, bid@),
            final(self).lot == old(self).lot,
            *final(final(self).bids) == *final(old(self).bids),
    {
        self.bids.push(&self.lot, bid);
    }
}

/// The contents of a ledger at one point in time, for reading only.
#[derive(Debug)]
pub struct Snapshot {
    wallets: WalletIndex,
    lots: LotIndex,
    bids: BidIndex,
}

impl View for Snapshot {
    type V = LedgerModel;

    closed spec fn view(&self) -> LedgerModel {
        LedgerModel { wallets: self.wallets@, lots: self.lots@, bids: self.bids@ }
    }
}

impl Snapshot {
    /// Every wallet of a snapshot is stored under its own key.
    pub proof fn lemma_wallets_keyed(self)
        ensures
            self@.wallets_keyed(),
    {
        self.wallets.lemma_keyed();
    }

    /// The wallets.
    pub fn wallets(&self) -> (wallets: &WalletIndex)
        ensures
            wallets@ == self@.wallets,
    {
        &self.wallets
    }

    /// The lots.
    pub fn lots(&self) -> (lots: &LotIndex)
        ensures
            lots@ == self@.lots,
    {
        &self.lots
    }

    /// The bid histories.
    pub fn bids(&self) -> (bids: &BidIndex)
        ensures
            bids@ == self@.bids,
    {
        &self.bids
    }
}

/// A private copy of a ledger that collects writes. Nothing that is written
/// to a fork shows anywhere else until the fork is merged; a fork that is
/// dropped leaves no trace.
#[derive(Debug)]
pub struct Fork {
    wallets: WalletIndex,
    lots: LotIndex,
    bids: BidIndex,
}

impl View for Fork {
    type V = LedgerModel;

    closed spec fn view(&self) -> LedgerModel {
        LedgerModel { wallets: self.wallets@, lots: self.lots@, bids: self.bids@ }
    }
}

impl Fork {
    /// Every wallet of a fork is stored under its own key.
    pub proof fn lemma_wallets_keyed(self)
        ensures
            self@.wallets_keyed(),
    {
        self.wallets.lemma_keyed();
    }

    /// The wallets.
    pub fn wallets(&self) -> (wallets: &WalletIndex)
        ensures
            wallets@ == self@.wallets,
    {
        &self.wallets
    }

    /// The lots.
    pub fn lots(&self) -> (lots: &LotIndex)
        ensures
            lots@ == self@.lots,
    {
        &self.lots
    }

    /// The bid histories.
    pub fn bids(&self) -> (bids: &BidIndex)
        ensures
            bids@ == self@.bids,
    {
        &self.bids
    }

    /// The wallets, for writing.
    pub fn wallets_mut(&mut self) -> (wallets: &mut WalletIndex)
        ensures
            wallets@ == old(self)@.wallets,
            final(self)@ == (LedgerModel { wallets: final(wallets)@, ..old(self)@ }),
    {
        &mut self.wallets
    }

    /// The lots, for writing.
    pub fn lots_mut(&mut self) -> (lots: &mut LotIndex)
        ensures
            lots@ == old(self)@.lots,
            final(self)@ == (LedgerModel { lots: final(lots)@, ..old(self)@ }),
    {
        &mut self.lots
    }

    /// The bid histories, for writing.
    pub fn bids_mut(&mut self) -> (bids: &mut BidIndex)
        ensures
            bids@ == old(self)@.bids,
            final(self)@ == (LedgerModel { bids: final(bids)@, ..old(self)@ }),
    {
        &mut self.bids
    }
}

/// The ledger store: the committed contents of the ledger.
#[derive(Debug)]
pub struct Database {
    wallets: WalletIndex,
    lots: LotIndex,
    bids: BidIndex,
}

impl View for Database {
    type V = LedgerModel;

    closed spec fn view(&self) -> LedgerModel {
        LedgerModel { wallets: self.wallets@, lots: self.lots@, bids: self.bids@ }
    }
}

impl Database {
    /// Every wallet of a store is stored under its own key.
    pub proof fn lemma_wallets_keyed(self)
        ensures
            self@.wallets_keyed(),
    {
        self.wallets.lemma_keyed();
    }

    /// A store that holds nothing.
    pub fn new() -> (database: Self)
        ensures
            database@ == LedgerModel::empty(),
    {
        Database { wallets: WalletIndex::new(), lots: LotIndex::new(), bids: BidIndex::new() }
    }

    /// The committed contents as they are now. Later writes to the store do
    /// not show in the snapshot.
    pub fn snapshot(&self) -> (snapshot: Snapshot)
        ensures
            snapshot@ == self@,
    {
        Snapshot { wallets: self.wallets.clone(), lots: self.lots.clone(), bids: self.bids.clone() }
    }

    /// A fork that starts from the committed contents.
    pub fn fork(&self) -> (fork: Fork)
        ensures
            fork@ == self@,
    {
        Fork { wallets: self.wallets.clone(), lots: self.lots.clone(), bids: self.bids.clone() }
    }

    /// Commits a fork: all that it holds becomes the committed contents, as
    /// one step.
    pub fn merge(&mut self, fork: Fork)
        ensures
            final(self)@ == fork@,
    {
        self.wallets = fork.wallets;
        self.lots = fork.lots;
        self.bids = fork.bids;
    }
}

} // verus!
