//! The records of the ledger and the accessor that reads and writes them.

use crate::crypto;
use crate::crypto::PublicKey;
use crate::model::{BidModel, LedgerModel, LotModel, WalletModel};
use crate::storage::{bid_models, BidHistoryMut, Fork, LotIndex, Snapshot, WalletIndex};
use crate::tx::{reports, Error, ExecutionError};
use vstd::prelude::*;

verus! {

/// A wallet as it is stored.
///
/// The balance and the frozen amount together never exceed `u64::MAX`: funds
/// only move between the two.
#[derive(Debug)]
pub struct Wallet {
    pub_key: PublicKey,
    name: String,
    balance: u64,
    frozen: u64,
}

impl View for Wallet {
    type V = WalletModel;

    closed spec fn view(&self) -> WalletModel {
        WalletModel {
            pub_key: self.pub_key,
            name: self.name@,
            balance: self.balance as nat,
            frozen: self.frozen as nat,
        }
    }
}

impl Clone for Wallet {
    fn clone(&self) -> (copy: Self)
        ensures
            copy == *self,
    {
        proof {
            use_type_invariant(self);
        }
        Wallet {
            pub_key: self.pub_key,
            name: self.name.clone(),
            balance: self.balance,
            frozen: self.frozen,
        }
    }
}

impl Wallet {
    #[verifier::type_invariant]
    spec fn fits(self) -> bool {
        self.balance + self.frozen <= u64::MAX
    }

    /// A wallet with the given contents.
    pub fn new(pub_key: &PublicKey, name: &str, balance: u64, frozen: u64) -> (wallet: Self)
        requires
            balance + frozen <= u64::MAX,
        ensures
            wallet@ == (WalletModel {
                pub_key: *pub_key,
                name: name@,
                balance: balance as nat,
                frozen: frozen as nat,
            }),
    {
        Wallet { pub_key: *pub_key, name: name.to_owned(), balance, frozen }
    }

    /// The key of the wallet's owner.
    pub fn pub_key(&self) -> (key: &PublicKey)
        ensures
            *key == self@.pub_key,
    {
        &self.pub_key
    }

    /// The name of the wallet.
    pub fn name(&self) -> (name: &str)
        ensures
            name@ == self@.name,
    {
        self.name.as_str()
    }

    /// The funds that can be spent.
    pub fn balance(&self) -> (balance: u64)
        ensures
            balance == self@.balance,
    {
        self.balance
    }

    /// The funds escrowed in active bids.
    pub fn frozen(&self) -> (frozen: u64)
        ensures
            frozen == self@.frozen,
    {
        self.frozen
    }

    /// Moves `amount` from the balance into escrow, if the balance covers it.
    pub fn freeze(self, amount: u64) -> (result: Result<Self, Error>)
        ensures
            match result {
                Ok(wallet) => self@.can_freeze(amount as nat) && wallet@ == self@.freeze(
                    amount as nat,
                ),
                Err(error) => !self@.can_freeze(amount as nat) && error
                    == Error::InsufficientCurrencyAmount,
            },
    {
        proof {
            use_type_invariant(&self);
        }
        if self.balance >= amount {
            Ok(
                Wallet {
                    pub_key: self.pub_key,
                    name: self.name,
                    balance: self.balance - amount,
                    frozen: self.frozen + amount,
                },
            )
        } else {
            Err(Error::InsufficientCurrencyAmount)
        }
    }

    /// Moves `amount` from escrow back to the balance; where less than
    /// `amount` is frozen, everything that is frozen.
    pub fn release(self, amount: u64) -> (wallet: Self)
        ensures
            wallet@ == self@.release(amount as nat),
    {
        proof {
            use_type_invariant(&self);
        }
        let actual_amount = if self.frozen <= amount {
            self.frozen
        } else {
            amount
        };
        Wallet {
            pub_key: self.pub_key,
            name: self.name,
            balance: self.balance + actual_amount,
            frozen: self.frozen - actual_amount,
        }
    }
}

/// A lot as it is stored.
#[derive(Debug)]
pub struct Lot {
    owner: PublicKey,
    name: String,
    min_bid: u64,
    tx_hash: crypto::Hash,
}

impl View for Lot {
    type V = LotModel;

    closed spec fn view(&self) -> LotModel {
        LotModel {
            owner: self.owner,
            name: self.name@,
            min_bid: self.min_bid as nat,
            tx_hash: self.tx_hash,
        }
    }
}

impl Clone for Lot {
    fn clone(&self) -> (copy: Self)
        ensures
            copy == *self,
    {
        Lot {
            owner: self.owner,
            name: self.name.clone(),
            min_bid: self.min_bid,
            tx_hash: self.tx_hash,
        }
    }
}

impl Lot {
    /// A lot with the given contents.
    pub fn new(owner: &PublicKey, name: &str, min_bid: u64, tx_hash: &crypto::Hash) -> (lot: Self)
        ensures
            lot@ == (LotModel {
                owner: *owner,
                name: name@,
                min_bid: min_bid as nat,
                tx_hash: *tx_hash,
            }),
    {
        Lot { owner: *owner, name: name.to_owned(), min_bid, tx_hash: *tx_hash }
    }

    /// The key of the participant who put the lot up.
    pub fn owner(&self) -> (owner: &PublicKey)
        ensures
            *owner == self@.owner,
    {
        &self.owner
    }

    /// The name of the lot.
    pub fn name(&self) -> (name: &str)
        ensures
            name@ == self@.name,
    {
        self.name.as_str()
    }

    /// The least amount that a bid on the lot may have.
    pub fn min_bid(&self) -> (min_bid: u64)
        ensures
            min_bid == self@.min_bid,
    {
        self.min_bid
    }

    /// The transaction that created the lot: the lot's identifier.
    pub fn tx_hash(&self) -> (tx_hash: &crypto::Hash)
        ensures
            *tx_hash == self@.tx_hash,
    {
        &self.tx_hash
    }
}

/// A bid as it is stored.
#[derive(Clone, Copy, Debug)]
pub struct Bid {
    owner: PublicKey,
    amount: u64,
    tx_hash: crypto::Hash,
}

impl View for Bid {
    type V = BidModel;

    closed spec fn view(&self) -> BidModel {
        BidModel { owner: self.owner, amount: self.amount as nat, tx_hash: self.tx_hash }
    }
}

impl Bid {
    /// A bid with the given contents.
    pub fn new(owner: &PublicKey, amount: u64, tx_hash: &crypto::Hash) -> (bid: Self)
        ensures
            bid@ == (BidModel { owner: *owner, amount: amount as nat, tx_hash: *tx_hash }),
    {
        Bid { owner: *owner, amount, tx_hash: *tx_hash }
    }

    /// The key of the bidder.
    pub fn owner(&self) -> (owner: &PublicKey)
        ensures
            *owner == self@.owner,
    {
        &self.owner
    }

    /// The amount that was bid.
    pub fn amount(&self) -> (amount: u64)
        ensures
            amount == self@.amount,
    {
        self.amount
    }

    /// The transaction that placed the bid.
    pub fn tx_hash(&self) -> (tx_hash: &crypto::Hash)
        ensures
            *tx_hash == self@.tx_hash,
    {
        &self.tx_hash
    }
}

/// The accessor of the ledger's records: the domain operations over a view
/// of the store, a snapshot for reading or a fork for writing.
#[derive(Debug)]
pub struct Schema<T> {
    pub view: T,
}

impl<T> Schema<T> {
    /// An accessor over `view`.
    pub fn new(view: T) -> (schema: Self)
        ensures
            schema.view == view,
    {
        Schema { view }
    }

    /// The digests that the service publishes of its state: one, that of the
    /// wallets. Lots and bids are covered by none.
    pub fn state_hash(&self, wallets_root: crypto::Hash) -> (digests: Vec<crypto::Hash>)
        ensures
            digests@ == seq![wallets_root],
    {
        let mut digests = Vec::new();
        digests.push(wallets_root);
        digests
    }
}

/// Reading through a snapshot.
impl<'a> Schema<&'a Snapshot> {
    /// The wallets.
    pub fn wallets(&self) -> (wallets: &WalletIndex)
        ensures
            wallets@ == self.view@.wallets,
    {
        self.view.wallets()
    }

    /// The lots.
    pub fn lots(&self) -> (lots: &LotIndex)
        ensures
            lots@ == self.view@.lots,
    {
        self.view.lots()
    }

    /// The bids placed on the lot `hash`, oldest first.
    pub fn bid_history(&self, hash: &crypto::Hash) -> (bids: Vec<Bid>)
        ensures
            bid_models(bids@) == self.view@.history(*hash),
    {
        self.view.bids().history(hash)
    }

    /// The wallet stored for `pub_key`, if there is one.
    pub fn wallet(&self, pub_key: &PublicKey) -> (wallet: Option<Wallet>)
        ensures
            match wallet {
                Some(w) => Some(w@) == self.view@.wallet(*pub_key),
                None => self.view@.wallet(*pub_key) is None,
            },
    {
        self.view.wallets().get(pub_key)
    }

    /// The lot with identifier `id`, if there is one.
    pub fn lot(&self, id: &crypto::Hash) -> (lot: Option<Lot>)
        ensures
            match lot {
                Some(l) => Some(l@) == self.view@.lot(*id),
                None => self.view@.lot(*id) is None,
            },
    {
        self.view.lots().get(id)
    }

    /// The active bid of lot `id`: the newest of its history. None where the
    /// lot has no bids, and where there is no such lot.
    pub fn last_bid(&self, id: &crypto::Hash) -> (bid: Option<Bid>)
        ensures
            match bid {
                Some(b) => Some(b@) == self.view@.last_bid(*id),
                None => self.view@.last_bid(*id) is None,
            },
    {
        match self.lot(id) {
            Some(_lot) => self.view.bids().last(id),
            None => None,
        }
    }
}

/// Reading and writing through a fork.
///
/// In the contracts `old(self).view@` is what the fork holds when a call
/// starts and `final(self).view@` what it holds when the call returns. The
/// last clause of each writing call says that the accessor still writes to
/// the fork it was made for.
impl<'a> Schema<&'a mut Fork> {
    /// The wallets.
    pub fn wallets(&self) -> (wallets: &WalletIndex)
        ensures
            wallets@ == old(self.view)@.wallets,
    {
        self.view.wallets()
    }

    /// The lots.
    pub fn lots(&self) -> (lots: &LotIndex)
        ensures
            lots@ == old(self.view)@.lots,
    {
        self.view.lots()
    }

    /// The bids placed on the lot `hash`, oldest first.
    pub fn bid_history(&self, hash: &crypto::Hash) -> (bids: Vec<Bid>)
        ensures
            bid_models(bids@) == old(self.view)@.history(*hash),
    {
        self.view.bids().history(hash)
    }

    /// The wallets, for writing.
    pub fn wallets_mut(&mut self) -> (wallets: &mut WalletIndex)
        ensures
            wallets@ == old(self).view@.wallets,
            final(self).view@ == (LedgerModel { wallets: final(wallets)@, ..old(self).view@ }),
            *final(final(self).view) == *final(old(self).view),
    {
        self.view.wallets_mut()
    }

    /// The lots, for writing.
    pub fn lots_mut(&mut self) -> (lots: &mut LotIndex)
        ensures
            lots@ == old(self).view@.lots,
            final(self).view@ == (LedgerModel { lots: final(lots)@, ..old(self).view@ }),
            *final(final(self).view) == *final(old(self).view),
    {
        self.view.lots_mut()
    }

    /// The bid history of the lot `lot`, for appending.
    pub fn bid_history_mut(&mut self, lot: &crypto::Hash) -> (history: BidHistoryMut<'_>)
        ensures
            history.lot == *lot,
            history.bids@ == old(self).view@.bids,
            final(self).view@ == (LedgerModel { bids: final(history.bids)@, ..old(self).view@ }),
            *final(final(self).view) == *final(old(self).view),
    {
        BidHistoryMut { bids: self.view.bids_mut(), lot: *lot }
    }

    /// The wallet stored for `pub_key`, if there is one.
    pub fn wallet(&self, pub_key: &PublicKey) -> (wallet: Option<Wallet>)
        ensures
            match wallet {
                Some(w) => Some(w@) == old(self.view)@.wallet(*pub_key),
                None => old(self.view)@.wallet(*pub_key) is None,
            },
    {
        self.view.wallets().get(pub_key)
    }

    /// The lot with identifier `id`, if there is one.
    pub fn lot(&self, id: &crypto::Hash) -> (lot: Option<Lot>)
        ensures
            match lot {
                Some(l) => Some(l@) == old(self.view)@.lot(*id),
                None => old(self.view)@.lot(*id) is None,
            },
    {
        self.view.lots().get(id)
    }

    /// The active bid of lot `id`: the newest of its history. None where the
    /// lot has no bids, and where there is no such lot.
    pub fn last_bid(&self, id: &crypto::Hash) -> (bid: Option<Bid>)
        ensures
            match bid {
                Some(b) => Some(b@) == old(self.view)@.last_bid(*id),
                None => old(self.view)@.last_bid(*id) is None,
            },
    {
        match self.lot(id) {
            Some(_lot) => self.view.bids().last(id),
            None => None,
        }
    }

    /// Stores a fresh wallet for `key`: the given balance, nothing frozen.
    pub fn create_wallet(&mut self, key: &PublicKey, name: &str, balance: u64)
        ensures
            final(self).view@ == old(self).view@.create_wallet(*key, name@, balance as nat),
            *final(final(self).view) == *final(old(self).view),
    {
        let wallet = Wallet::new(key, name, balance, 0);
        self.wallets_mut().put(wallet);
    }

    /// Stores a lot under the identifier `hash`.
    pub fn create_lot(&mut self, owner: &PublicKey, name: &str, min_bid: u64, hash: &crypto::Hash)
        ensures
            final(self).view@ == old(self).view@.create_lot(
                *owner,
                name@,
                min_bid as nat,
                *hash,
            ),
            *final(final(self).view) == *final(old(self).view),
    {
        let lot = Lot::new(owner, name, min_bid, hash);
        self.lots_mut().put(lot);
    }

    /// Places a bid of `amount` by `owner` on `lot`, for the transaction
    /// `tx_hash`.
    ///
    /// The bid must exceed the active bid of the lot. The escrow of the active
    /// bid then goes back to its bidder, and `amount` is frozen in the wallet
    /// of `owner`. Where that wallet is missing or its balance is too low the
    /// bid fails, and the release stays written in the view: whoever runs the
    /// bid drops the view on failure.
    pub fn place_bid(
        &mut self,
        owner: &PublicKey,
        lot: &crypto::Hash,
        amount: u64,
        tx_hash: &crypto::Hash,
    ) -> (result: Result<(), ExecutionError>)
        ensures
            reports(result, old(self).view@.place_bid_error(*owner, *lot, amount as nat)),
            final(self).view@ == old(self).view@.place_bid(
                *owner,
                *lot,
                amount as nat,
                *tx_hash,
            ),
            *final(final(self).view) == *final(old(self).view),
    {
        match self.last_bid(lot) {
            Some(bid) => {
                if amount <= bid.amount() {
                    return Err(ExecutionError::from(Error::BidTooLow));
                }
                match self.wallet(bid.owner()) {
                    Some(wallet) => {
                        self.wallets_mut().put(wallet.release(bid.amount()));
                    },
                    None => {},
                }
            },
            None => {},
        }
        let wallet = match self.wallet(owner) {
            Some(val) => match val.freeze(amount) {
                Ok(frozen) => frozen,
                Err(error) => {
                    return Err(ExecutionError::from(error));
                },
            },
            None => {
                return Err(ExecutionError::from(Error::InsufficientCurrencyAmount));
            },
        };
        let bid = Bid::new(owner, amount, tx_hash);
        self.bid_history_mut(lot).push(bid);
        self.wallets_mut().put(wallet);
        Ok(())
    }
}

} // verus!
