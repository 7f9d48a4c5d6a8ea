//! The mathematical model of the ledger.
//!
//! A ledger is three containers: the wallets by public key, the lots in the
//! order of their creation, and for each lot the sequence of bids placed on
//! it. Everything the executable code does is stated as a function on this
//! model, so the rules of the auction can be read here without the storage
//! behind them.

use crate::crypto;
use crate::crypto::PublicKey;
use crate::keys::{first_of, occurs};
use crate::tx::Error;
use vstd::prelude::*;

verus! {

/// A wallet as a value: its key, its name and the two amounts it holds.
pub struct WalletModel {
    pub pub_key: PublicKey,
    pub name: Seq<char>,
    /// Funds that can be spent.
    pub balance: nat,
    /// Funds escrowed in active bids.
    pub frozen: nat,
}

impl WalletModel {
    /// Everything the wallet owns, spendable or escrowed.
    pub open spec fn total(self) -> nat {
        self.balance + self.frozen
    }

    /// Whether `amount` can be moved from the balance into escrow.
    pub open spec fn can_freeze(self, amount: nat) -> bool {
        self.balance >= amount
    }

    /// The wallet after `amount` moved from the balance into escrow.
    pub open spec fn freeze(self, amount: nat) -> WalletModel
        recommends
            self.can_freeze(amount),
    {
        WalletModel {
            balance: (self.balance - amount) as nat,
            frozen: self.frozen + amount,
            ..self
        }
    }

    /// What a release of `amount` actually moves: never more than is frozen.
    pub open spec fn releasable(self, amount: nat) -> nat {
        if self.frozen <= amount {
            self.frozen
        } else {
            amount
        }
    }

    /// The wallet after up to `amount` moved from escrow back to the balance.
    pub open spec fn release(self, amount: nat) -> WalletModel {
        WalletModel {
            balance: self.balance + self.releasable(amount),
            frozen: (self.frozen - self.releasable(amount)) as nat,
            ..self
        }
    }
}

/// A lot as a value.
pub struct LotModel {
    pub owner: PublicKey,
    pub name: Seq<char>,
    pub min_bid: nat,
    /// The transaction that created the lot; it is the lot's identifier.
    pub tx_hash: crypto::Hash,
}

/// A bid as a value.
pub struct BidModel {
    pub owner: PublicKey,
    pub amount: nat,
    /// The transaction that placed the bid.
    pub tx_hash: crypto::Hash,
}

/// The identifiers of `lots`, in their order.
pub open spec fn lot_ids(lots: Seq<LotModel>) -> Seq<crypto::Hash> {
    Seq::new(lots.len(), |i: int| lots[i].tx_hash)
}

/// The first of `lots` with identifier `id`, if there is one.
pub open spec fn find_lot(lots: Seq<LotModel>, id: crypto::Hash) -> Option<LotModel> {
    if occurs(lot_ids(lots), id) {
        Some(lots[first_of(lot_ids(lots), id)])
    } else {
        None
    }
}

/// `lots` with `lot` stored under its identifier: in place of the first lot
/// that had it, or else as the newest lot.
pub open spec fn store_lot(lots: Seq<LotModel>, lot: LotModel) -> Seq<LotModel> {
    if occurs(lot_ids(lots), lot.tx_hash) {
        lots.update(first_of(lot_ids(lots), lot.tx_hash), lot)
    } else {
        lots.push(lot)
    }
}

/// The bids that `bids` holds under `id`, oldest first; empty where it holds
/// none.
pub open spec fn history_of(bids: Map<crypto::Hash, Seq<BidModel>>, id: crypto::Hash) -> Seq<
    BidModel,
> {
    if bids.contains_key(id) {
        bids[id]
    } else {
        Seq::empty()
    }
}

/// `bids` with `bid` appended to the history of `id`.
pub open spec fn append_bid(
    bids: Map<crypto::Hash, Seq<BidModel>>,
    id: crypto::Hash,
    bid: BidModel,
) -> Map<crypto::Hash, Seq<BidModel>> {
    bids.insert(id, history_of(bids, id).push(bid))
}

/// The state of the ledger.
#[verifier::ext_equal]
pub struct LedgerModel {
    /// Wallets by the key of their owner.
    pub wallets: Map<PublicKey, WalletModel>,
    /// Lots in the order in which they were created.
    pub lots: Seq<LotModel>,
    /// Bids placed on a lot, oldest first, by the lot's identifier.
    pub bids: Map<crypto::Hash, Seq<BidModel>>,
}

impl LedgerModel {
    /// The ledger that holds nothing.
    pub open spec fn empty() -> LedgerModel {
        LedgerModel { wallets: Map::empty(), lots: Seq::empty(), bids: Map::empty() }
    }

    /// Every wallet is stored under its own key.
    pub open spec fn wallets_keyed(self) -> bool {
        forall|key: PublicKey| #[trigger]
            self.wallets.contains_key(key) ==> self.wallets[key].pub_key == key
    }

    /// No two lots share an identifier.
    pub open spec fn lots_distinct(self) -> bool {
        forall|i: int, j: int|
            0 <= i < j < self.lots.len() ==> (#[trigger] self.lots[i]).tx_hash != (
            #[trigger] self.lots[j]).tx_hash
    }

    /// Structural validity: a wallet is stored under its own key and no two
    /// lots share an identifier.
    pub open spec fn wf(self) -> bool {
        self.wallets_keyed() && self.lots_distinct()
    }

    /// Whether a wallet is stored for `key`.
    pub open spec fn has_wallet(self, key: PublicKey) -> bool {
        self.wallets.contains_key(key)
    }

    /// The wallet stored for `key`, if there is one.
    pub open spec fn wallet(self, key: PublicKey) -> Option<WalletModel> {
        if self.wallets.contains_key(key) {
            Some(self.wallets[key])
        } else {
            None
        }
    }

    /// Whether a lot with identifier `id` exists.
    pub open spec fn has_lot(self, id: crypto::Hash) -> bool {
        occurs(lot_ids(self.lots), id)
    }

    /// The lot with identifier `id`, if there is one.
    pub open spec fn lot(self, id: crypto::Hash) -> Option<LotModel> {
        find_lot(self.lots, id)
    }

    /// The bids placed under identifier `id`, oldest first; empty where none
    /// was placed.
    pub open spec fn history(self, id: crypto::Hash) -> Seq<BidModel> {
        history_of(self.bids, id)
    }

    /// The active bid of lot `id`: the last of its history. A lot that does
    /// not exist has none.
    pub open spec fn last_bid(self, id: crypto::Hash) -> Option<BidModel> {
        if self.has_lot(id) && self.history(id).len() > 0 {
            Some(self.history(id).last())
        } else {
            None
        }
    }

    /// The ledger with `wallet` stored under its key, in place of any wallet
    /// that was there.
    pub open spec fn put_wallet(self, wallet: WalletModel) -> LedgerModel {
        LedgerModel { wallets: self.wallets.insert(wallet.pub_key, wallet), ..self }
    }

    /// The ledger with `lot` stored under its identifier: in place of the lot
    /// that had it, or else as the newest lot.
    pub open spec fn put_lot(self, lot: LotModel) -> LedgerModel {
        LedgerModel { lots: store_lot(self.lots, lot), ..self }
    }

    /// The ledger with `bid` appended to the history of `id`.
    pub open spec fn push_bid(self, id: crypto::Hash, bid: BidModel) -> LedgerModel {
        LedgerModel { bids: append_bid(self.bids, id, bid), ..self }
    }

    /// Storing a fresh wallet: the given balance, nothing frozen.
    pub open spec fn create_wallet(
        self,
        key: PublicKey,
        name: Seq<char>,
        balance: nat,
    ) -> LedgerModel {
        self.put_wallet(WalletModel { pub_key: key, name, balance, frozen: 0 })
    }

    /// Storing a lot under the identifier `hash`.
    pub open spec fn create_lot(
        self,
        owner: PublicKey,
        name: Seq<char>,
        min_bid: nat,
        hash: crypto::Hash,
    ) -> LedgerModel {
        self.put_lot(LotModel { owner, name, min_bid, tx_hash: hash })
    }

    /// The first half of a bid: the escrow of the active bid of `lot`, if
    /// there is one and its bidder has a wallet, goes back to that bidder.
    pub open spec fn release_active(self, lot: crypto::Hash) -> LedgerModel {
        match self.last_bid(lot) {
            Some(bid) if self.has_wallet(bid.owner) => self.put_wallet(
                self.wallets[bid.owner].release(bid.amount),
            ),
            _ => self,
        }
    }

    /// Why a bid of `amount` by `owner` on `lot` is turned down, if it is.
    ///
    /// The bid must exceed the active bid. Then the active bid's escrow is
    /// released, and the bidder, who may be the one just released, must hold
    /// a wallet whose balance covers `amount`.
    pub open spec fn place_bid_error(
        self,
        owner: PublicKey,
        lot: crypto::Hash,
        amount: nat,
    ) -> Option<Error> {
        if self.last_bid(lot) is Some && amount <= self.last_bid(lot)->0.amount {
            Some(Error::BidTooLow)
        } else if !self.release_active(lot).has_wallet(owner) || !self.release_active(
            lot,
        ).wallets[owner].can_freeze(amount) {
            Some(Error::InsufficientCurrencyAmount)
        } else {
            None
        }
    }

    /// The ledger that a bid leaves behind in the view it ran on.
    ///
    /// A bid that is too low writes nothing. One that the bidder cannot cover
    /// has already released the active bid's escrow when it fails. A bid that
    /// succeeds has also appended itself to the history and frozen its amount
    /// in the bidder's wallet.
    pub open spec fn place_bid(
        self,
        owner: PublicKey,
        lot: crypto::Hash,
        amount: nat,
        tx_hash: crypto::Hash,
    ) -> LedgerModel {
        match self.place_bid_error(owner, lot, amount) {
            Some(Error::BidTooLow) => self,
            Some(_) => self.release_active(lot),
            None => {
                let released = self.release_active(lot);
                released.push_bid(lot, BidModel { owner, amount, tx_hash }).put_wallet(
                    released.wallets[owner].freeze(amount),
                )
            },
        }
    }
}

/// A transaction as a value: what it asks for and the identifier under which
/// the host delivered it.
pub enum TransactionModel {
    /// Create a wallet for `pub_key` that starts with `balance`.
    CreateWallet { pub_key: PublicKey, name: Seq<char>, balance: nat, hash: crypto::Hash },
    /// Put up a lot of `owner` with the minimum bid `min_bid`.
    CreateLot { owner: PublicKey, name: Seq<char>, min_bid: nat, hash: crypto::Hash },
    /// Bid `amount` from the wallet of `owner` on the lot `lot`.
    PlaceBid { owner: PublicKey, lot: crypto::Hash, amount: nat, hash: crypto::Hash },
}

impl TransactionModel {
    /// The identifier of the transaction.
    pub open spec fn hash(self) -> crypto::Hash {
        match self {
            TransactionModel::CreateWallet { hash, .. } => hash,
            TransactionModel::CreateLot { hash, .. } => hash,
            TransactionModel::PlaceBid { hash, .. } => hash,
        }
    }

    /// The participant whose signature the transaction must carry.
    pub open spec fn signer(self) -> PublicKey {
        match self {
            TransactionModel::CreateWallet { pub_key, .. } => pub_key,
            TransactionModel::CreateLot { owner, .. } => owner,
            TransactionModel::PlaceBid { owner, .. } => owner,
        }
    }
}

impl LedgerModel {
    /// Why a wallet cannot be created for `pub_key`, if it cannot.
    pub open spec fn create_wallet_error(self, pub_key: PublicKey) -> Option<Error> {
        if self.has_wallet(pub_key) {
            Some(Error::WalletAlreadyExists)
        } else {
            None
        }
    }

    /// Why `owner` cannot put up a lot, if they cannot.
    pub open spec fn create_lot_error(self, owner: PublicKey) -> Option<Error> {
        if self.has_wallet(owner) {
            None
        } else {
            Some(Error::WalletNotFound)
        }
    }

    /// What the lot `lot` itself has against a bid of `amount` by `owner`, if
    /// anything: there is no such lot, the bid is below the lot's minimum, or
    /// the bidder is the lot's owner.
    pub open spec fn lot_error(self, owner: PublicKey, lot: crypto::Hash, amount: nat) -> Option<
        Error,
    > {
        match self.lot(lot) {
            None => Some(Error::LotNotFound),
            Some(found) => if found.min_bid > amount {
                Some(Error::BidTooLow)
            } else if found.owner == owner {
                Some(Error::BiddingNotAllowedOnOwnLot)
            } else {
                None
            },
        }
    }

    /// Why `owner` cannot bid `amount` on the lot `lot`, if they cannot. The
    /// checks come in this order: the lot exists, the bid meets the lot's
    /// minimum, the bidder is not the lot's owner, the bid exceeds the active
    /// bid, the bidder's balance covers the bid.
    pub open spec fn bid_error(self, owner: PublicKey, lot: crypto::Hash, amount: nat) -> Option<
        Error,
    > {
        match self.lot_error(owner, lot, amount) {
            Some(error) => Some(error),
            None => self.place_bid_error(owner, lot, amount),
        }
    }

    /// Why `tx` fails on this ledger, if it does.
    pub open spec fn error_of(self, tx: TransactionModel) -> Option<Error> {
        match tx {
            TransactionModel::CreateWallet { pub_key, .. } => self.create_wallet_error(pub_key),
            TransactionModel::CreateLot { owner, .. } => self.create_lot_error(owner),
            TransactionModel::PlaceBid { owner, lot, amount, .. } => self.bid_error(
                owner,
                lot,
                amount,
            ),
        }
    }

    /// What the execution of `tx` leaves in the view it ran on. After a
    /// failure this may hold a part of the transaction's writes.
    pub open spec fn executed(self, tx: TransactionModel) -> LedgerModel {
        match tx {
            TransactionModel::CreateWallet { pub_key, name, balance, .. } => {
                if self.create_wallet_error(pub_key) is None {
                    self.create_wallet(pub_key, name, balance)
                } else {
                    self
                }
            },
            TransactionModel::CreateLot { owner, name, min_bid, hash } => {
                if self.create_lot_error(owner) is None {
                    self.create_lot(owner, name, min_bid, hash)
                } else {
                    self
                }
            },
            TransactionModel::PlaceBid { owner, lot, amount, hash } => {
                if self.lot_error(owner, lot, amount) is None {
                    self.place_bid(owner, lot, amount, hash)
                } else {
                    self
                }
            },
        }
    }

    /// The ledger after `tx` ran as one atomic step: all of its writes where
    /// it succeeds, none of them where it fails.
    pub open spec fn apply(self, tx: TransactionModel) -> LedgerModel {
        if self.error_of(tx) is None {
            self.executed(tx)
        } else {
            self
        }
    }
}

} // verus!
