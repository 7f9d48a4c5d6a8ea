//! Transactions of the auction and the failures they can end in.

use crate::crypto;
use crate::crypto::PublicKey;
use crate::invariants::{lemma_apply_conserves, lemma_apply_keeps_sound};
use crate::keys::{first_of, is_first};
use crate::model::{lot_ids, TransactionModel};
use crate::schema::Schema;
use crate::storage::{Database, Fork};
use vstd::prelude::*;

verus! {

/// Why a transaction was turned down.
#[derive(Clone, Copy, Debug, PartialEq, Eq, Structural)]
pub enum Error {
    /// A wallet is already stored for the key.
    WalletAlreadyExists,
    /// No lot has the identifier.
    LotNotFound,
    /// The bid is below the lot's minimum, or does not exceed the active bid.
    BidTooLow,
    /// The bidder's balance does not cover the bid, or the bidder has no wallet.
    InsufficientCurrencyAmount,
    /// The owner named by the transaction has no wallet.
    WalletNotFound,
    /// The bidder is the owner of the lot.
    BiddingNotAllowedOnOwnLot,
}

impl Error {
    /// The stable numeric code of the failure.
    pub open spec fn code_spec(self) -> u8 {
        match self {
            Error::WalletAlreadyExists => 0,
            Error::LotNotFound => 1,
            Error::BidTooLow => 2,
            Error::InsufficientCurrencyAmount => 3,
            Error::WalletNotFound => 4,
            Error::BiddingNotAllowedOnOwnLot => 5,
        }
    }

    /// The description of the failure, for people.
    pub open spec fn description_spec(self) -> Seq<char> {
        match self {
            Error::WalletAlreadyExists => "Wallet already exists"@,
            Error::LotNotFound => "Lot does not exist"@,
            Error::BidTooLow => "Bid below current minimum"@,
            Error::InsufficientCurrencyAmount => "Currency amount insufficient for bid placement"@,
            Error::WalletNotFound => "Wallet does not exist"@,
            Error::BiddingNotAllowedOnOwnLot => "Bidding not allowed on one's own lot"@,
        }
    }

    /// The stable numeric code of the failure.
    #[verifier::when_used_as_spec(code_spec)]
    pub fn code(self) -> (code: u8)
        ensures
            code == self.code_spec(),
    {
        match self {
            Error::WalletAlreadyExists => 0,
            Error::LotNotFound => 1,
            Error::BidTooLow => 2,
            Error::InsufficientCurrencyAmount => 3,
            Error::WalletNotFound => 4,
            Error::BiddingNotAllowedOnOwnLot => 5,
        }
    }

    /// The description of the failure, for people.
    pub fn description(self) -> (text: String)
        ensures
            text@ == self.description_spec(),
    {
        match self {
            Error::WalletAlreadyExists => "Wallet already exists".to_owned(),
            Error::LotNotFound => "Lot does not exist".to_owned(),
            Error::BidTooLow => "Bid below current minimum".to_owned(),
            Error::InsufficientCurrencyAmount => {
                "Currency amount insufficient for bid placement".to_owned()
            },
            Error::WalletNotFound => "Wallet does not exist".to_owned(),
            Error::BiddingNotAllowedOnOwnLot => "Bidding not allowed on one's own lot".to_owned(),
        }
    }
}

/// A failed execution as the host records it: a code and an optional
/// description.
#[derive(Debug)]
pub struct ExecutionError {
    code: u8,
    description: Option<String>,
}

/// A failed execution as a value.
pub struct ExecutionErrorModel {
    pub code: u8,
    pub description: Option<Seq<char>>,
}

impl View for ExecutionError {
    type V = ExecutionErrorModel;

    closed spec fn view(&self) -> ExecutionErrorModel {
        ExecutionErrorModel {
            code: self.code,
            description: match self.description {
                Some(text) => Some(text@),
                None => None,
            },
        }
    }
}

/// What the host records for a failure of the auction: its code and its
/// description.
pub open spec fn execution_error_of(error: Error) -> ExecutionErrorModel {
    ExecutionErrorModel { code: error.code_spec(), description: Some(error.description_spec()) }
}

impl ExecutionError {
    /// A failure with a code and no description.
    pub fn new(code: u8) -> (e: Self)
        ensures
            e@ == (ExecutionErrorModel { code, description: None }),
    {
        ExecutionError { code, description: None }
    }

    /// A failure with a code and a description.
    pub fn with_description(code: u8, description: String) -> (e: Self)
        ensures
            e@ == (ExecutionErrorModel { code, description: Some(description@) }),
    {
        ExecutionError { code, description: Some(description) }
    }

    /// The code of the failure.
    pub fn code(&self) -> (code: u8)
        ensures
            code == self@.code,
    {
        self.code
    }

    /// The description of the failure, if it has one.
    pub fn description(&self) -> (text: Option<&str>)
        ensures
            match text {
                Some(t) => self@.description == Some(t@),
                None => self@.description is None,
            },
    {
        match &self.description {
            Some(text) => Some(text.as_str()),
            None => None,
        }
    }
}

/// What the host records for a failure of the auction.
impl From<Error> for ExecutionError {
    fn from(value: Error) -> (e: ExecutionError)
        ensures
            e@ == execution_error_of(value),
    {
        ExecutionError::with_description(value.code(), value.description())
    }
}

/// The record holds text, of which a specification can name the characters
/// but not the value: what the conversion gives is stated by `from` itself,
/// over the view.
impl vstd::std_specs::convert::FromSpecImpl<Error> for ExecutionError {
    open spec fn obeys_from_spec() -> bool {
        false
    }

    open spec fn from_spec(v: Error) -> Self {
        arbitrary()
    }
}

/// Whether `result` reports `error`: success where there is none, and else
/// the failure that the host records for it.
pub open spec fn reports(result: Result<(), ExecutionError>, error: Option<Error>) -> bool {
    match result {
        Ok(_) => error is None,
        Err(e) => error is Some && e@ == execution_error_of(error->0),
    }
}

/// The transaction that creates a wallet.
#[derive(Debug)]
pub struct CreateWallet {
    pub_key: PublicKey,
    name: String,
    balance: u64,
    hash: crypto::Hash,
}

impl View for CreateWallet {
    type V = TransactionModel;

    closed spec fn view(&self) -> TransactionModel {
        TransactionModel::CreateWallet {
            pub_key: self.pub_key,
            name: self.name@,
            balance: self.balance as nat,
            hash: self.hash,
        }
    }
}

impl Clone for CreateWallet {
    fn clone(&self) -> (copy: Self)
        ensures
            copy@ == self@,
    {
        CreateWallet {
            pub_key: self.pub_key,
            name: self.name.clone(),
            balance: self.balance,
            hash: self.hash,
        }
    }
}

impl CreateWallet {
    /// The transaction `hash` that creates a wallet for `pub_key`.
    pub fn new(pub_key: &PublicKey, name: &str, balance: u64, hash: &crypto::Hash) -> (tx: Self)
        ensures
            tx@ == (TransactionModel::CreateWallet {
                pub_key: *pub_key,
                name: name@,
                balance: balance as nat,
                hash: *hash,
            }),
    {
        CreateWallet { pub_key: *pub_key, name: name.to_owned(), balance, hash: *hash }
    }

    /// The key of the new wallet.
    pub fn pub_key(&self) -> (pub_key: &PublicKey)
        ensures
            *pub_key == self@->CreateWallet_pub_key,
    {
        &self.pub_key
    }

    /// The name of the new wallet.
    pub fn name(&self) -> (name: &str)
        ensures
            name@ == self@->CreateWallet_name,
    {
        self.name.as_str()
    }

    /// The balance that the new wallet starts with.
    pub fn balance(&self) -> (balance: u64)
        ensures
            balance == self@->CreateWallet_balance,
    {
        self.balance
    }

    /// The identifier of the transaction.
    pub fn hash(&self) -> (hash: crypto::Hash)
        ensures
            hash == self@.hash(),
    {
        self.hash
    }

    /// The participant whose signature the transaction must carry: the owner
    /// of the new wallet.
    pub fn signer(&self) -> (signer: &PublicKey)
        ensures
            *signer == self@.signer(),
    {
        &self.pub_key
    }

    /// Creates the wallet in `fork`, unless the key already has one.
    pub fn execute(&self, fork: &mut Fork) -> (result: Result<(), ExecutionError>)
        ensures
            self@ is CreateWallet,
            reports(result, old(fork)@.error_of(self@)),
            final(fork)@ == old(fork)@.executed(self@),
    {
        let mut schema = Schema::new(fork);
        let pub_key = &self.pub_key;
        if schema.wallet(pub_key).is_none() {
            schema.create_wallet(pub_key, self.name.as_str(), self.balance);
            Ok(())
        } else {
            Err(ExecutionError::from(Error::WalletAlreadyExists))
        }
    }
}

/// The transaction that puts up a lot.
#[derive(Debug)]
pub struct CreateLot {
    owner: PublicKey,
    name: String,
    min_bid: u64,
    hash: crypto::Hash,
}

impl View for CreateLot {
    type V = TransactionModel;

    closed spec fn view(&self) -> TransactionModel {
        TransactionModel::CreateLot {
            owner: self.owner,
            name: self.name@,
            min_bid: self.min_bid as nat,
            hash: self.hash,
        }
    }
}

impl Clone for CreateLot {
    fn clone(&self) -> (copy: Self)
        ensures
            copy@ == self@,
    {
        CreateLot {
            owner: self.owner,
            name: self.name.clone(),
            min_bid: self.min_bid,
            hash: self.hash,
        }
    }
}

impl CreateLot {
    /// The transaction `hash` that puts up a lot of `owner`.
    pub fn new(owner: &PublicKey, name: &str, min_bid: u64, hash: &crypto::Hash) -> (tx: Self)
        ensures
            tx@ == (TransactionModel::CreateLot {
                owner: *owner,
                name: name@,
                min_bid: min_bid as nat,
                hash: *hash,
            }),
    {
        CreateLot { owner: *owner, name: name.to_owned(), min_bid, hash: *hash }
    }

    /// The key of the lot's owner.
    pub fn owner(&self) -> (owner: &PublicKey)
        ensures
            *owner == self@->CreateLot_owner,
    {
        &self.owner
    }

    /// The name of the lot.
    pub fn name(&self) -> (name: &str)
        ensures
            name@ == self@->CreateLot_name,
    {
        self.name.as_str()
    }

    /// The least amount that a bid on the lot may have.
    pub fn min_bid(&self) -> (min_bid: u64)
        ensures
            min_bid == self@->CreateLot_min_bid,
    {
        self.min_bid
    }

    /// The identifier of the transaction, which becomes that of the lot.
    pub fn hash(&self) -> (hash: crypto::Hash)
        ensures
            hash == self@.hash(),
    {
        self.hash
    }

    /// The participant whose signature the transaction must carry: the owner
    /// of the lot.
    pub fn signer(&self) -> (signer: &PublicKey)
        ensures
            *signer == self@.signer(),
    {
        &self.owner
    }

    /// Stores the lot in `fork` under the transaction's identifier, if the
    /// owner has a wallet.
    pub fn execute(&self, fork: &mut Fork) -> (result: Result<(), ExecutionError>)
        ensures
            self@ is CreateLot,
            reports(result, old(fork)@.error_of(self@)),
            final(fork)@ == old(fork)@.executed(self@),
    {
        let mut schema = Schema::new(fork);
        let owner = &self.owner;
        if schema.wallet(owner).is_none() {
            Err(ExecutionError::from(Error::WalletNotFound))
        } else {
            schema.create_lot(owner, self.name.as_str(), self.min_bid, &self.hash);
            Ok(())
        }
    }
}

/// The transaction that places a bid.
#[derive(Debug)]
pub struct PlaceBid {
    owner: PublicKey,
    lot: crypto::Hash,
    amount: u64,
    hash: crypto::Hash,
}

impl View for PlaceBid {
    type V = TransactionModel;

    closed spec fn view(&self) -> TransactionModel {
        TransactionModel::PlaceBid {
            owner: self.owner,
            lot: self.lot,
            amount: self.amount as nat,
            hash: self.hash,
        }
    }
}

impl Clone for PlaceBid {
    fn clone(&self) -> (copy: Self)
        ensures
            copy@ == self@,
    {
        PlaceBid { owner: self.owner, lot: self.lot, amount: self.amount, hash: self.hash }
    }
}

impl PlaceBid {
    /// The transaction `hash` that bids `amount` for `owner` on `lot`.
    pub fn new(owner: &PublicKey, lot: &crypto::Hash, amount: u64, hash: &crypto::Hash) -> (tx:
        Self)
        ensures
            tx@ == (TransactionModel::PlaceBid {
                owner: *owner,
                lot: *lot,
                amount: amount as nat,
                hash: *hash,
            }),
    {
        PlaceBid { owner: *owner, lot: *lot, amount, hash: *hash }
    }

    /// The key of the bidder.
    pub fn owner(&self) -> (owner: &PublicKey)
        ensures
            *owner == self@->PlaceBid_owner,
    {
        &self.owner
    }

    /// The identifier of the lot that is bid on.
    pub fn lot(&self) -> (lot: &crypto::Hash)
        ensures
            *lot == self@->PlaceBid_lot,
    {
        &self.lot
    }

    /// The amount that is bid.
    pub fn amount(&self) -> (amount: u64)
        ensures
            amount == self@->PlaceBid_amount,
    {
        self.amount
    }

    /// The identifier of the transaction.
    pub fn hash(&self) -> (hash: crypto::Hash)
        ensures
            hash == self@.hash(),
    {
        self.hash
    }

    /// The participant whose signature the transaction must carry: the
    /// bidder.
    pub fn signer(&self) -> (signer: &PublicKey)
        ensures
            *signer == self@.signer(),
    {
        &self.owner
    }

    /// Places the bid in `fork`.
    ///
    /// The lot must exist, the bid must meet the lot's minimum, and the
    /// bidder must not be the lot's owner; the rest is `Schema::place_bid`.
    pub fn execute(&self, fork: &mut Fork) -> (result: Result<(), ExecutionError>)
        ensures
            self@ is PlaceBid,
            reports(result, old(fork)@.error_of(self@)),
            final(fork)@ == old(fork)@.executed(self@),
    {
        let mut schema = Schema::new(fork);
        let owner = &self.owner;
        let lot = match schema.lot(&self.lot) {
            Some(val) => val,
            None => {
                return Err(ExecutionError::from(Error::LotNotFound));
            },
        };
        proof {
            let ids = lot_ids(old(fork)@.lots);
            assert(is_first(ids, self.lot, first_of(ids, self.lot)));
        }
        if lot.min_bid() > self.amount {
            return Err(ExecutionError::from(Error::BidTooLow));
        }
        if *lot.owner() == *owner {
            Err(ExecutionError::from(Error::BiddingNotAllowedOnOwnLot))
        } else {
            schema.place_bid(owner, lot.tx_hash(), self.amount, &self.hash)
        }
    }
}

/// The transactions of the auction.
#[derive(Debug)]
pub enum AuctionTransactions {
    /// Create a wallet.
    CreateWallet(CreateWallet),
    /// Put up a lot.
    CreateLot(CreateLot),
    /// Place a bid.
    PlaceBid(PlaceBid),
}

impl View for AuctionTransactions {
    type V = TransactionModel;

    open spec fn view(&self) -> TransactionModel {
        match self {
            AuctionTransactions::CreateWallet(tx) => tx@,
            AuctionTransactions::CreateLot(tx) => tx@,
            AuctionTransactions::PlaceBid(tx) => tx@,
        }
    }
}

impl Clone for AuctionTransactions {
    fn clone(&self) -> (copy: Self)
        ensures
            copy@ == self@,
    {
        match self {
            AuctionTransactions::CreateWallet(tx) => AuctionTransactions::CreateWallet(tx.clone()),
            AuctionTransactions::CreateLot(tx) => AuctionTransactions::CreateLot(tx.clone()),
            AuctionTransactions::PlaceBid(tx) => AuctionTransactions::PlaceBid(tx.clone()),
        }
    }
}

impl AuctionTransactions {
    /// The identifier of the transaction.
    pub fn hash(&self) -> (hash: crypto::Hash)
        ensures
            hash == self@.hash(),
    {
        match self {
            AuctionTransactions::CreateWallet(tx) => tx.hash(),
            AuctionTransactions::CreateLot(tx) => tx.hash(),
            AuctionTransactions::PlaceBid(tx) => tx.hash(),
        }
    }

    /// The participant whose signature the transaction must carry.
    pub fn signer(&self) -> (signer: &PublicKey)
        ensures
            *signer == self@.signer(),
    {
        match self {
            AuctionTransactions::CreateWallet(tx) => tx.signer(),
            AuctionTransactions::CreateLot(tx) => tx.signer(),
            AuctionTransactions::PlaceBid(tx) => tx.signer(),
        }
    }

    /// Executes the transaction in `fork`. After a failure the fork may hold
    /// a part of the transaction's writes and is to be dropped.
    pub fn execute(&self, fork: &mut Fork) -> (result: Result<(), ExecutionError>)
        ensures
            reports(result, old(fork)@.error_of(self@)),
            final(fork)@ == old(fork)@.executed(self@),
    {
        match self {
            AuctionTransactions::CreateWallet(tx) => tx.execute(fork),
            AuctionTransactions::CreateLot(tx) => tx.execute(fork),
            AuctionTransactions::PlaceBid(tx) => tx.execute(fork),
        }
    }
}

/// How the handling of a delivered transaction ended.
#[derive(Debug)]
pub enum TransactionStatus {
    /// The signature did not verify: the transaction was not executed.
    Rejected,
    /// The transaction was executed and all of its writes were committed.
    Success,
    /// The transaction failed and none of its writes was committed.
    Error(ExecutionError),
}

/// Handles one delivered transaction as one atomic step.
///
/// `verified` is the host's answer to whether the transaction carries the
/// signature of its signer. A transaction that does not is not executed. One
/// that does runs in a fork of the store: the fork is merged where the
/// transaction succeeds, and dropped with all its writes where it fails.
///
/// Whatever the transaction, every wallet of the store is still there
/// afterwards and owns in all what it owned before. A store that is sound
/// stays sound, as long as the host delivers no transaction twice.
pub fn process_transaction(
    database: &mut Database,
    transaction: &AuctionTransactions,
    verified: bool,
) -> (status: TransactionStatus)
    ensures
        final(database)@ == if verified {
            old(database)@.apply(transaction@)
        } else {
            old(database)@
        },
        match status {
            TransactionStatus::Rejected => !verified,
            TransactionStatus::Success => verified && old(database)@.error_of(transaction@)
                is None,
            TransactionStatus::Error(e) => verified && reports(
                Err(e),
                old(database)@.error_of(transaction@),
            ),
        },
        forall|key: PublicKey| #[trigger]
            old(database)@.has_wallet(key) ==> final(database)@.has_wallet(key)
                && final(database)@.wallets[key].total() == old(database)@.wallets[key].total(),
        old(database)@.sound() && old(database)@.admits(transaction@) ==> final(database)@.sound(),
{
    proof {
        if database@.sound() && database@.admits(transaction@) {
            lemma_apply_keeps_sound(database@, transaction@);
        }
        database.lemma_wallets_keyed();
        assert forall|key: PublicKey| #[trigger] database@.has_wallet(key) implies database@.apply(
            transaction@,
        ).has_wallet(key) && database@.apply(transaction@).wallets[key].total()
            == database@.wallets[key].total() by {
            lemma_apply_conserves(database@, transaction@, key);
        }
    }
    if !verified {
        return TransactionStatus::Rejected;
    }
    let mut fork = database.fork();
    match transaction.execute(&mut fork) {
        Ok(()) => {
            database.merge(fork);
            TransactionStatus::Success
        },
        Err(error) => TransactionStatus::Error(error),
    }
}

} // verus!
