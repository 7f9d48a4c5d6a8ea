//! Transactions run against a store, one block per transaction.

use exonum_auction::crypto;
use exonum_auction::crypto::PublicKey;
use exonum_auction::schema::{Bid, Lot, Schema, Wallet};
use exonum_auction::storage::Database;
use exonum_auction::tx::{
    process_transaction, AuctionTransactions, CreateLot, CreateWallet, PlaceBid,
};

const PHOBOS: &str = "Phobos";
const DEIMOS: &str = "Deimos";
const MIN_BID: u64 = 10;
const BALANCE: u64 = 100;

/// Hands out the keys and transaction identifiers of a test: each call gives
/// a value that no earlier call gave.
struct Ids {
    next: u8,
}

impl Ids {
    fn new() -> Ids {
        Ids { next: 1 }
    }

    fn key(&mut self) -> PublicKey {
        self.next += 1;
        PublicKey::new([self.next; 32])
    }

    fn hash(&mut self) -> crypto::Hash {
        self.next += 1;
        crypto::Hash::new([self.next; 32])
    }
}

/// The SHA-256 digest of the bytes 1, 2, 3.
fn hash_of_123() -> crypto::Hash {
    crypto::Hash::new([
        3, 144, 88, 198, 242, 192, 203, 73, 44, 83, 59, 10, 77, 20, 239, 119, 204, 15, 120, 171,
        204, 206, 213, 40, 125, 132, 161, 162, 1, 28, 251, 129,
    ])
}

#[test]
fn test_tx_create_wallet() {
    let mut database = Database::new();
    let mut ids = Ids::new();
    let tx = create_wallet(&mut database, &mut ids, PHOBOS, BALANCE);

    // Check that the user indeed is persisted by the service
    let wallet = get_wallet(&database, tx.pub_key());
    assert_eq!(wallet.pub_key(), tx.pub_key());
    assert_eq!(wallet.name(), PHOBOS);
    assert_eq!(wallet.balance(), BALANCE);
}

#[test]
fn test_tx_create_lot() {
    let mut database = Database::new();
    let mut ids = Ids::new();
    let lot_name = format!("{}'s test lot", PHOBOS);
    let (ltx, wtx) = create_lot(&mut database, &mut ids, lot_name.as_str(), MIN_BID);

    // Check that the user indeed is persisted by the service
    let lot = get_lot(&database, &ltx.hash());
    assert_eq!(lot.owner(), wtx.pub_key());
    assert_eq!(lot.name(), lot_name.as_str());
    assert_eq!(lot.min_bid(), MIN_BID);
}

#[test]
fn test_tx_place_bids() {
    let mut database = Database::new();
    let mut ids = Ids::new();
    let (ltx, _) = create_lot(
        &mut database,
        &mut ids,
        format!("{}'s test lot", PHOBOS).as_str(),
        MIN_BID,
    );

    let tx_bidder = create_wallet(&mut database, &mut ids, DEIMOS, BALANCE);

    for n in 1..=2 {
        let amount = MIN_BID + n - 1;
        let _btx = place_bid(&mut database, &mut ids, tx_bidder.pub_key(), &ltx.hash(), amount);
        let bid = last_bid(&database, &ltx.hash());
        assert_eq!(bid_history_size(&database, &ltx.hash()), n);
        assert_eq!(bid.owner(), tx_bidder.pub_key());
        assert_eq!(bid.amount(), amount);

        let bidder_wallet = get_wallet(&database, tx_bidder.pub_key());
        assert_eq!(bidder_wallet.balance(), BALANCE - amount);
    }
}

#[test]
fn test_tx_create_existing_wallet() {
    let mut database = Database::new();
    let mut ids = Ids::new();
    let tx = create_wallet(&mut database, &mut ids, PHOBOS, BALANCE);
    let again = CreateWallet::new(
        tx.pub_key(),
        format!("{}'s test lot", PHOBOS).as_str(),
        BALANCE + 20,
        &ids.hash(),
    );
    process_transaction(&mut database, &AuctionTransactions::CreateWallet(again), true);

    // Check that the user indeed is persisted by the service
    let wallet = get_wallet(&database, tx.pub_key());
    assert_eq!(wallet.name(), PHOBOS);
    assert_eq!(wallet.balance(), BALANCE);
}

#[test]
fn test_tx_create_lot_for_nonexistent_wallet() {
    let mut database = Database::new();
    let mut ids = Ids::new();
    let pubkey = ids.key();
    let tx = CreateLot::new(&pubkey, "test", 0, &ids.hash());
    process_transaction(&mut database, &AuctionTransactions::CreateLot(tx), true);

    assert_eq!(lots_total(&database), 0);
}

#[test]
fn test_tx_place_bid_on_nonexistent_lot() {
    let mut database = Database::new();
    let mut ids = Ids::new();
    let tx = create_wallet(&mut database, &mut ids, PHOBOS, BALANCE);
    let hash = hash_of_123();
    let bid = PlaceBid::new(tx.pub_key(), &hash, 10, &ids.hash());
    process_transaction(&mut database, &AuctionTransactions::PlaceBid(bid), true);

    assert_eq!(bid_history_size(&database, &hash), 0);
}

#[test]
fn test_tx_place_bid_on_own_lot() {
    let mut database = Database::new();
    let mut ids = Ids::new();
    let (ltx, wtx) = create_lot(
        &mut database,
        &mut ids,
        format!("{}'s test lot", PHOBOS).as_str(),
        MIN_BID,
    );

    let _btx = place_bid(&mut database, &mut ids, wtx.pub_key(), &ltx.hash(), MIN_BID);
    assert_eq!(bid_history_size(&database, &ltx.hash()), 0);
}

#[test]
fn test_tx_place_bid_below_minimum() {
    let mut database = Database::new();
    let mut ids = Ids::new();
    let (ltx, _wtx) = create_lot(
        &mut database,
        &mut ids,
        format!("{}'s test lot", PHOBOS).as_str(),
        MIN_BID,
    );
    let tx_bidder = create_wallet(&mut database, &mut ids, DEIMOS, BALANCE);

    let _btx = place_bid(&mut database, &mut ids, tx_bidder.pub_key(), &ltx.hash(), MIN_BID - 1);
    assert_eq!(bid_history_size(&database, &ltx.hash()), 0);
}

#[test]
fn test_tx_place_bid_below_current_highest_bid() {
    let mut database = Database::new();
    let mut ids = Ids::new();
    let (ltx, _wtx) = create_lot(
        &mut database,
        &mut ids,
        format!("{}'s test lot", PHOBOS).as_str(),
        MIN_BID,
    );
    let tx_bidder = create_wallet(&mut database, &mut ids, DEIMOS, BALANCE);

    for n in 1..=2 {
        let _btx = place_bid(
            &mut database,
            &mut ids,
            tx_bidder.pub_key(),
            &ltx.hash(),
            MIN_BID + n - 1,
        );
    }

    let _btx = place_bid(&mut database, &mut ids, tx_bidder.pub_key(), &ltx.hash(), MIN_BID - 1);
    assert_eq!(bid_history_size(&database, &ltx.hash()), 2);
}

#[test]
fn test_tx_place_bid_above_balance() {
    let mut database = Database::new();
    let mut ids = Ids::new();
    let (ltx, _) = create_lot(
        &mut database,
        &mut ids,
        format!("{}'s test lot", PHOBOS).as_str(),
        MIN_BID,
    );
    let tx_bidder = create_wallet(&mut database, &mut ids, DEIMOS, BALANCE);

    let _btx = place_bid(&mut database, &mut ids, tx_bidder.pub_key(), &ltx.hash(), BALANCE + 1);
    assert_eq!(bid_history_size(&database, &ltx.hash()), 0);

    let bidder_wallet = get_wallet(&database, tx_bidder.pub_key());
    assert_eq!(bidder_wallet.balance(), BALANCE);
}

/// Creates a wallet with the given name and a fresh key.
fn create_wallet(database: &mut Database, ids: &mut Ids, name: &str, balance: u64) -> CreateWallet {
    let pubkey = ids.key();
    let hash = ids.hash();
    let tx = CreateWallet::new(&pubkey, name, balance, &hash);
    process_transaction(database, &AuctionTransactions::CreateWallet(tx.clone()), true);
    tx
}

/// Returns the wallet identified by the given public key.
fn get_wallet(database: &Database, pubkey: &PublicKey) -> Wallet {
    Schema::new(&database.snapshot())
        .wallet(pubkey)
        .expect("No wallet persisted")
}

fn create_lot(
    database: &mut Database,
    ids: &mut Ids,
    name: &str,
    min_bid: u64,
) -> (CreateLot, CreateWallet) {
    let tx = create_wallet(database, ids, PHOBOS, BALANCE);

    let hash = ids.hash();
    let ltx = CreateLot::new(tx.pub_key(), name, min_bid, &hash);
    process_transaction(database, &AuctionTransactions::CreateLot(ltx.clone()), true);
    (ltx, tx)
}

fn get_lot(database: &Database, id: &crypto::Hash) -> Lot {
    Schema::new(&database.snapshot())
        .lot(id)
        .expect("No lot persisted")
}

fn place_bid(
    database: &mut Database,
    ids: &mut Ids,
    bidder: &PublicKey,
    lot_id: &crypto::Hash,
    bid: u64,
) -> PlaceBid {
    let hash = ids.hash();
    let tx = PlaceBid::new(bidder, lot_id, bid, &hash);
    process_transaction(database, &AuctionTransactions::PlaceBid(tx.clone()), true);
    tx
}

fn last_bid(database: &Database, lot_id: &crypto::Hash) -> Bid {
    Schema::new(&database.snapshot())
        .last_bid(lot_id)
        .expect("No bid history for lot")
}

fn bid_history_size(database: &Database, lot_id: &crypto::Hash) -> u64 {
    Schema::new(&database.snapshot()).bid_history(lot_id).len() as u64
}

fn lots_total(database: &Database) -> usize {
    let s = database.snapshot();
    let schema = Schema::new(&s);
    let lots = schema.lots();
    let c = lots.len();
    c
}
