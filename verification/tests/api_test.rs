//! The service as its callers see it: transactions are posted to a node,
//! sealed into blocks, and read back through the public calls.

use std::cell::RefCell;
use std::rc::Rc;

use exonum_auction::api::{
    ApiError, BidHistory, BidHistoryQuery, PublicApi, TransactionSyncResponse, WalletQuery,
};
use exonum_auction::crypto;
use exonum_auction::crypto::PublicKey;
use exonum_auction::notifier::CommitNotifier;
use exonum_auction::schema::Wallet;
use exonum_auction::storage::Database;
use exonum_auction::tx::{
    process_transaction, AuctionTransactions, CreateLot, CreateWallet, PlaceBid,
    TransactionStatus,
};

const PHOBOS: &str = "Phobos";
const DEIMOS: &str = "Deimos";
const MIN_BID: u64 = 10;
const BALANCE: u64 = 100;

/// How many heights a blocking call may look at before it gives up.
const WAIT_LIMIT: u64 = 16;

/// What the explorer of a node says of a committed transaction.
#[derive(Debug, PartialEq)]
enum Status {
    Success,
    Error { code: u8, description: String },
}

/// A node that stands in for the host: it pools the transactions that are
/// posted to it, seals them into numbered blocks when told to, and publishes
/// each new height.
struct Node {
    database: Database,
    notifier: Rc<CommitNotifier>,
    pool: Vec<AuctionTransactions>,
    /// The identifiers of the transactions of each block; the block at
    /// height 0 is the empty genesis block.
    blocks: Vec<Vec<crypto::Hash>>,
    statuses: Vec<(crypto::Hash, Status)>,
    next_id: u8,
}

impl Node {
    fn new() -> Node {
        Node {
            database: Database::new(),
            notifier: Rc::new(CommitNotifier::new()),
            pool: Vec::new(),
            blocks: vec![Vec::new()],
            statuses: Vec::new(),
            next_id: 0,
        }
    }

    fn fresh_key(&mut self) -> PublicKey {
        self.next_id += 1;
        PublicKey::new([self.next_id; 32])
    }

    fn fresh_hash(&mut self) -> crypto::Hash {
        self.next_id += 1;
        crypto::Hash::new([self.next_id; 32])
    }

    /// Accepts a transaction for a later block and answers with its
    /// identifier.
    fn post_transaction(&mut self, transaction: AuctionTransactions) -> crypto::Hash {
        let hash = transaction.hash();
        let response = PublicApi::post_transaction(&hash, || {
            self.pool.push(transaction);
            true
        });
        response.unwrap().tx_hash
    }

    /// Seals the pooled transactions with the given identifiers into the
    /// next block.
    fn create_block_with_tx_hashes(&mut self, hashes: &[crypto::Hash]) {
        let mut block = Vec::new();
        let mut rest = Vec::new();
        for transaction in self.pool.drain(..) {
            if hashes.contains(&transaction.hash()) {
                let status = match process_transaction(&mut self.database, &transaction, true) {
                    TransactionStatus::Success => Status::Success,
                    TransactionStatus::Error(error) => Status::Error {
                        code: error.code(),
                        description: error.description().unwrap_or("").to_owned(),
                    },
                    TransactionStatus::Rejected => unreachable!(),
                };
                self.statuses.push((transaction.hash(), status));
                block.push(transaction.hash());
            } else {
                rest.push(transaction);
            }
        }
        self.pool = rest;
        self.blocks.push(block);
        let height = (self.blocks.len() - 1) as u64;
        PublicApi::sync_commit_callback(&self.notifier, height).unwrap();
    }

    /// Seals everything that is pooled into the next block.
    fn create_block(&mut self) {
        let hashes: Vec<crypto::Hash> = self.pool.iter().map(|tx| tx.hash()).collect();
        self.create_block_with_tx_hashes(&hashes);
    }

    fn block_transactions(&self, height: u64) -> Vec<crypto::Hash> {
        self.blocks[height as usize].clone()
    }

    fn status(&self, hash: &crypto::Hash) -> &Status {
        &self
            .statuses
            .iter()
            .find(|(committed, _)| committed == hash)
            .expect("Unknown transaction")
            .1
    }
}

/// Check that the wallet creation transaction works when invoked via API.
#[test]
fn test_api_create_wallet() {
    let mut node = Node::new();
    let tx = create_wallet(&mut node, PHOBOS);
    node.create_block();
    assert_tx_status(&node, tx.hash(), &Status::Success);

    let wallet = wallet(&node, *tx.pub_key());
    assert_eq!(wallet.pub_key(), tx.pub_key());
    assert_eq!(wallet.name(), tx.name());
    assert_eq!(wallet.balance(), BALANCE);
}

/// Test lot creation
#[test]
fn test_api_create_lot() {
    let mut node = Node::new();
    let tx = create_wallet(&mut node, PHOBOS);
    node.create_block();
    assert_tx_status(&node, tx.hash(), &Status::Success);
    let ltx = create_lot(&mut node, tx.pub_key());
    node.create_block();
    assert_tx_status(&node, ltx.hash(), &Status::Success);
}

#[test]
fn test_api_place_bid() {
    let mut node = Node::new();
    let tx = create_wallet(&mut node, PHOBOS);
    let ltx = create_lot(&mut node, tx.pub_key());
    let bidder_tx = create_wallet(&mut node, DEIMOS);
    node.create_block_with_tx_hashes(&[tx.hash(), ltx.hash(), bidder_tx.hash()]);

    let (node, btx) = place_bid(node, bidder_tx.pub_key(), &ltx.hash(), MIN_BID, 2);
    assert_tx_status(&node, btx.hash(), &Status::Success);

    let bid_history = bid_history(&node, ltx.hash());
    assert_eq!(bid_history.bids.len(), 1);

    let last_bid = bid_history.bids.last().unwrap();
    assert_eq!(last_bid.owner(), bidder_tx.pub_key());
    assert_eq!(last_bid.amount(), MIN_BID);
}

#[test]
fn test_api_create_existing_wallet() {
    let mut node = Node::new();
    let tx = create_wallet(&mut node, PHOBOS);
    node.create_block();

    let hash = node.fresh_hash();
    let dup_tx = CreateWallet::new(tx.pub_key(), "duplicate wallet", BALANCE, &hash);
    let _tx_info = node.post_transaction(AuctionTransactions::CreateWallet(dup_tx.clone()));
    node.create_block_with_tx_hashes(&[dup_tx.hash()]);
    assert_tx_status(
        &node,
        dup_tx.hash(),
        &Status::Error { code: 0, description: "Wallet already exists".to_owned() },
    );
}

#[test]
fn test_api_create_lot_for_nonexistent_wallet() {
    let mut node = Node::new();
    let pubkey = node.fresh_key();
    let ltx = create_lot(&mut node, &pubkey);
    node.create_block();
    assert_tx_status(
        &node,
        ltx.hash(),
        &Status::Error { code: 4, description: "Wallet does not exist".to_owned() },
    );
}

#[test]
fn test_api_place_bid_on_nonexistent_lot() {
    let mut node = Node::new();
    let tx = create_wallet(&mut node, PHOBOS);
    node.create_block();
    let hash = crypto::Hash::new([
        3, 144, 88, 198, 242, 192, 203, 73, 44, 83, 59, 10, 77, 20, 239, 119, 204, 15, 120, 171,
        204, 206, 213, 40, 125, 132, 161, 162, 1, 28, 251, 129,
    ]);

    let (node, btx) = place_bid(node, tx.pub_key(), &hash, MIN_BID, 2);

    assert_tx_status(
        &node,
        btx.hash(),
        &Status::Error { code: 1, description: "Lot does not exist".to_owned() },
    );
}

#[test]
fn test_api_place_bid_on_own_lot() {
    let mut node = Node::new();
    let tx = create_wallet(&mut node, PHOBOS);
    let ltx = create_lot(&mut node, tx.pub_key());
    node.create_block_with_tx_hashes(&[tx.hash(), ltx.hash()]);

    let (node, btx) = place_bid(node, tx.pub_key(), &ltx.hash(), MIN_BID, 2);

    assert_tx_status(
        &node,
        btx.hash(),
        &Status::Error { code: 5, description: "Bidding not allowed on one's own lot".to_owned() },
    );
}

#[test]
fn test_api_place_bid_below_minimum() {
    let mut node = Node::new();
    let tx = create_wallet(&mut node, PHOBOS);
    let ltx = create_lot(&mut node, tx.pub_key());
    let bidder_tx = create_wallet(&mut node, DEIMOS);
    node.create_block_with_tx_hashes(&[tx.hash(), ltx.hash(), bidder_tx.hash()]);

    let (node, btx) = place_bid(node, bidder_tx.pub_key(), &ltx.hash(), MIN_BID - 1, 2);

    assert_tx_status(
        &node,
        btx.hash(),
        &Status::Error { code: 2, description: "Bid below current minimum".to_owned() },
    );
}

#[test]
fn test_api_place_bid_above_balance() {
    let mut node = Node::new();
    let tx = create_wallet(&mut node, PHOBOS);
    let ltx = create_lot(&mut node, tx.pub_key());
    let bidder_tx = create_wallet(&mut node, DEIMOS);
    node.create_block_with_tx_hashes(&[tx.hash(), ltx.hash(), bidder_tx.hash()]);

    let (node, btx) = place_bid(node, bidder_tx.pub_key(), &ltx.hash(), BALANCE + 1, 2);

    assert_tx_status(
        &node,
        btx.hash(),
        &Status::Error {
            code: 3,
            description: "Currency amount insufficient for bid placement".to_owned(),
        },
    );
}

fn create_wallet(node: &mut Node, name: &str) -> CreateWallet {
    let pubkey = node.fresh_key();
    let hash = node.fresh_hash();
    // Create a transaction as the host delivers it
    let tx = CreateWallet::new(&pubkey, name, BALANCE, &hash);

    let tx_info = node.post_transaction(AuctionTransactions::CreateWallet(tx.clone()));
    assert_eq!(tx_info, tx.hash());
    tx
}

/// Gets the state of a particular wallet through the public call.
fn wallet(node: &Node, pub_key: PublicKey) -> Wallet {
    PublicApi::wallet(&node.database.snapshot(), WalletQuery { pub_key }).unwrap()
}

fn bid_history(node: &Node, lot_id: crypto::Hash) -> BidHistory {
    PublicApi::bid_history(&node.database.snapshot(), BidHistoryQuery { id: lot_id }).unwrap()
}

/// Asserts that the transaction with the given hash has a specified status.
fn assert_tx_status(node: &Node, tx_hash: crypto::Hash, expected_status: &Status) {
    assert_eq!(node.status(&tx_hash), expected_status);
}

/// Creates a lot given a participant's public key
fn create_lot(node: &mut Node, owner: &PublicKey) -> CreateLot {
    let hash = node.fresh_hash();
    let ltx = CreateLot::new(owner, "Test lot", MIN_BID, &hash);

    let tx_info = node.post_transaction(AuctionTransactions::CreateLot(ltx.clone()));
    assert_eq!(tx_info, ltx.hash());
    ltx
}

/// Places a bid through the blocking call. The block that holds the bid is
/// sealed while the caller waits: here, right after the node took the
/// transaction.
fn place_bid(
    mut node: Node,
    bidder: &PublicKey,
    lot_id: &crypto::Hash,
    bid: u64,
    expected_height: u64,
) -> (Node, PlaceBid) {
    let hash = node.fresh_hash();
    let btx = PlaceBid::new(bidder, lot_id, bid, &hash);
    let notifier = node.notifier.clone();
    let shared = RefCell::new(node);
    let tx_info = PublicApi::post_transaction_sync(
        &notifier,
        &btx.hash(),
        || {
            let mut node = shared.borrow_mut();
            node.post_transaction(AuctionTransactions::PlaceBid(btx.clone()));
            node.create_block();
            true
        },
        |height| shared.borrow().block_transactions(height),
        WAIT_LIMIT,
    );
    let tx_info: TransactionSyncResponse = match tx_info {
        Ok(response) => response,
        Err(ApiError::NotFound(text)) => panic!("not found: {}", text),
        Err(error) => panic!("the blocking call failed: {:?}", error),
    };
    assert_eq!(tx_info.tx_hash, btx.hash());
    assert_eq!(tx_info.tx_block_height, expected_height);
    (shared.into_inner(), btx)
}
