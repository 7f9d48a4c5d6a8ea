//! What the service offers to outside callers: the two read queries, the
//! submission that does not wait, and the blocking submission that waits for
//! its transaction to be committed.
//!
//! The host stands behind two functions that the caller passes in: `submit`
//! hands a transaction to the host and tells whether the host took it, and
//! `block_transactions` gives the identifiers of the transactions of the
//! block at a height. The contracts say what is returned for what these two
//! gave.

use crate::crypto;
use crate::crypto::PublicKey;
use crate::notifier::{inclusion_height, CommitNotifier, NotifyError};
use crate::schema::{Bid, Schema, Wallet};
use crate::storage::{bid_models, Snapshot};
use vstd::prelude::*;

verus! {

/// The query for one wallet.
#[derive(Clone, Copy, Debug)]
pub struct WalletQuery {
    /// The key of the wallet's owner.
    pub pub_key: PublicKey,
}

/// The query for the bids placed on one lot.
#[derive(Clone, Copy, Debug)]
pub struct BidHistoryQuery {
    /// The identifier of the lot.
    pub id: crypto::Hash,
}

/// The answer to a submission that does not wait.
#[derive(Clone, Copy, Debug)]
pub struct TransactionResponse {
    /// The identifier of the transaction.
    pub tx_hash: crypto::Hash,
}

/// The answer to a blocking submission.
#[derive(Clone, Copy, Debug)]
pub struct TransactionSyncResponse {
    /// The identifier of the transaction.
    pub tx_hash: crypto::Hash,
    /// The height of the block that holds the transaction.
    pub tx_block_height: u64,
}

/// The bids placed on a lot.
#[derive(Debug)]
pub struct BidHistory {
    /// The bids, oldest first.
    pub bids: Vec<Bid>,
}

/// Why a call of the service failed.
#[derive(Debug)]
pub enum ApiError {
    /// What was asked for is not stored.
    NotFound(String),
    /// The host did not accept the transaction for dissemination.
    SubmissionFailed,
    /// The commit notifier closed before the transaction was seen in a block.
    NotifierClosed,
    /// The transaction was in none of the blocks that the caller was willing
    /// to wait for.
    WaitLimitReached,
}

/// Whether `looked` is a run of sealed blocks, each a height with the
/// transactions that `block_transactions` gave for it, of which none holds
/// `tx_hash`.
pub open spec fn looked_in_vain<F: Fn(u64) -> Vec<crypto::Hash>>(
    block_transactions: F,
    looked: Seq<(u64, Vec<crypto::Hash>)>,
    tx_hash: crypto::Hash,
) -> bool {
    forall|i: int|
        0 <= i < looked.len() ==> block_transactions.ensures(
            ((#[trigger] looked[i]).0,),
            looked[i].1,
        ) && !looked[i].1@.contains(tx_hash)
}

/// The public calls of the service.
#[derive(Clone, Copy, Debug)]
pub struct PublicApi;

impl PublicApi {
    /// The wallet of `query.pub_key` as the snapshot holds it.
    pub fn wallet(snapshot: &Snapshot, query: WalletQuery) -> (result: Result<Wallet, ApiError>)
        ensures
            match result {
                Ok(wallet) => snapshot@.wallet(query.pub_key) == Some(wallet@),
                Err(ApiError::NotFound(text)) => snapshot@.wallet(query.pub_key) is None && text@
                    == "\"Wallet not found\""@,
                Err(_) => false,
            },
    {
        let schema = Schema::new(snapshot);
        match schema.wallet(&query.pub_key) {
            Some(wallet) => Ok(wallet),
            None => Err(ApiError::NotFound("\"Wallet not found\"".to_owned())),
        }
    }

    /// The bids placed on the lot `query.id` as the snapshot holds them,
    /// oldest first. Empty where the lot has no bids, and where there is no
    /// such lot.
    pub fn bid_history(snapshot: &Snapshot, query: BidHistoryQuery) -> (result: Result<
        BidHistory,
        ApiError,
    >)
        ensures
            result is Ok,
            bid_models(result->Ok_0.bids@) == snapshot@.history(query.id),
    {
        let bids = snapshot.bids().history(&query.id);
        Ok(BidHistory { bids })
    }

    /// Submits a transaction without waiting for it: `submit` hands it to the
    /// host, and the answer is its identifier as soon as the host took it.
    pub fn post_transaction<S: FnOnce() -> bool>(tx_hash: &crypto::Hash, submit: S) -> (result:
        Result<TransactionResponse, ApiError>)
        requires
            submit.requires(()),
        ensures
            match result {
                Ok(response) => submit.ensures((), true) && response.tx_hash == *tx_hash,
                Err(ApiError::SubmissionFailed) => submit.ensures((), false),
                Err(_) => false,
            },
    {
        if submit() {
            Ok(TransactionResponse { tx_hash: *tx_hash })
        } else {
            Err(ApiError::SubmissionFailed)
        }
    }

    /// Submits a transaction and waits until a sealed block holds it.
    ///
    /// The caller is subscribed to the notifier before `submit` hands the
    /// transaction to the host, so that no block sealed after the submission
    /// is missed. Then each height that arrives is looked up with
    /// `block_transactions`, and the first whose block holds `tx_hash` is
    /// the answer: every block looked at before it was looked at in vain.
    ///
    /// At most `limit` heights are looked at, and the call gives up only
    /// when that many were looked at in vain; with `u64::MAX` the caller
    /// waits for as long as it takes. While no height arrives the call
    /// blocks.
    pub fn post_transaction_sync<S: FnOnce() -> bool, F: Fn(u64) -> Vec<crypto::Hash>>(
        notifier: &CommitNotifier,
        tx_hash: &crypto::Hash,
        submit: S,
        block_transactions: F,
        limit: u64,
    ) -> (result: Result<TransactionSyncResponse, ApiError>)
        requires
            submit.requires(()),
            forall|height: u64| block_transactions.requires((height,)),
        ensures
            match result {
                Ok(response) => {
                    &&& submit.ensures((), true)
                    &&& response.tx_hash == *tx_hash
                    &&& exists|looked: Seq<(u64, Vec<crypto::Hash>)>, block: Vec<crypto::Hash>|
                        {
                            &&& looked.len() < limit
                            &&& looked_in_vain(block_transactions, looked, *tx_hash)
                            &&& block_transactions.ensures((response.tx_block_height,), block)
                            &&& block@.contains(*tx_hash)
                        }
                },
                Err(ApiError::SubmissionFailed) => submit.ensures((), false),
                Err(ApiError::NotifierClosed) => submit.ensures((), true),
                Err(ApiError::WaitLimitReached) => {
                    &&& submit.ensures((), true)
                    &&& exists|looked: Seq<(u64, Vec<crypto::Hash>)>|
                        looked.len() == limit && looked_in_vain(
                            block_transactions,
                            looked,
                            *tx_hash,
                        )
                },
                Err(ApiError::NotFound(_)) => false,
            },
    {
        let subscription = notifier.subscribe();
        if !submit() {
            return Err(ApiError::SubmissionFailed);
        }
        let mut seen: u64 = 0;
        let ghost mut looked: Seq<(u64, Vec<crypto::Hash>)> = Seq::empty();
        while seen < limit
            invariant
                seen <= limit,
                looked.len() == seen,
                looked_in_vain(block_transactions, looked, *tx_hash),
                submit.ensures((), true),
                forall|height: u64| block_transactions.requires((height,)),
            decreases limit - seen,
        {
            match subscription.next_height() {
                Some(height) => {
                    let block = block_transactions(height);
                    match inclusion_height(height, &block, tx_hash) {
                        Some(tx_block_height) => {
                            return Ok(
                                TransactionSyncResponse { tx_hash: *tx_hash, tx_block_height },
                            );
                        },
                        None => {
                            proof {
                                looked = looked.push((height, block));
                            }
                        },
                    }
                },
                None => {
                    return Err(ApiError::NotifierClosed);
                },
            }
            seen = seen + 1;
        }
        Err(ApiError::WaitLimitReached)
    }

    /// Tells the callers that wait for a commit that the block at `height`
    /// was sealed.
    pub fn sync_commit_callback(notifier: &CommitNotifier, height: u64) -> (result: Result<
        (),
        NotifyError,
    >) {
        notifier.publish(height)
    }
}

} // verus!
