//! The commit notifier and the blocking submission, with the real channel.

use std::cell::{Cell, RefCell};

use exonum_auction::api::{ApiError, PublicApi};
use exonum_auction::crypto;
use exonum_auction::notifier::{
    contains_hash, delivery, inclusion_height, CommitNotifier, NotifyError,
};
use exonum_auction::{Service, ServiceFactory};

fn hash(seed: u8) -> crypto::Hash {
    crypto::Hash::new([seed; 32])
}

#[test]
fn subscriber_receives_the_heights_in_order() {
    let notifier = CommitNotifier::new();
    let subscription = notifier.subscribe();
    for height in [1u64, 2, 3] {
        assert!(notifier.publish(height).is_ok());
    }
    assert_eq!(subscription.next_height(), Some(1));
    assert_eq!(subscription.next_height(), Some(2));
    assert_eq!(subscription.next_height(), Some(3));
}

#[test]
fn each_subscriber_has_its_own_queue() {
    let notifier = CommitNotifier::new();
    let first = notifier.subscribe();
    assert!(notifier.publish(1).is_ok());
    let second = notifier.subscribe();
    assert!(notifier.publish(2).is_ok());
    assert_eq!(first.next_height(), Some(1));
    assert_eq!(first.next_height(), Some(2));
    // The second subscriber came after height 1 and sees height 2 first.
    assert_eq!(second.next_height(), Some(2));
}

#[test]
fn publishing_without_subscribers_succeeds() {
    let notifier = CommitNotifier::new();
    assert!(PublicApi::sync_commit_callback(&notifier, 1).is_ok());
    let gone = notifier.subscribe();
    drop(gone);
    assert!(PublicApi::sync_commit_callback(&notifier, 2).is_ok());
}

#[test]
fn block_holds_a_transaction_or_not() {
    let block = vec![hash(1), hash(2), hash(3)];
    assert!(contains_hash(&block, &hash(1)));
    assert!(contains_hash(&block, &hash(3)));
    assert!(!contains_hash(&block, &hash(4)));
    assert!(!contains_hash(&Vec::new(), &hash(1)));
    assert_eq!(inclusion_height(7, &block, &hash(2)), Some(7));
    assert_eq!(inclusion_height(7, &block, &hash(9)), None);
    assert_eq!(inclusion_height(0, &Vec::new(), &hash(2)), None);
}

/// The blocks of a chain in which only the block at height 4 holds the
/// transaction 9.
fn block_at(height: u64) -> Vec<crypto::Hash> {
    match height {
        2 => vec![hash(1), hash(2)],
        4 => vec![hash(3), hash(9)],
        _ => Vec::new(),
    }
}

#[test]
fn blocking_submission_returns_the_height_of_the_block_with_the_transaction() {
    let notifier = CommitNotifier::new();
    let looked_up = RefCell::new(Vec::new());
    let response = PublicApi::post_transaction_sync(
        &notifier,
        &hash(9),
        || {
            // The transaction is taken at height 1; the block that holds it
            // is sealed three heights later.
            for height in [2u64, 3, 4, 5] {
                notifier.publish(height).unwrap();
            }
            true
        },
        |height| {
            looked_up.borrow_mut().push(height);
            block_at(height)
        },
        16,
    )
    .unwrap();
    assert_eq!(response.tx_hash, hash(9));
    assert_eq!(response.tx_block_height, 4);
    assert_eq!(*looked_up.borrow(), vec![2, 3, 4]);
}

#[test]
fn blocking_submission_subscribes_before_it_submits() {
    let notifier = CommitNotifier::new();
    // A height published before the call is not for this caller.
    notifier.publish(4).unwrap();
    let response = PublicApi::post_transaction_sync(
        &notifier,
        &hash(2),
        || {
            notifier.publish(2).unwrap();
            true
        },
        block_at,
        1,
    )
    .unwrap();
    assert_eq!(response.tx_block_height, 2);
}

#[test]
fn blocking_submission_reports_a_refused_submission() {
    let notifier = CommitNotifier::new();
    let asked = Cell::new(false);
    let result = PublicApi::post_transaction_sync(
        &notifier,
        &hash(9),
        || {
            notifier.publish(4).unwrap();
            false
        },
        |height| {
            asked.set(true);
            block_at(height)
        },
        16,
    );
    assert!(matches!(result, Err(ApiError::SubmissionFailed)));
    assert!(!asked.get());
}

#[test]
fn blocking_submission_gives_up_at_its_limit() {
    let notifier = CommitNotifier::new();
    let result = PublicApi::post_transaction_sync(
        &notifier,
        &hash(9),
        || {
            for height in [1u64, 2, 3, 4] {
                notifier.publish(height).unwrap();
            }
            true
        },
        block_at,
        3,
    );
    assert!(matches!(result, Err(ApiError::WaitLimitReached)));
    let none = PublicApi::post_transaction_sync(&notifier, &hash(9), || true, block_at, 0);
    assert!(matches!(none, Err(ApiError::WaitLimitReached)));
}

#[test]
fn submission_that_does_not_wait_answers_with_the_identifier() {
    let taken = Cell::new(false);
    let response = PublicApi::post_transaction(&hash(9), || {
        taken.set(true);
        true
    })
    .unwrap();
    assert_eq!(response.tx_hash, hash(9));
    assert!(taken.get());
    let refused = PublicApi::post_transaction(&hash(9), || false);
    assert!(matches!(refused, Err(ApiError::SubmissionFailed)));
}

#[test]
fn service_publishes_each_commit_on_its_notifier() {
    let service = ServiceFactory.make_service();
    assert_eq!(service.service_id(), 42);
    assert_eq!(service.service_name(), "auction");
    assert_eq!(ServiceFactory.service_name(), "auction");
    assert_eq!(service.state_hash(hash(7)), vec![hash(7)]);
    let subscription = service.notifier().subscribe();
    service.after_commit(5).unwrap();
    service.after_commit(6).unwrap();
    assert_eq!(subscription.next_height(), Some(5));
    assert_eq!(subscription.next_height(), Some(6));
    let other = Service::new();
    let apart = other.notifier().subscribe();
    service.after_commit(7).unwrap();
    other.after_commit(1).unwrap();
    assert_eq!(apart.next_height(), Some(1));
}

#[test]
fn publication_fails_where_a_subscriber_did_not_take_the_height() {
    assert_eq!(delivery(true), Ok(()));
    assert_eq!(delivery(false), Err(NotifyError));
}
