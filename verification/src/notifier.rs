//! The commit notifier: a broadcast channel on which the heights of sealed
//! blocks are published, so that a caller who submitted a transaction can
//! wait for the block that holds it without polling.
//!
//! The channel itself is the `pub_sub` crate's. What goes over it depends on
//! other threads, so nothing is claimed of what a call returns; the decisions
//! taken on what came back are verified.

use crate::crypto;
use vstd::prelude::*;

verus! {

/// `pub_sub::PubSub`, the sending side of the broadcast channel. Opaque here.
#[verifier::external_type_specification]
#[verifier::external_body]
#[verifier::reject_recursive_types(T)]
pub struct ExPubSub<T: Clone>(pub_sub::PubSub<T>);

/// `pub_sub::Subscription`, one receiver of the broadcast channel with its
/// own unbounded queue. Opaque here.
#[verifier::external_type_specification]
#[verifier::external_body]
#[verifier::reject_recursive_types(T)]
pub struct ExSubscription<T: Clone>(pub_sub::Subscription<T>);

/// Calls `pub_sub::PubSub::new`, which makes a channel that nobody is
/// subscribed to. Nothing is claimed of the channel.
#[verifier::external_body]
fn channel_new() -> (channel: pub_sub::PubSub<u64>) {
    pub_sub::PubSub::new()
}

/// Calls `pub_sub::PubSub::send`, which hands a copy of `height` to every
/// subscription registered at that moment and stops at the first that
/// refuses it. Returns whether all took it. Who is registered depends on
/// other threads, so nothing is claimed of the result.
///
/// The call panics where the lock of the channel is poisoned. That takes a
/// panic inside the channel's own code, of which it has none for heights.
#[verifier::external_body]
fn channel_send(channel: &pub_sub::PubSub<u64>, height: u64) -> (sent: bool) {
    match channel.send(height) {
        Ok(()) => true,
        Err(_) => false,
    }
}

/// Calls `pub_sub::PubSub::subscribe`, which registers a new subscription
/// under a random identifier. Nothing is claimed of the subscription. On the
/// channel's lock see `channel_send`.
#[verifier::external_body]
fn channel_subscribe(channel: &pub_sub::PubSub<u64>) -> (subscription: pub_sub::Subscription<u64>) {
    channel.subscribe()
}

/// Calls `pub_sub::Subscription::recv`, which takes the oldest height out of
/// the subscription's queue and, while the queue is empty, blocks: the call
/// returns only once a height was sent, which may be never. `None` stands for
/// the channel's error: every sender is gone. What arrives, and when,
/// depends on other threads, so nothing is claimed of the result.
#[verifier::external_body]
fn subscription_recv(subscription: &pub_sub::Subscription<u64>) -> (height: Option<u64>) {
    match subscription.recv() {
        Ok(height) => Some(height),
        Err(_) => None,
    }
}

/// The channel refused a height: a subscriber's queue is gone.
#[derive(Clone, Copy, Debug, PartialEq, Eq, Structural)]
pub struct NotifyError;

/// What a publication ended in, given whether every subscriber that it
/// reached took the height.
pub fn delivery(taken: bool) -> (result: Result<(), NotifyError>)
    ensures
        result == if taken {
            Ok::<(), NotifyError>(())
        } else {
            Err::<(), NotifyError>(NotifyError)
        },
{
    if taken {
        Ok(())
    } else {
        Err(NotifyError)
    }
}

/// The notifier that a service owns and hands to every call that publishes
/// or waits.
pub struct CommitNotifier {
    channel: pub_sub::PubSub<u64>,
}

/// One caller's subscription to the heights of sealed blocks.
pub struct CommitSubscription {
    inner: pub_sub::Subscription<u64>,
}

impl CommitNotifier {
    /// A notifier without subscribers.
    pub fn new() -> (notifier: Self) {
        CommitNotifier { channel: channel_new() }
    }

    /// Registers a new subscriber. It receives every height published from
    /// now on, in its own queue.
    pub fn subscribe(&self) -> (subscription: CommitSubscription) {
        CommitSubscription { inner: channel_subscribe(&self.channel) }
    }

    /// Publishes the height of a block that was just sealed to every
    /// subscriber. Whether all of them take it is the channel's to say; the
    /// result is the `delivery` of its answer.
    pub fn publish(&self, height: u64) -> (result: Result<(), NotifyError>) {
        delivery(channel_send(&self.channel, height))
    }
}

impl CommitSubscription {
    /// Takes the oldest height that was published to this subscriber and not
    /// taken yet. Blocks while there is none; `None` where the channel is
    /// closed.
    pub fn next_height(&self) -> (height: Option<u64>) {
        subscription_recv(&self.inner)
    }
}

/// Whether `hash` is among `hashes`.
pub fn contains_hash(hashes: &Vec<crypto::Hash>, hash: &crypto::Hash) -> (found: bool)
    ensures
        found == hashes@.contains(*hash),
{
    let mut i: usize = 0;
    while i < hashes.len()
        invariant
            i <= hashes.len(),
            forall|j: int| 0 <= j < i ==> hashes@[j] != *hash,
        decreases hashes.len() - i,
    {
        if hashes[i] == *hash {
            return true;
        }
        i = i + 1;
    }
    false
}

/// What a waiting caller decides when the block at `height` was sealed with
/// the transactions `block`: the wait for `tx_hash` ends with `height` where
/// the block holds the transaction, and goes on where it does not.
pub fn inclusion_height(height: u64, block: &Vec<crypto::Hash>, tx_hash: &crypto::Hash) -> (found:
    Option<u64>)
    ensures
        found == if block@.contains(*tx_hash) {
            Some(height)
        } else {
            None
        },
{
    if contains_hash(block, tx_hash) {
        Some(height)
    } else {
        None
    }
}

} // verus!
