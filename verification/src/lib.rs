//! A ledger that runs a simple auction: wallets hold balances, lots are put
//! up with a minimum bid, and each bid is escrowed against its bidder's
//! balance until a higher bid supersedes it.
//!
//! The library is the core of a service on a replicated ledger. The host
//! delivers signed transactions one at a time and seals them into numbered
//! blocks; the library validates and applies them, and lets a caller wait
//! for the block that holds its transaction.
//!
//! - [`model`] is the ledger as mathematics, and the rules of the three
//!   transactions as functions on it.
//! - [`invariants`] proves what holds of every ledger that transactions can
//!   bring about: conservation of funds, escrow that matches the active
//!   bids, and bids that only rise.
//! - [`storage`] is the ledger store, with snapshots and forks.
//! - [`schema`] holds the records and the accessor that works on them.
//! - [`tx`] holds the transactions and executes them, each all or nothing.
//! - [`notifier`] publishes the heights of sealed blocks.
//! - [`api`] is what callers outside see.
//! - [`crypto`] and [`keys`] hold the identifiers and how they are looked up.

pub mod api;
pub mod crypto;
pub mod invariants;
pub mod keys;
pub mod model;
pub mod notifier;
pub mod schema;
pub mod storage;
pub mod tx;

pub use schema::Schema;

use crate::notifier::{CommitNotifier, NotifyError};
use vstd::prelude::*;

verus! {

/// The identifier under which the host knows the service.
pub const SERVICE_ID: u16 = 42;

/// The name of the service. The names of its containers in the host's
/// storage start with it.
pub const SERVICE_NAME: &'static str = "auction";

/// The service: what the host asks of it, and the notifier that it owns and
/// hands to every call that waits for a commit.
pub struct Service {
    notifier: CommitNotifier,
}

impl Service {
    /// A service with a notifier of its own.
    pub fn new() -> (service: Self) {
        Service { notifier: CommitNotifier::new() }
    }

    /// The identifier of the service.
    pub fn service_id(&self) -> (id: u16)
        ensures
            id == SERVICE_ID,
    {
        SERVICE_ID
    }

    /// The name of the service.
    pub fn service_name(&self) -> (name: &'static str)
        ensures
            name == SERVICE_NAME,
    {
        SERVICE_NAME
    }

    /// The digests that the service publishes of its state, given the digest
    /// of its wallets.
    pub fn state_hash(&self, wallets_root: crypto::Hash) -> (digests: Vec<crypto::Hash>)
        ensures
            digests@ == seq![wallets_root],
    {
        Schema::new(()).state_hash(wallets_root)
    }

    /// The notifier that the service owns.
    pub closed spec fn own_notifier(&self) -> CommitNotifier {
        self.notifier
    }

    /// The notifier of the service: the one on which `after_commit`
    /// publishes.
    pub fn notifier(&self) -> (notifier: &CommitNotifier)
        ensures
            *notifier == self.own_notifier(),
    {
        &self.notifier
    }

    /// To be called once for each sealed block, after its transactions were
    /// committed: publishes the height to the callers that wait.
    pub fn after_commit(&self, height: u64) -> (result: Result<(), NotifyError>) {
        api::PublicApi::sync_commit_callback(&self.notifier, height)
    }
}

/// The maker of the service for the host's node builder.
#[derive(Debug)]
pub struct ServiceFactory;

impl ServiceFactory {
    /// The name of the service that the factory makes.
    pub fn service_name(&self) -> (name: &'static str)
        ensures
            name == SERVICE_NAME,
    {
        SERVICE_NAME
    }

    /// Makes the service.
    pub fn make_service(&mut self) -> (service: Service) {
        Service::new()
    }
}

} // verus!
