//! What holds of every ledger that the transactions of the auction can
//! reach, stated over the model and proved of `LedgerModel::apply`.

use crate::crypto;
use crate::crypto::PublicKey;
use crate::keys::{first_of, is_first, lemma_first, lemma_occurs, lemma_push};
use crate::model::{
    history_of, lot_ids, BidModel, LedgerModel, LotModel, TransactionModel, WalletModel,
};
use crate::tx::Error;
use vstd::prelude::*;

verus! {

/// The funds of `key` that the bids `history` of one lot hold in escrow: the
/// amount of the newest bid where `key` placed it, and nothing otherwise.
pub open spec fn escrow_of(history: Seq<BidModel>, key: PublicKey) -> nat {
    if history.len() > 0 && history.last().owner == key {
        history.last().amount
    } else {
        0
    }
}

/// The funds of `key` that the first `n` of `lots` hold in escrow.
pub open spec fn escrowed_upto(
    lots: Seq<LotModel>,
    bids: Map<crypto::Hash, Seq<BidModel>>,
    key: PublicKey,
    n: int,
) -> nat
    decreases n,
{
    if n <= 0 {
        0
    } else {
        escrowed_upto(lots, bids, key, n - 1) + escrow_of(
            history_of(bids, lots[n - 1].tx_hash),
            key,
        )
    }
}

/// The bids `history` are in order for `lot`: the first meets the lot's
/// minimum, each bid exceeds every bid before it, and none is the lot
/// owner's.
pub open spec fn bids_in_order(lot: LotModel, history: Seq<BidModel>) -> bool {
    &&& history.len() > 0 ==> history[0].amount >= lot.min_bid
    &&& forall|j: int, k: int|
        0 <= j < k < history.len() ==> (#[trigger] history[j]).amount < (
        #[trigger] history[k]).amount
    &&& forall|j: int| 0 <= j < history.len() ==> (#[trigger] history[j]).owner != lot.owner
}

impl LedgerModel {
    /// All the funds of `key` that are in escrow: over every lot, what its
    /// active bid holds of them.
    pub open spec fn escrowed(self, key: PublicKey) -> nat {
        escrowed_upto(self.lots, self.bids, key, self.lots.len() as int)
    }

    /// Bids were placed on lots only: an identifier that has bids is a lot's.
    pub open spec fn bids_belong_to_lots(self) -> bool {
        forall|id: crypto::Hash| #[trigger] self.history(id).len() > 0 ==> self.has_lot(id)
    }

    /// Every bidder holds a wallet.
    pub open spec fn bidders_hold_wallets(self) -> bool {
        forall|id: crypto::Hash, j: int|
            0 <= j < self.history(id).len() ==> self.has_wallet(
                (#[trigger] self.history(id)[j]).owner,
            )
    }

    /// The bids of every lot are in order.
    pub open spec fn bidding_is_monotonic(self) -> bool {
        forall|i: int|
            0 <= i < self.lots.len() ==> bids_in_order(
                #[trigger] self.lots[i],
                self.history(self.lots[i].tx_hash),
            )
    }

    /// What each wallet has frozen is exactly what the active bids of its
    /// owner hold in escrow.
    pub open spec fn escrow_is_backed(self) -> bool {
        forall|key: PublicKey| #[trigger]
            self.has_wallet(key) ==> self.wallets[key].frozen == self.escrowed(key)
    }

    /// The invariant of the ledger.
    pub open spec fn sound(self) -> bool {
        &&& self.wf()
        &&& self.bids_belong_to_lots()
        &&& self.bidders_hold_wallets()
        &&& self.bidding_is_monotonic()
        &&& self.escrow_is_backed()
    }

    /// Whether `tx` can be delivered to this ledger: the host delivers each
    /// transaction once, so no lot carries the identifier of a transaction
    /// that is yet to create one.
    pub open spec fn admits(self, tx: TransactionModel) -> bool {
        tx is CreateLot ==> !self.has_lot(tx.hash())
    }

    /// The ledger after the transactions `txs` were applied in turn.
    pub open spec fn run(self, txs: Seq<TransactionModel>) -> LedgerModel
        decreases txs.len(),
    {
        if txs.len() == 0 {
            self
        } else {
            self.run(txs.drop_last()).apply(txs.last())
        }
    }

    /// Whether `txs` can be delivered to this ledger in turn.
    pub open spec fn admits_all(self, txs: Seq<TransactionModel>) -> bool
        decreases txs.len(),
    {
        txs.len() == 0 || (self.admits_all(txs.drop_last()) && self.run(txs.drop_last()).admits(
            txs.last(),
        ))
    }
}

/// The escrow over the first `n` lots depends on those lots and their bids
/// only.
proof fn lemma_escrowed_upto_same(
    lots: Seq<LotModel>,
    bids: Map<crypto::Hash, Seq<BidModel>>,
    lots2: Seq<LotModel>,
    bids2: Map<crypto::Hash, Seq<BidModel>>,
    key: PublicKey,
    n: int,
)
    requires
        n <= lots.len(),
        n <= lots2.len(),
        forall|i: int|
            0 <= i < n ==> lots[i].tx_hash == lots2[i].tx_hash && escrow_of(
                history_of(bids, lots[i].tx_hash),
                key,
            ) == escrow_of(history_of(bids2, lots[i].tx_hash), key),
    ensures
        escrowed_upto(lots, bids, key, n) == escrowed_upto(lots2, bids2, key, n),
    decreases n,
{
    if n > 0 {
        lemma_escrowed_upto_same(lots, bids, lots2, bids2, key, n - 1);
    }
}

/// The escrow over the first `n` lots is at least what any one of them holds.
proof fn lemma_escrowed_upto_covers(
    lots: Seq<LotModel>,
    bids: Map<crypto::Hash, Seq<BidModel>>,
    key: PublicKey,
    n: int,
    p: int,
)
    requires
        0 <= p < n <= lots.len(),
    ensures
        escrowed_upto(lots, bids, key, n) >= escrow_of(history_of(bids, lots[p].tx_hash), key),
    decreases n,
{
    if p < n - 1 {
        lemma_escrowed_upto_covers(lots, bids, key, n - 1, p);
    }
}

/// Where the bids of one lot change, the escrow changes by what that lot
/// holds less and more.
proof fn lemma_escrowed_upto_changed(
    lots: Seq<LotModel>,
    bids: Map<crypto::Hash, Seq<BidModel>>,
    bids2: Map<crypto::Hash, Seq<BidModel>>,
    key: PublicKey,
    n: int,
    p: int,
)
    requires
        0 <= p < lots.len(),
        0 <= n <= lots.len(),
        forall|i: int, j: int|
            0 <= i < j < lots.len() ==> (#[trigger] lots[i]).tx_hash != (
            #[trigger] lots[j]).tx_hash,
        forall|id: crypto::Hash|
            id != lots[p].tx_hash ==> history_of(bids2, id) == #[trigger] history_of(bids, id),
    ensures
        escrowed_upto(lots, bids2, key, n) == if p < n {
            escrowed_upto(lots, bids, key, n) - escrow_of(history_of(bids, lots[p].tx_hash), key)
                + escrow_of(history_of(bids2, lots[p].tx_hash), key)
        } else {
            escrowed_upto(lots, bids, key, n) as int
        },
    decreases n,
{
    if n > 0 {
        lemma_escrowed_upto_changed(lots, bids, bids2, key, n - 1, p);
        if p < n - 1 {
            lemma_escrowed_upto_covers(lots, bids, key, n - 1, p);
        }
        if p != n - 1 {
            assert(lots[n - 1].tx_hash != lots[p].tx_hash) by {
                if p < n - 1 {
                    assert(lots[p].tx_hash != lots[n - 1].tx_hash);
                } else {
                    assert(lots[n - 1].tx_hash != lots[p].tx_hash);
                }
            }
            assert(history_of(bids2, lots[n - 1].tx_hash) == history_of(bids, lots[n - 1].tx_hash));
        }
    }
}

/// Where none of the first `n` lots holds funds of `key`, nothing of `key`
/// is in escrow there.
proof fn lemma_escrowed_upto_nothing(
    lots: Seq<LotModel>,
    bids: Map<crypto::Hash, Seq<BidModel>>,
    key: PublicKey,
    n: int,
)
    requires
        n <= lots.len(),
        forall|i: int| 0 <= i < n ==> escrow_of(history_of(bids, lots[i].tx_hash), key) == 0,
    ensures
        escrowed_upto(lots, bids, key, n) == 0,
    decreases n,
{
    if n > 0 {
        lemma_escrowed_upto_nothing(lots, bids, key, n - 1);
    }
}

/// In a valid ledger a lot is found under its identifier at its position.
proof fn lemma_lot_position(s: LedgerModel, i: int)
    requires
        s.wf(),
        0 <= i < s.lots.len(),
    ensures
        s.has_lot(s.lots[i].tx_hash),
        first_of(lot_ids(s.lots), s.lots[i].tx_hash) == i,
        s.lot(s.lots[i].tx_hash) == Some(s.lots[i]),
{
    let ids = lot_ids(s.lots);
    assert forall|j: int| 0 <= j < i implies ids[j] != s.lots[i].tx_hash by {
        assert(s.lots[j].tx_hash != s.lots[i].tx_hash);
    }
    lemma_first(ids, s.lots[i].tx_hash, i);
}

/// The lot that a ledger finds under an identifier carries it.
proof fn lemma_found_lot(s: LedgerModel, id: crypto::Hash)
    requires
        s.has_lot(id),
    ensures
        0 <= first_of(lot_ids(s.lots), id) < s.lots.len(),
        s.lots[first_of(lot_ids(s.lots), id)].tx_hash == id,
        s.lot(id) == Some(s.lots[first_of(lot_ids(s.lots), id)]),
{
    let ids = lot_ids(s.lots);
    assert(is_first(ids, id, first_of(ids, id)));
}

/// The empty ledger is sound.
pub proof fn lemma_empty_is_sound()
    ensures
        LedgerModel::empty().sound(),
{
    let s = LedgerModel::empty();
    assert forall|key: PublicKey| #[trigger] s.has_wallet(key) implies s.wallets[key].frozen
        == s.escrowed(key) by {}
}

/// Storing a wallet for a key that has none keeps the ledger sound.
proof fn lemma_create_wallet_keeps_sound(
    s: LedgerModel,
    pub_key: PublicKey,
    name: Seq<char>,
    balance: nat,
)
    requires
        s.sound(),
        !s.has_wallet(pub_key),
    ensures
        s.create_wallet(pub_key, name, balance).sound(),
{
    let t = s.create_wallet(pub_key, name, balance);
    assert forall|id: crypto::Hash| #[trigger] t.history(id).len() > 0 implies t.has_lot(id) by {
        assert(s.history(id).len() > 0);
    }
    assert forall|id: crypto::Hash, j: int| 0 <= j < t.history(id).len() implies t.has_wallet(
        (#[trigger] t.history(id)[j]).owner,
    ) by {
        assert(s.has_wallet(s.history(id)[j].owner));
    }
    assert forall|i: int| 0 <= i < t.lots.len() implies bids_in_order(
        #[trigger] t.lots[i],
        t.history(t.lots[i].tx_hash),
    ) by {
        assert(bids_in_order(s.lots[i], s.history(s.lots[i].tx_hash)));
    }
    assert forall|key: PublicKey| #[trigger] t.has_wallet(key) implies t.wallets[key].frozen
        == t.escrowed(key) by {
        if key == pub_key {
            assert forall|i: int| 0 <= i < s.lots.len() implies escrow_of(
                history_of(s.bids, s.lots[i].tx_hash),
                key,
            ) == 0 by {
                let history = s.history(s.lots[i].tx_hash);
                if history.len() > 0 && history.last().owner == key {
                    assert(s.has_wallet(history[history.len() - 1].owner));
                }
            }
            lemma_escrowed_upto_nothing(s.lots, s.bids, key, s.lots.len() as int);
        } else {
            assert(s.has_wallet(key));
        }
    }
}

/// Storing a lot under an identifier that no lot carries keeps the ledger
/// sound.
proof fn lemma_create_lot_keeps_sound(
    s: LedgerModel,
    owner: PublicKey,
    name: Seq<char>,
    min_bid: nat,
    hash: crypto::Hash,
)
    requires
        s.sound(),
        !s.has_lot(hash),
    ensures
        s.create_lot(owner, name, min_bid, hash).sound(),
{
    let t = s.create_lot(owner, name, min_bid, hash);
    let lot = LotModel { owner, name, min_bid, tx_hash: hash };
    let n = s.lots.len() as int;
    assert(t.lots == s.lots.push(lot));
    assert(lot_ids(t.lots) =~= lot_ids(s.lots).push(hash));
    assert forall|i: int| 0 <= i < n implies (#[trigger] s.lots[i]).tx_hash != hash by {
        if s.lots[i].tx_hash == hash {
            lemma_occurs(lot_ids(s.lots), hash, i);
        }
    }
    assert(t.wf());
    assert forall|id: crypto::Hash| #[trigger] t.history(id).len() > 0 implies t.has_lot(id) by {
        assert(s.history(id).len() > 0);
        lemma_push(lot_ids(s.lots), hash, id);
    }
    assert forall|id: crypto::Hash, j: int| 0 <= j < t.history(id).len() implies t.has_wallet(
        (#[trigger] t.history(id)[j]).owner,
    ) by {
        assert(s.has_wallet(s.history(id)[j].owner));
    }
    assert(s.history(hash).len() == 0);
    assert forall|i: int| 0 <= i < t.lots.len() implies bids_in_order(
        #[trigger] t.lots[i],
        t.history(t.lots[i].tx_hash),
    ) by {
        if i < n {
            assert(bids_in_order(s.lots[i], s.history(s.lots[i].tx_hash)));
        }
    }
    assert forall|key: PublicKey| #[trigger] t.has_wallet(key) implies t.wallets[key].frozen
        == t.escrowed(key) by {
        assert(s.has_wallet(key));
        lemma_escrowed_upto_same(t.lots, t.bids, s.lots, s.bids, key, n);
    }
}

/// What the wallets hold after a bid that the ledger accepts: the same
/// wallets as before, of which the one that held the active bid has its
/// amount less in escrow and the bidder's has the new amount more.
proof fn lemma_accepted_bid_wallets(
    s: LedgerModel,
    owner: PublicKey,
    lot: crypto::Hash,
    amount: nat,
    hash: crypto::Hash,
)
    requires
        s.wf(),
        s.bidders_hold_wallets(),
        s.escrow_is_backed(),
        s.bid_error(owner, lot, amount) is None,
    ensures
        s.has_wallet(owner),
        forall|key: PublicKey|
            s.place_bid(owner, lot, amount, hash).has_wallet(key) == #[trigger] s.has_wallet(key),
        forall|key: PublicKey| #[trigger]
            s.has_wallet(key) ==> {
                let after = s.place_bid(owner, lot, amount, hash).wallets[key];
                &&& after.pub_key == key
                &&& after.frozen == s.wallets[key].frozen - escrow_of(s.history(lot), key) + (
                if key == owner {
                    amount
                } else {
                    0
                })
            },
{
    let t = s.place_bid(owner, lot, amount, hash);
    let released = s.release_active(lot);
    let history = s.history(lot);
    lemma_found_lot(s, lot);
    let p = first_of(lot_ids(s.lots), lot);
    assert(s.place_bid_error(owner, lot, amount) is None);
    if history.len() > 0 {
        let active = history.last();
        assert(s.last_bid(lot) == Some(active));
        assert(s.has_wallet(history[history.len() - 1].owner));
        assert(s.wallets[active.owner].pub_key == active.owner);
        assert(released.wallets == s.wallets.insert(
            active.owner,
            s.wallets[active.owner].release(active.amount),
        ));
        lemma_escrowed_upto_covers(s.lots, s.bids, active.owner, s.lots.len() as int, p);
        assert(s.wallets[active.owner].frozen == s.escrowed(active.owner));
        assert(s.wallets[active.owner].frozen >= active.amount);
    } else {
        assert(s.last_bid(lot) is None);
        assert(released == s);
    }
    assert(released.has_wallet(owner));
    assert(s.has_wallet(owner));
    assert(released.wallets[owner].pub_key == owner);
    assert(t.wallets == released.wallets.insert(owner, released.wallets[owner].freeze(amount)));
}

/// After a bid that the ledger accepts, bids still belong to lots and
/// bidders still hold wallets.
proof fn lemma_accepted_bid_bidders(
    s: LedgerModel,
    t: LedgerModel,
    lot: crypto::Hash,
    bid: BidModel,
)
    requires
        s.bids_belong_to_lots(),
        s.bidders_hold_wallets(),
        s.has_lot(lot),
        t.lots == s.lots,
        t.bids == s.bids.insert(lot, s.history(lot).push(bid)),
        forall|key: PublicKey| t.has_wallet(key) == #[trigger] s.has_wallet(key),
        s.has_wallet(bid.owner),
    ensures
        t.bids_belong_to_lots(),
        t.bidders_hold_wallets(),
{
    let history = s.history(lot);
    assert forall|id: crypto::Hash| #[trigger] t.history(id).len() > 0 implies t.has_lot(id) by {
        if id != lot {
            assert(s.history(id).len() > 0);
        }
    }
    assert forall|id: crypto::Hash, j: int| 0 <= j < t.history(id).len() implies t.has_wallet(
        (#[trigger] t.history(id)[j]).owner,
    ) by {
        if id != lot {
            assert(s.has_wallet(s.history(id)[j].owner));
        } else if j < history.len() {
            assert(s.has_wallet(s.history(id)[j].owner));
        }
    }
}

/// After a bid that exceeds the active bid of its lot, meets the lot's
/// minimum and is not the lot owner's, the bids of every lot are in order.
proof fn lemma_accepted_bid_order(
    s: LedgerModel,
    t: LedgerModel,
    lot: crypto::Hash,
    bid: BidModel,
)
    requires
        s.wf(),
        s.bidding_is_monotonic(),
        s.lot_error(bid.owner, lot, bid.amount) is None,
        s.history(lot).len() > 0 ==> s.history(lot).last().amount < bid.amount,
        t.lots == s.lots,
        t.bids == s.bids.insert(lot, s.history(lot).push(bid)),
    ensures
        t.bidding_is_monotonic(),
{
    let history = s.history(lot);
    lemma_found_lot(s, lot);
    let p = first_of(lot_ids(s.lots), lot);
    let found = s.lots[p];
    assert forall|i: int| 0 <= i < t.lots.len() implies bids_in_order(
        #[trigger] t.lots[i],
        t.history(t.lots[i].tx_hash),
    ) by {
        assert(bids_in_order(s.lots[i], s.history(s.lots[i].tx_hash)));
        if s.lots[i].tx_hash == lot {
            lemma_lot_position(s, i);
            assert(i == p);
            let after = history.push(bid);
            assert(t.history(lot) == after);
            assert forall|j: int, k: int| 0 <= j < k < after.len() implies (
            #[trigger] after[j]).amount < (#[trigger] after[k]).amount by {
                if k < history.len() {
                    assert(history[j].amount < history[k].amount);
                } else if j < history.len() - 1 {
                    assert(history[j].amount < history[history.len() - 1].amount);
                }
            }
            assert forall|j: int| 0 <= j < after.len() implies (#[trigger] after[j]).owner
                != found.owner by {
                if j < history.len() {
                    assert(history[j].owner != found.owner);
                }
            }
        } else {
            assert(t.history(s.lots[i].tx_hash) == s.history(s.lots[i].tx_hash));
        }
    }
}

/// After a bid on `lot` that moved the escrow as `lemma_accepted_bid_wallets`
/// says, what each wallet has frozen is still what its owner's active bids
/// hold.
proof fn lemma_accepted_bid_escrow(
    s: LedgerModel,
    t: LedgerModel,
    lot: crypto::Hash,
    bid: BidModel,
)
    requires
        s.wf(),
        s.escrow_is_backed(),
        s.has_lot(lot),
        t.lots == s.lots,
        t.bids == s.bids.insert(lot, s.history(lot).push(bid)),
        forall|key: PublicKey| t.has_wallet(key) == #[trigger] s.has_wallet(key),
        forall|key: PublicKey| #[trigger]
            s.has_wallet(key) ==> t.wallets[key].frozen == s.wallets[key].frozen - escrow_of(
                s.history(lot),
                key,
            ) + (if key == bid.owner {
                bid.amount
            } else {
                0
            }),
    ensures
        t.escrow_is_backed(),
{
    lemma_found_lot(s, lot);
    let p = first_of(lot_ids(s.lots), lot);
    assert forall|key: PublicKey| #[trigger] t.has_wallet(key) implies t.wallets[key].frozen
        == t.escrowed(key) by {
        assert(s.has_wallet(key));
        assert(s.wallets[key].frozen == s.escrowed(key));
        assert forall|id: crypto::Hash| id != s.lots[p].tx_hash implies history_of(t.bids, id)
            == #[trigger] history_of(s.bids, id) by {}
        lemma_escrowed_upto_changed(s.lots, s.bids, t.bids, key, s.lots.len() as int, p);
        assert(history_of(t.bids, lot) == s.history(lot).push(bid));
    }
}

/// A bid that the ledger accepts keeps it sound.
proof fn lemma_place_bid_keeps_sound(
    s: LedgerModel,
    owner: PublicKey,
    lot: crypto::Hash,
    amount: nat,
    hash: crypto::Hash,
)
    requires
        s.sound(),
        s.bid_error(owner, lot, amount) is None,
    ensures
        s.place_bid(owner, lot, amount, hash).sound(),
{
    let t = s.place_bid(owner, lot, amount, hash);
    let bid = BidModel { owner, amount, tx_hash: hash };
    lemma_accepted_bid_wallets(s, owner, lot, amount, hash);
    assert(s.place_bid_error(owner, lot, amount) is None);
    assert(s.lot_error(owner, lot, amount) is None);
    assert(s.has_lot(lot));
    assert(t.lots == s.lots);
    assert(t.bids == s.bids.insert(lot, s.history(lot).push(bid)));
    assert(s.history(lot).len() > 0 ==> s.history(lot).last().amount < amount) by {
        if s.history(lot).len() > 0 {
            assert(s.last_bid(lot) == Some(s.history(lot).last()));
        }
    }
    lemma_accepted_bid_bidders(s, t, lot, bid);
    lemma_accepted_bid_order(s, t, lot, bid);
    lemma_accepted_bid_escrow(s, t, lot, bid);
    assert(t.wf()) by {
        assert forall|key: PublicKey| #[trigger]
            t.wallets.contains_key(key) implies t.wallets[key].pub_key == key by {
            assert(s.has_wallet(key));
        }
    }
}

/// The invariant holds after every transaction.
///
/// A ledger that is sound stays sound when a transaction that the host may
/// deliver to it is applied: every bid on a lot exceeds the one before it
/// and the first meets the lot's minimum, and what a wallet has frozen is
/// the sum, over the lots, of the active bids that its owner holds.
pub proof fn lemma_apply_keeps_sound(s: LedgerModel, tx: TransactionModel)
    requires
        s.sound(),
        s.admits(tx),
    ensures
        s.apply(tx).sound(),
{
    if s.error_of(tx) is None {
        match tx {
            TransactionModel::CreateWallet { pub_key, name, balance, .. } => {
                lemma_create_wallet_keeps_sound(s, pub_key, name, balance);
            },
            TransactionModel::CreateLot { owner, name, min_bid, hash } => {
                lemma_create_lot_keeps_sound(s, owner, name, min_bid, hash);
            },
            TransactionModel::PlaceBid { owner, lot, amount, hash } => {
                lemma_place_bid_keeps_sound(s, owner, lot, amount, hash);
            },
        }
    }
}

/// The invariant holds after every sequence of transactions that the host
/// may deliver in turn.
pub proof fn lemma_run_keeps_sound(s: LedgerModel, txs: Seq<TransactionModel>)
    requires
        s.sound(),
        s.admits_all(txs),
    ensures
        s.run(txs).sound(),
    decreases txs.len(),
{
    if txs.len() > 0 {
        lemma_run_keeps_sound(s, txs.drop_last());
        lemma_apply_keeps_sound(s.run(txs.drop_last()), txs.last());
    }
}

/// Monotonic bidding: in a sound ledger the bids on a lot meet the lot's
/// minimum, and each exceeds every bid placed on the lot before it.
pub proof fn lemma_monotonic_bidding(s: LedgerModel, id: crypto::Hash, j: int, k: int)
    requires
        s.sound(),
        0 <= j < k < s.history(id).len(),
    ensures
        s.lot(id) is Some,
        s.lot(id)->0.min_bid <= s.history(id)[j].amount < s.history(id)[k].amount,
{
    assert(s.history(id).len() > 0);
    lemma_found_lot(s, id);
    let p = first_of(lot_ids(s.lots), id);
    assert(bids_in_order(s.lots[p], s.history(s.lots[p].tx_hash)));
    if j > 0 {
        assert(s.history(id)[0].amount < s.history(id)[j].amount);
    }
}

/// Single active escrow: in a sound ledger a lot holds funds of one wallet
/// at most, that of the bidder of its newest bid, and holds exactly the
/// amount of that bid, which the wallet has frozen.
pub proof fn lemma_single_active_escrow(s: LedgerModel, id: crypto::Hash, key: PublicKey)
    requires
        s.sound(),
        s.has_lot(id),
    ensures
        escrow_of(s.history(id), key) > 0 ==> s.last_bid(id) is Some && s.last_bid(id)->0.owner
            == key,
        s.last_bid(id) is Some && s.last_bid(id)->0.owner == key ==> {
            &&& escrow_of(s.history(id), key) == s.last_bid(id)->0.amount
            &&& s.has_wallet(key)
            &&& s.wallets[key].frozen == s.escrowed(key)
            &&& s.escrowed(key) >= s.last_bid(id)->0.amount
        },
{
    if s.last_bid(id) is Some && s.last_bid(id)->0.owner == key {
        let history = s.history(id);
        assert(s.has_wallet(history[history.len() - 1].owner));
        lemma_found_lot(s, id);
        lemma_escrowed_upto_covers(
            s.lots,
            s.bids,
            key,
            s.lots.len() as int,
            first_of(lot_ids(s.lots), id),
        );
    }
}

/// A transaction keeps the ledger structurally valid.
pub proof fn lemma_apply_keeps_wf(s: LedgerModel, tx: TransactionModel)
    requires
        s.wf(),
    ensures
        s.apply(tx).wf(),
{
    if s.error_of(tx) is None {
        match tx {
            TransactionModel::CreateWallet { .. } => {},
            TransactionModel::CreateLot { owner, name, min_bid, hash } => {
                let lot = LotModel { owner, name, min_bid, tx_hash: hash };
                let t = s.apply(tx);
                if s.has_lot(hash) {
                    lemma_found_lot(s, hash);
                } else {
                    assert forall|i: int| 0 <= i < s.lots.len() implies (
                    #[trigger] s.lots[i]).tx_hash != hash by {
                        if s.lots[i].tx_hash == hash {
                            lemma_occurs(lot_ids(s.lots), hash, i);
                        }
                    }
                }
            },
            TransactionModel::PlaceBid { owner, lot, amount, hash } => {
                let released = s.release_active(lot);
                assert(released.wf());
            },
        }
    }
}

/// A transaction neither removes a wallet nor changes what it owns in all,
/// nor its name: funds only move between its balance and its escrow.
pub proof fn lemma_apply_conserves(s: LedgerModel, tx: TransactionModel, key: PublicKey)
    requires
        s.wallets_keyed(),
        s.has_wallet(key),
    ensures
        s.apply(tx).wallets_keyed(),
        s.apply(tx).has_wallet(key),
        s.apply(tx).wallets[key].total() == s.wallets[key].total(),
        s.apply(tx).wallets[key].name == s.wallets[key].name,
{
    if s.error_of(tx) is None {
        match tx {
            TransactionModel::CreateWallet { .. } => {},
            TransactionModel::CreateLot { .. } => {},
            TransactionModel::PlaceBid { owner, lot, amount, hash } => {
                let released = s.release_active(lot);
                assert(released.wallets_keyed());
                assert(released.has_wallet(key));
                assert(released.wallets[key].total() == s.wallets[key].total());
                assert(released.wallets[key].name == s.wallets[key].name);
            },
        }
    }
}

/// Conservation: from its creation on, whatever transactions follow, what a
/// wallet holds as balance and in escrow together is the balance it was
/// created with.
pub proof fn lemma_conservation(
    s: LedgerModel,
    creation: TransactionModel,
    later: Seq<TransactionModel>,
)
    requires
        s.wallets_keyed(),
        creation is CreateWallet,
        s.error_of(creation) is None,
    ensures
        s.apply(creation).run(later).has_wallet(creation->CreateWallet_pub_key),
        s.apply(creation).run(later).wallets[creation->CreateWallet_pub_key].total()
            == creation->CreateWallet_balance,
        s.apply(creation).run(later).wallets_keyed(),
    decreases later.len(),
{
    let key = creation->CreateWallet_pub_key;
    if later.len() > 0 {
        lemma_conservation(s, creation, later.drop_last());
        let before = s.apply(creation).run(later.drop_last());
        lemma_apply_conserves(before, later.last(), key);
    }
}

/// Atomicity under failure: a transaction that fails changes nothing. In
/// particular a bid that its bidder cannot cover leaves the escrow of the
/// active bid with the wallet that holds it.
pub proof fn lemma_failure_changes_nothing(s: LedgerModel, tx: TransactionModel)
    requires
        s.error_of(tx) is Some,
    ensures
        s.apply(tx) == s,
        forall|key: PublicKey| s.apply(tx).wallet(key) == s.wallet(key),
        forall|id: crypto::Hash| s.apply(tx).history(id) == s.history(id),
{
}

/// A bid that its bidder cannot cover has, at the point where it fails,
/// released the escrow of the active bid in the view it ran on. Applied as
/// one step it leaves the ledger as it was: the release is undone with the
/// rest.
pub proof fn lemma_uncovered_bid_is_undone(s: LedgerModel, tx: TransactionModel)
    requires
        tx is PlaceBid,
        s.error_of(tx) == Some(Error::InsufficientCurrencyAmount),
    ensures
        s.executed(tx) == s.release_active(tx->PlaceBid_lot),
        s.apply(tx) == s,
{
}

/// Idempotent wallet creation: of two transactions that create a wallet for
/// the same key the second fails because the wallet exists, and leaves the
/// ledger as the first left it.
pub proof fn lemma_create_wallet_twice(
    s: LedgerModel,
    first: TransactionModel,
    second: TransactionModel,
)
    requires
        first is CreateWallet,
        second is CreateWallet,
        first->CreateWallet_pub_key == second->CreateWallet_pub_key,
    ensures
        s.apply(first).error_of(second) == Some(Error::WalletAlreadyExists),
        s.apply(first).apply(second) == s.apply(first),
        s.error_of(first) is None ==> s.apply(first).wallet(first->CreateWallet_pub_key) == Some(
            WalletModel {
                pub_key: first->CreateWallet_pub_key,
                name: first->CreateWallet_name,
                balance: first->CreateWallet_balance,
                frozen: 0,
            },
        ),
{
}

/// Lots are immutable and bids are only appended: a transaction that the
/// host may deliver leaves every lot as it is, and leaves of every history
/// the bids that were there, in their places.
pub proof fn lemma_apply_keeps_lots_and_bids(s: LedgerModel, tx: TransactionModel, id: crypto::Hash)
    requires
        s.admits(tx),
    ensures
        s.has_lot(id) ==> s.apply(tx).lot(id) == s.lot(id),
        s.history(id).is_prefix_of(s.apply(tx).history(id)),
        s.last_bid(id) is Some ==> s.apply(tx).last_bid(id) is Some,
{
    if s.error_of(tx) is None {
        match tx {
            TransactionModel::CreateWallet { .. } => {},
            TransactionModel::CreateLot { hash, .. } => {
                lemma_push(lot_ids(s.lots), hash, id);
                assert(lot_ids(s.apply(tx).lots) =~= lot_ids(s.lots).push(hash));
                if s.has_lot(id) {
                    lemma_found_lot(s, id);
                }
            },
            TransactionModel::PlaceBid { .. } => {},
        }
    }
}

/// Whether no two of `txs` carry the same identifier.
pub open spec fn distinct_hashes(txs: Seq<TransactionModel>) -> bool {
    forall|i: int, j: int|
        0 <= i < j < txs.len() ==> (#[trigger] txs[i]).hash() != (#[trigger] txs[j]).hash()
}

/// A lot of a ledger that grew from the empty one carries the identifier of
/// one of the transactions that were applied.
proof fn lemma_lots_come_from_transactions(txs: Seq<TransactionModel>, id: crypto::Hash)
    requires
        LedgerModel::empty().run(txs).has_lot(id),
    ensures
        exists|i: int| 0 <= i < txs.len() && (#[trigger] txs[i]).hash() == id,
    decreases txs.len(),
{
    if txs.len() == 0 {
        let ids = lot_ids(LedgerModel::empty().lots);
        assert(is_first(ids, id, first_of(ids, id)));
    } else {
        let before = LedgerModel::empty().run(txs.drop_last());
        let tx = txs.last();
        if before.has_lot(id) {
            lemma_lots_come_from_transactions(txs.drop_last(), id);
            let i = choose|i: int|
                0 <= i < txs.drop_last().len() && (#[trigger] txs.drop_last()[i]).hash() == id;
            assert(txs[i].hash() == id);
        } else {
            assert(before.apply(tx) != before);
            match tx {
                TransactionModel::CreateWallet { .. } => {},
                TransactionModel::CreateLot { hash, .. } => {
                    if before.has_lot(hash) {
                        lemma_found_lot(before, hash);
                        assert(lot_ids(before.apply(tx).lots) =~= lot_ids(before.lots));
                    } else {
                        assert(lot_ids(before.apply(tx).lots) =~= lot_ids(before.lots).push(hash));
                        lemma_push(lot_ids(before.lots), hash, id);
                    }
                    assert(txs[txs.len() - 1].hash() == id);
                },
                TransactionModel::PlaceBid { .. } => {},
            }
        }
    }
}

/// Transactions of which no two carry the same identifier can be delivered
/// in turn to the empty ledger.
proof fn lemma_distinct_hashes_are_admitted(txs: Seq<TransactionModel>)
    requires
        distinct_hashes(txs),
    ensures
        LedgerModel::empty().admits_all(txs),
    decreases txs.len(),
{
    if txs.len() > 0 {
        let earlier = txs.drop_last();
        assert(distinct_hashes(earlier)) by {
            assert forall|i: int, j: int| 0 <= i < j < earlier.len() implies (
            #[trigger] earlier[i]).hash() != (#[trigger] earlier[j]).hash() by {
                assert(txs[i].hash() != txs[j].hash());
            }
        }
        lemma_distinct_hashes_are_admitted(earlier);
        let before = LedgerModel::empty().run(earlier);
        if before.has_lot(txs.last().hash()) {
            lemma_lots_come_from_transactions(earlier, txs.last().hash());
            let i = choose|i: int|
                0 <= i < earlier.len() && (#[trigger] earlier[i]).hash() == txs.last().hash();
            assert(txs[i].hash() != txs[txs.len() - 1].hash());
        }
    }
}

/// Every ledger that the host can bring about is sound: whatever
/// transactions it delivers to the empty ledger, as long as no two of them
/// carry the same identifier.
pub proof fn lemma_reachable_is_sound(txs: Seq<TransactionModel>)
    requires
        distinct_hashes(txs),
    ensures
        LedgerModel::empty().run(txs).sound(),
{
    lemma_empty_is_sound();
    lemma_distinct_hashes_are_admitted(txs);
    lemma_run_keeps_sound(LedgerModel::empty(), txs);
}

} // verus!
