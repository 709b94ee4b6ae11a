//! The wallet's ledger-sync state and the ordered event feed that drives it.
//!
//! Events are applied strictly in delivery order: the logical clock `now`
//! names the next event the state expects, and every applied event advances
//! it by exactly one. A subscription cursor resumes a feed at the first
//! unconsumed position; malformed messages are dropped without consuming a
//! position, and an event out of order is a protocol violation.

use vstd::prelude::*;
use crate::errors::LedgerError;
use crate::nullifier::{apply_tr, NullifierSet};

verus! {

/// What an event announces.
#[derive(Clone, PartialEq, Eq, Debug)]
pub enum EventBody {
    /// A block committed: the ledger state commitment after it, the
    /// nullifier-set root after it, the nullifiers it spent, and how many
    /// output records it appended.
    Commit { state_commitment: u64, nullifier_root: u64, spent: Vec<u64>, new_records: u64 },
    /// Receiver memos were posted for a committed transaction.
    Memos { block_id: u64, txn_id: u64 },
    /// A submitted transaction was rejected.
    Reject,
}

/// One ledger event, addressed by its position in the feed.
#[derive(Clone, PartialEq, Eq, Debug)]
pub struct LedgerEvent {
    pub index: u64,
    pub body: EventBody,
}

/// A resumable subscription: the cursor names the next event not yet
/// consumed, so resubscribing resumes rather than restarts.
pub struct Subscription {
    pub cursor: u64,
}

impl Subscription {
    pub fn subscribe(starting_at: u64) -> (s: Self)
        ensures
            s.cursor == starting_at,
    {
        Subscription { cursor: starting_at }
    }

    /// Consume one delivered message. A message that did not decode is
    /// dropped without consuming a position; the expected next event is
    /// delivered and the cursor advances by one; a decoded event out of
    /// order is a protocol violation and consumes nothing.
    pub fn accept(&mut self, decoded: Option<LedgerEvent>) -> (r: Result<
        Option<LedgerEvent>,
        LedgerError,
    >)
        requires
            old(self).cursor < u64::MAX,
        ensures
            match decoded {
                None => r matches Ok(d) && d is None && *final(self) == *old(self),
                Some(e) => if e.index == old(self).cursor {
                    r matches Ok(d) && d == Some(e) && final(self).cursor == old(self).cursor + 1
                } else {
                    r matches Err(err) && err == LedgerError::ProtocolViolation && *final(self)
                        == *old(self)
                },
            },
    {
        match decoded {
            None => Ok(None),
            Some(e) => {
                if e.index == self.cursor {
                    self.cursor = self.cursor + 1;
                    Ok(Some(e))
                } else {
                    Err(LedgerError::ProtocolViolation)
                }
            },
        }
    }
}

/// Every index in the feed is consecutive from `start`.
pub open spec fn indices_consecutive(es: Seq<LedgerEvent>, start: u64) -> bool {
    forall|k: int| 0 <= k < es.len() ==> (#[trigger] es[k]).index == start + k
}

/// The cursor after consuming a whole feed in order, or `None` where some
/// event arrived out of order.
pub open spec fn run_cursor(start: u64, es: Seq<LedgerEvent>) -> Option<int>
    decreases es.len(),
{
    if es.len() == 0 {
        Some(start as int)
    } else {
        match run_cursor(start, es.drop_last()) {
            Some(c) => if es.last().index == c {
                Some(c + 1)
            } else {
                None
            },
            None => None,
        }
    }
}

proof fn lemma_run_cursor_len(start: u64, es: Seq<LedgerEvent>)
    ensures
        run_cursor(start, es) matches Some(c) ==> c == start + es.len(),
    decreases es.len(),
{
    if es.len() > 0 {
        lemma_run_cursor_len(start, es.drop_last());
    }
}

/// Law (ordered delivery): a feed consumes cleanly — every event accepted,
/// the cursor advancing exactly one position per event, no gaps and no
/// duplicates — exactly when it delivers consecutive indices starting at the
/// cursor.
pub proof fn lemma_ordered_delivery(start: u64, es: Seq<LedgerEvent>)
    requires
        start + es.len() <= u64::MAX,
    ensures
        (run_cursor(start, es) == Some(start + es.len())) <==> indices_consecutive(es, start),
    decreases es.len(),
{
    if es.len() > 0 {
        lemma_ordered_delivery(start, es.drop_last());
        lemma_run_cursor_len(start, es.drop_last());
        if indices_consecutive(es, start) {
            assert forall|k: int|
                0 <= k < es.drop_last().len() implies (#[trigger] es.drop_last()[k]).index == start
                + k by {
                assert(es.drop_last()[k] == es[k]);
            }
            assert(es.last().index == start + es.len() - 1);
        }
        if run_cursor(start, es) == Some(start + es.len() as int) {
            assert forall|k: int| 0 <= k < es.len() implies (#[trigger] es[k]).index == start
                + k by {
                if k < es.len() - 1 {
                    assert(es[k] == es.drop_last()[k]);
                } else {
                    assert(es[k] == es.last());
                }
            }
        }
    }
}

/// The wallet's ledger-sync state: the validator's last commitment, the
/// partial nullifier view, the record tree's leaf count, the bootstrap leaf
/// scheduled for forgetting, and the logical clock.
pub struct WalletSyncState {
    pub validator_commitment: u64,
    pub nullifiers: NullifierSet,
    pub record_leaf_count: u64,
    pub merkle_leaf_to_forget: Option<u64>,
    pub now: u64,
}

impl WalletSyncState {
    /// Apply one delivered event, strictly in order: the event's index must
    /// equal the clock, and the clock advances by exactly one. A commit
    /// adopts the block's commitments, marks its spent nullifiers under the
    /// new root, counts its new records and — once new leaves have arrived —
    /// releases the bootstrap leaf scheduled for forgetting, handing its
    /// index back so the caller prunes it from the record tree.
    pub fn apply_event(&mut self, e: &LedgerEvent) -> (r: Result<Option<u64>, LedgerError>)
        requires
            old(self).now < u64::MAX,
        ensures
            e.index != old(self).now ==> (r matches Err(err) && err
                == LedgerError::ProtocolViolation && *final(self) == *old(self)),
            e.index == old(self).now ==> match e.body {
                EventBody::Commit { state_commitment, nullifier_root, spent, new_records } => ({
                    let overflow = old(self).record_leaf_count + new_records > u64::MAX;
                    let root_clash = spent@.len() > 0 && nullifier_root == old(self).nullifiers.root_spec();
                    if overflow || root_clash {
                        r matches Err(err) && err == LedgerError::ProtocolViolation && *final(self)
                            == *old(self)
                    } else {
                        &&& final(self).now == old(self).now + 1
                        &&& final(self).validator_commitment == state_commitment
                        &&& final(self).record_leaf_count == old(self).record_leaf_count
                            + new_records
                        &&& final(self).nullifiers.state_spec() == apply_tr(
                            old(self).nullifiers.state_spec(),
                            (nullifier_root, spent@),
                        )
                        &&& if new_records > 0 && old(self).merkle_leaf_to_forget is Some {
                            r == Ok::<Option<u64>, LedgerError>(old(self).merkle_leaf_to_forget)
                                && final(self).merkle_leaf_to_forget is None
                        } else {
                            r == Ok::<Option<u64>, LedgerError>(None) && final(self).merkle_leaf_to_forget == old(self).merkle_leaf_to_forget
                        }
                    }
                }),
                _ => r == Ok::<Option<u64>, LedgerError>(None) && final(self).now == old(self).now
                    + 1 && final(self).validator_commitment == old(self).validator_commitment
                    && final(self).nullifiers == old(self).nullifiers && final(self).record_leaf_count == old(self).record_leaf_count && final(self).merkle_leaf_to_forget == old(self).merkle_leaf_to_forget,
            },
    {
        if e.index != self.now {
            return Err(LedgerError::ProtocolViolation);
        }
        match &e.body {
            EventBody::Commit { state_commitment, nullifier_root, spent, new_records } => {
                let new_count = match self.record_leaf_count.checked_add(*new_records) {
                    Some(c) => c,
                    None => {
                        return Err(LedgerError::ProtocolViolation);
                    },
                };
                match self.nullifiers.apply_spent(*nullifier_root, spent) {
                    Ok(()) => {},
                    Err(_) => {
                        return Err(LedgerError::ProtocolViolation);
                    },
                }
                self.validator_commitment = *state_commitment;
                self.record_leaf_count = new_count;
                self.now = self.now + 1;
                if *new_records > 0 {
                    match self.merkle_leaf_to_forget {
                        Some(l) => {
                            self.merkle_leaf_to_forget = None;
                            Ok(Some(l))
                        },
                        None => Ok(None),
                    }
                } else {
                    Ok(None)
                }
            },
            _ => {
                self.now = self.now + 1;
                Ok(None)
            },
        }
    }
}

} // verus!
