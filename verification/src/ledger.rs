//! Reconstruction of committed ledger history from authority responses.
//!
//! The authority answers a block query with four parallel sequences
//! (transactions, proofs, memos, uids). Equal lengths are its own invariant;
//! this module checks that invariant once at the boundary and joins the
//! sequences into one sequence of committed transactions. A mismatch is a
//! named protocol violation, never an indexing panic. Snapshot `i + 1` holds
//! the state commitment that results from applying block `i`, so a block is
//! assembled from block `i` and snapshot `i + 1`.

use vstd::prelude::*;
use crate::address::{BlockId, TransactionId};
use crate::errors::LedgerError;
use crate::util::copy_bytes;

verus! {

/// One transaction's payload as the authority publishes it: opaque bytes and
/// the commitments of its outputs.
#[derive(Clone, PartialEq, Eq, Debug)]
pub struct TransactionData {
    pub payload: Vec<u8>,
    pub output_commitments: Vec<u64>,
}

/// Receiver memos with the signature that entitles their poster to attach
/// them to a specific transaction's outputs.
#[derive(Clone, PartialEq, Eq, Debug)]
pub struct SignedMemos {
    pub memos: Vec<Vec<u8>>,
    pub signature: Vec<u8>,
}

/// A committed transaction: its address, payload, validity proofs, the uids
/// assigned to its outputs, and memos once they are posted.
#[derive(Clone, PartialEq, Eq, Debug)]
pub struct CommittedTransaction {
    pub id: TransactionId,
    pub data: TransactionData,
    pub proofs: Vec<u8>,
    pub output_uids: Vec<u64>,
    pub output_memos: Option<Vec<Vec<u8>>>,
    pub memos_signature: Option<Vec<u8>>,
}

/// A committed block: its address, content hash, the ledger state commitment
/// after applying it, and its transactions in order.
#[derive(Clone, PartialEq, Eq, Debug)]
pub struct CommittedBlock {
    pub id: BlockId,
    pub index: u64,
    pub hash: u64,
    pub state_commitment: u64,
    pub transactions: Vec<CommittedTransaction>,
}

/// One output of a committed transaction.
#[derive(Clone, PartialEq, Eq, Debug)]
pub struct UnspentRecord {
    pub commitment: u64,
    pub uid: u64,
    pub memo: Option<Vec<u8>>,
}

/// The authority's summary of the ledger.
#[derive(Clone, Copy, PartialEq, Eq, Structural, Debug)]
pub struct LedgerSummary {
    pub num_blocks: u64,
    pub num_txns: u64,
    pub num_records: u64,
    pub num_events: u64,
}

impl CommittedTransaction {
    /// Internal consistency: one uid per output, and posted memos cover the
    /// outputs exactly and come signed.
    pub open spec fn wf(self) -> bool {
        &&& self.output_uids@.len() == self.data.output_commitments@.len()
        &&& (self.output_memos matches Some(m) ==> m@.len()
            == self.data.output_commitments@.len())
        &&& (self.output_memos is Some <==> self.memos_signature is Some)
    }

    pub open spec fn output_count(self) -> int {
        self.data.output_commitments@.len() as int
    }

    pub fn output_len(&self) -> (r: usize)
        ensures
            r == self.output_count(),
    {
        self.data.output_commitments.len()
    }
}

impl CommittedBlock {
    /// Internal consistency: the block knows its own index and every
    /// transaction is well formed and addressed by block index and position.
    pub open spec fn wf(self) -> bool {
        &&& self.id == BlockId(self.index)
        &&& forall|i: int| 0 <= i < self.transactions@.len() ==> (#[trigger] self.transactions@[i]).wf()
            && self.transactions@[i].id == TransactionId(BlockId(self.index), i as u64)
    }
}

/// The authority's invariant on a block response: the four parallel
/// sequences have one element per transaction, and per transaction the uids
/// and any posted memos have one element per output.
pub open spec fn parallel_lengths_ok(
    txns: Seq<TransactionData>,
    proofs: Seq<Vec<u8>>,
    memos: Seq<Option<SignedMemos>>,
    uids: Seq<Vec<u64>>,
) -> bool {
    &&& proofs.len() == txns.len()
    &&& memos.len() == txns.len()
    &&& uids.len() == txns.len()
    &&& forall|i: int| 0 <= i < txns.len() ==> (#[trigger] uids[i])@.len()
        == txns[i].output_commitments@.len()
    &&& forall|i: int| 0 <= i < txns.len() ==> ((#[trigger] memos[i]) matches Some(sm)
        ==> sm.memos@.len() == txns[i].output_commitments@.len())
}

/// One joined record of the four parallel sequences.
pub open spec fn joined_txn_ok(
    t: CommittedTransaction,
    td: TransactionData,
    p: Vec<u8>,
    m: Option<SignedMemos>,
    u: Vec<u64>,
    index: u64,
    i: int,
) -> bool {
    &&& t.id == TransactionId(BlockId(index), i as u64)
    &&& t.data == td
    &&& t.proofs == p
    &&& t.output_uids == u
    &&& match m {
        Some(sm) => t.output_memos == Some(sm.memos) && t.memos_signature == Some(sm.signature),
        None => t.output_memos is None && t.memos_signature is None,
    }
}

/// Join the authority's answer for block `index` (with the state commitment
/// read from snapshot `index + 1`) into one committed block. Succeeds exactly
/// when the authority kept its own length invariant; any mismatch is a fatal
/// protocol violation.
#[verifier::loop_isolation(false)]
pub fn assemble_block(
    index: u64,
    block_hash: u64,
    state_commitment: u64,
    txns: Vec<TransactionData>,
    proofs: Vec<Vec<u8>>,
    memos: Vec<Option<SignedMemos>>,
    uids: Vec<Vec<u64>>,
) -> (r: Result<CommittedBlock, LedgerError>)
    ensures
        r is Ok <==> parallel_lengths_ok(txns@, proofs@, memos@, uids@),
        r matches Err(e) ==> e == LedgerError::ProtocolViolation,
        r matches Ok(b) ==> ({
            &&& b.wf()
            &&& b.id == BlockId(index)
            &&& b.index == index
            &&& b.hash == block_hash
            &&& b.state_commitment == state_commitment
            &&& b.transactions@.len() == txns@.len()
            &&& forall|i: int| 0 <= i < txns@.len() ==> joined_txn_ok(
                #[trigger] b.transactions@[i],
                txns@[i],
                proofs@[i],
                memos@[i],
                uids@[i],
                index,
                i,
            )
        }),
{
    let ghost gt = txns@;
    let ghost gp = proofs@;
    let ghost gm = memos@;
    let ghost gu = uids@;
    let n = txns.len();
    if proofs.len() != n || memos.len() != n || uids.len() != n {
        return Err(LedgerError::ProtocolViolation);
    }
    let mut txns = txns;
    let mut proofs = proofs;
    let mut memos = memos;
    let mut uids = uids;
    let mut out: Vec<CommittedTransaction> = Vec::new();
    let mut i: usize = 0;
    while i < n
        invariant
            0 <= i <= n,
            n == gt.len(),
            gp.len() == n && gm.len() == n && gu.len() == n,
            txns@ == gt.subrange(i as int, n as int),
            proofs@ == gp.subrange(i as int, n as int),
            memos@ == gm.subrange(i as int, n as int),
            uids@ == gu.subrange(i as int, n as int),
            out@.len() == i,
            forall|j: int| 0 <= j < i ==> joined_txn_ok(
                #[trigger] out@[j],
                gt[j],
                gp[j],
                gm[j],
                gu[j],
                index,
                j,
            ),
            forall|j: int| 0 <= j < i ==> (#[trigger] out@[j]).wf(),
            forall|j: int| 0 <= j < i ==> (#[trigger] gu[j])@.len()
                == gt[j].output_commitments@.len(),
            forall|j: int| 0 <= j < i ==> ((#[trigger] gm[j]) matches Some(sm) ==> sm.memos@.len()
                == gt[j].output_commitments@.len()),
        decreases n - i,
    {
        let t = txns.remove(0);
        let p = proofs.remove(0);
        let m = memos.remove(0);
        let u = uids.remove(0);
        proof {
            assert(t == gt[i as int]);
            assert(p == gp[i as int]);
            assert(m == gm[i as int]);
            assert(u == gu[i as int]);
            assert(txns@ =~= gt.subrange(i + 1, n as int));
            assert(proofs@ =~= gp.subrange(i + 1, n as int));
            assert(memos@ =~= gm.subrange(i + 1, n as int));
            assert(uids@ =~= gu.subrange(i + 1, n as int));
        }
        if u.len() != t.output_commitments.len() {
            proof {
                assert(!parallel_lengths_ok(gt, gp, gm, gu)) by {
                    assert(gu[i as int]@.len() != gt[i as int].output_commitments@.len());
                }
            }
            return Err(LedgerError::ProtocolViolation);
        }
        let joined = match m {
            Some(sm) => {
                if sm.memos.len() != t.output_commitments.len() {
                    proof {
                        assert(!parallel_lengths_ok(gt, gp, gm, gu)) by {
                            assert(gm[i as int] matches Some(x) && x.memos@.len()
                                != gt[i as int].output_commitments@.len());
                        }
                    }
                    return Err(LedgerError::ProtocolViolation);
                }
                CommittedTransaction {
                    id: TransactionId(BlockId(index), i as u64),
                    data: t,
                    proofs: p,
                    output_uids: u,
                    output_memos: Some(sm.memos),
                    memos_signature: Some(sm.signature),
                }
            },
            None => CommittedTransaction {
                id: TransactionId(BlockId(index), i as u64),
                data: t,
                proofs: p,
                output_uids: u,
                output_memos: None,
                memos_signature: None,
            },
        };
        out.push(joined);
        i += 1;
    }
    let block = CommittedBlock {
        id: BlockId(index),
        index,
        hash: block_hash,
        state_commitment,
        transactions: out,
    };
    proof {
        assert(parallel_lengths_ok(gt, gp, gm, gu));
        assert(block.wf());
    }
    Ok(block)
}

/// The transaction at `txn_id` within a block; out of range fails with
/// `InvalidTransactionId`, never panics.
pub fn committed_transaction<'a>(block: &'a CommittedBlock, txn_id: u64) -> (r: Result<
    &'a CommittedTransaction,
    LedgerError,
>)
    ensures
        txn_id < block.transactions@.len() ==> (r matches Ok(t) && *t == block.transactions@[
            txn_id as int
        ]),
        txn_id >= block.transactions@.len() ==> (r matches Err(e) && e
            == LedgerError::InvalidTransactionId { block_id: block.id.0, txn_id }),
{
    if txn_id < block.transactions.len() as u64 {
        Ok(&block.transactions[txn_id as usize])
    } else {
        Err(LedgerError::InvalidTransactionId { block_id: block.id.0, txn_id })
    }
}

/// The output record at `output_index` of a committed transaction. The
/// mempool path is not implemented and says so; an index at or past the
/// output count fails with `InvalidOutputIndex`, one below it succeeds.
pub fn unspent_record(txn: &CommittedTransaction, output_index: u64, allow_mempool: bool) -> (r:
    Result<UnspentRecord, LedgerError>)
    requires
        txn.wf(),
    ensures
        allow_mempool ==> (r matches Err(e) && e == LedgerError::Unimplemented),
        !allow_mempool && output_index < txn.output_count() ==> (r matches Ok(rec) && ({
            &&& rec.commitment == txn.data.output_commitments@[output_index as int]
            &&& rec.uid == txn.output_uids@[output_index as int]
            &&& match txn.output_memos {
                Some(m) => rec.memo matches Some(b) && b@ == m@[output_index as int]@,
                None => rec.memo is None,
            }
        })),
        !allow_mempool && output_index >= txn.output_count() ==> (r matches Err(e) && e
            == LedgerError::InvalidOutputIndex {
            output_index,
            output_count: txn.data.output_commitments@.len() as u64,
        }),
{
    if allow_mempool {
        return Err(LedgerError::Unimplemented);
    }
    let count = txn.data.output_commitments.len() as u64;
    if output_index >= count {
        return Err(LedgerError::InvalidOutputIndex { output_index, output_count: count });
    }
    let oi = output_index as usize;
    let memo = match &txn.output_memos {
        Some(m) => Some(copy_bytes(&m[oi])),
        None => None,
    };
    Ok(
        UnspentRecord {
            commitment: txn.data.output_commitments[oi],
            uid: txn.output_uids[oi],
            memo,
        },
    )
}

/// A direct projection of the authority's summary.
pub fn get_block_count(summary: &LedgerSummary) -> (r: u64)
    ensures
        r == summary.num_blocks,
{
    summary.num_blocks
}

/// Law: where the authority's snapshot commitments chain by a re-derivation
/// `f` — snapshot `j + 1` commits the state after applying block `j` to
/// snapshot `j` — a block assembled from block `i` and snapshot `i + 1`
/// carries exactly the commitment `f` re-derives from snapshot `i`.
pub proof fn lemma_state_commitment_rederived(
    snapshot_commitments: Seq<u64>,
    block_hashes: Seq<u64>,
    f: spec_fn(u64, u64) -> u64,
    i: int,
    b: CommittedBlock,
)
    requires
        0 <= i < block_hashes.len(),
        i + 1 < snapshot_commitments.len(),
        forall|j: int| 0 <= j < block_hashes.len() && j + 1 < snapshot_commitments.len()
            ==> snapshot_commitments[j + 1] == f(snapshot_commitments[j], #[trigger] block_hashes[j]),
        b.state_commitment == snapshot_commitments[i + 1],
        b.hash == block_hashes[i],
    ensures
        b.state_commitment == f(snapshot_commitments[i], b.hash),
{
}

/// Law: the address of any transaction of a well-formed block round-trips
/// through the text codec without loss.
pub proof fn lemma_block_txn_address_round_trip(b: CommittedBlock, t: int)
    requires
        b.wf(),
        0 <= t < b.transactions@.len(),
    ensures
        crate::address::spec_decode_txn(b.transactions@[t].id.encoding()) == Some(
            b.transactions@[t].id,
        ),
{
    crate::address::lemma_txn_round_trip(b.transactions@[t].id);
}

} // verus!
