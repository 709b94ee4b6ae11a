//! Snapshot-based bootstrap of wallet state.
//!
//! One remote snapshot supplies the validator's commitment, the verifier-key
//! arities, the nullifier-set root and the record tree's leaf count. The
//! external proving-key capability derives a proving key per declared arity;
//! bootstrap checks the arities match exactly — a mismatch is a fatal
//! configuration error — then builds the initial sync state: clock at zero,
//! empty nullifier cache under the snapshot root, and the record tree's last
//! leaf scheduled for forgetting, since a fresh wallet owns none of the
//! leaves yet the pruned tree always retains the most recently appended one.

use vstd::prelude::*;
use crate::errors::LedgerError;
use crate::nullifier::NullifierSet;
use crate::util::{copy_pairs, copy_u64s, eq_pairs, eq_u64s};
use crate::wallet::WalletSyncState;

verus! {

/// The arities the validator's verifier keys declare: the input count of
/// each freeze key and the input/output sizes of each transfer key. The mint
/// circuit is fixed, so it declares no arity.
pub struct VerifierKeySet {
    pub freeze_inputs: Vec<u64>,
    pub xfr_sizes: Vec<(u64, u64)>,
}

/// The arities of a derived proving-key set.
pub struct ProverKeySet {
    pub freeze_inputs: Vec<u64>,
    pub xfr_sizes: Vec<(u64, u64)>,
}

/// One remote snapshot, as plain values.
pub struct LedgerSnapshot {
    pub state_commitment: u64,
    pub verifier_keys: VerifierKeySet,
    pub nullifier_root: u64,
    pub record_tree_leaves: u64,
}

/// The preprocessing requests bootstrap hands the external proving-key
/// capability: one key per declared verifier arity, arity for arity.
pub fn preprocess_plan(verifier: &VerifierKeySet) -> (r: ProverKeySet)
    ensures
        r.freeze_inputs@ == verifier.freeze_inputs@,
        r.xfr_sizes@ == verifier.xfr_sizes@,
{
    ProverKeySet {
        freeze_inputs: copy_u64s(&verifier.freeze_inputs),
        xfr_sizes: copy_pairs(&verifier.xfr_sizes),
    }
}

/// Check derived proving keys against the validator's verifier keys, arity
/// for arity; succeeds exactly on an exact match.
pub fn check_key_arities(proving: &ProverKeySet, verifier: &VerifierKeySet) -> (r: Result<
    (),
    LedgerError,
>)
    ensures
        r is Ok <==> (proving.freeze_inputs@ == verifier.freeze_inputs@ && proving.xfr_sizes@
            == verifier.xfr_sizes@),
        r matches Err(e) ==> e == LedgerError::KeyArityMismatch,
{
    if eq_u64s(&proving.freeze_inputs, &verifier.freeze_inputs) && eq_pairs(
        &proving.xfr_sizes,
        &verifier.xfr_sizes,
    ) {
        Ok(())
    } else {
        Err(LedgerError::KeyArityMismatch)
    }
}

/// Build the initial wallet sync state from a snapshot and the derived
/// proving keys. Succeeds exactly when the key arities match; the state
/// starts with the clock at zero, an empty nullifier cache under the
/// snapshot's root, and — only if the record tree is nonempty — its highest
/// leaf index marked to be forgotten once further leaves arrive.
pub fn build_wallet_state(snapshot: &LedgerSnapshot, proving: &ProverKeySet) -> (r: Result<
    WalletSyncState,
    LedgerError,
>)
    ensures
        r is Ok <==> (proving.freeze_inputs@ == snapshot.verifier_keys.freeze_inputs@
            && proving.xfr_sizes@ == snapshot.verifier_keys.xfr_sizes@),
        r matches Err(e) ==> e == LedgerError::KeyArityMismatch,
        r matches Ok(w) ==> ({
            &&& w.now == 0
            &&& w.validator_commitment == snapshot.state_commitment
            &&& w.record_leaf_count == snapshot.record_tree_leaves
            &&& w.merkle_leaf_to_forget == (if snapshot.record_tree_leaves > 0 {
                Some((snapshot.record_tree_leaves - 1) as u64)
            } else {
                None::<u64>
            })
            &&& w.nullifiers.root_spec() == snapshot.nullifier_root
            &&& w.nullifiers.cached() == Map::<u64, (u64, bool, Seq<u64>)>::empty()
        }),
{
    match check_key_arities(proving, &snapshot.verifier_keys) {
        Ok(()) => {
            let marker = if snapshot.record_tree_leaves > 0 {
                Some(snapshot.record_tree_leaves - 1)
            } else {
                None
            };
            Ok(
                WalletSyncState {
                    validator_commitment: snapshot.state_commitment,
                    nullifiers: NullifierSet::new(snapshot.nullifier_root),
                    record_leaf_count: snapshot.record_tree_leaves,
                    merkle_leaf_to_forget: marker,
                    now: 0,
                },
            )
        },
        Err(e) => Err(e),
    }
}

} // verus!
