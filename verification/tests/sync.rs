use ledger_sync::bootstrap::{
    build_wallet_state, check_key_arities, preprocess_plan, LedgerSnapshot, ProverKeySet,
    VerifierKeySet,
};
use ledger_sync::errors::{LedgerError, StatusCode};
use ledger_sync::metastate::{check_nullifier, MetastateApiError};
use ledger_sync::nullifier::SetMerkleProof;
use ledger_sync::segment::RequestError;
use ledger_sync::wallet::{EventBody, LedgerEvent, Subscription};

fn verifier_arities() -> VerifierKeySet {
    VerifierKeySet {
        freeze_inputs: vec![2, 3],
        xfr_sizes: vec![(2, 2), (3, 2)],
    }
}

fn snapshot(leaves: u64) -> LedgerSnapshot {
    LedgerSnapshot {
        state_commitment: 555,
        verifier_keys: verifier_arities(),
        nullifier_root: 100,
        record_tree_leaves: leaves,
    }
}

#[test]
fn preprocess_plan_matches_declared_arities() {
    let plan = preprocess_plan(&verifier_arities());
    assert_eq!(plan.freeze_inputs, vec![2, 3]);
    assert_eq!(plan.xfr_sizes, vec![(2, 2), (3, 2)]);
    assert!(check_key_arities(&plan, &verifier_arities()).is_ok());
}

#[test]
fn arity_mismatch_is_fatal() {
    let bad = ProverKeySet {
        freeze_inputs: vec![2],
        xfr_sizes: vec![(2, 2), (3, 2)],
    };
    let e = check_key_arities(&bad, &verifier_arities()).unwrap_err();
    assert_eq!(e, LedgerError::KeyArityMismatch);
    assert!(build_wallet_state(&snapshot(0), &bad).is_err());
}

#[test]
fn bootstrap_empty_record_tree_sets_no_marker() {
    let w = build_wallet_state(&snapshot(0), &preprocess_plan(&verifier_arities())).unwrap();
    assert_eq!(w.merkle_leaf_to_forget, None);
    assert_eq!(w.now, 0);
    assert_eq!(w.validator_commitment, 555);
    assert_eq!(w.record_leaf_count, 0);
    assert_eq!(w.nullifiers.hash(), 100);
    assert_eq!(w.nullifiers.contains(7), None);
}

#[test]
fn bootstrap_single_leaf_marks_index_zero() {
    let w = build_wallet_state(&snapshot(1), &preprocess_plan(&verifier_arities())).unwrap();
    assert_eq!(w.merkle_leaf_to_forget, Some(0));
}

#[test]
fn subscription_delivers_in_order_from_cursor() {
    let mut sub = Subscription::subscribe(5);
    for i in 5..8u64 {
        let got = sub
            .accept(Some(LedgerEvent {
                index: i,
                body: EventBody::Reject,
            }))
            .unwrap()
            .unwrap();
        assert_eq!(got.index, i);
    }
    assert_eq!(sub.cursor, 8);
}

#[test]
fn subscription_drops_malformed_and_rejects_disorder() {
    let mut sub = Subscription::subscribe(5);
    // a message that did not decode is dropped; the cursor stays put
    assert!(sub.accept(None).unwrap().is_none());
    assert_eq!(sub.cursor, 5);
    // an event out of order is a protocol violation
    let e = sub
        .accept(Some(LedgerEvent {
            index: 7,
            body: EventBody::Reject,
        }))
        .unwrap_err();
    assert_eq!(e, LedgerError::ProtocolViolation);
    assert_eq!(sub.cursor, 5);
}

#[test]
fn clock_advances_one_per_applied_event() {
    let mut w = build_wallet_state(&snapshot(0), &preprocess_plan(&verifier_arities())).unwrap();
    for i in 0..3u64 {
        let ev = LedgerEvent {
            index: i,
            body: EventBody::Memos {
                block_id: 0,
                txn_id: i,
            },
        };
        assert_eq!(w.apply_event(&ev).unwrap(), None);
        assert_eq!(w.now, i + 1);
    }
    // an event for the wrong position is rejected and changes nothing
    let stray = LedgerEvent {
        index: 7,
        body: EventBody::Reject,
    };
    assert_eq!(w.apply_event(&stray).unwrap_err(), LedgerError::ProtocolViolation);
    assert_eq!(w.now, 3);
}

#[test]
fn commit_event_updates_state_and_releases_marker() {
    let mut w = build_wallet_state(&snapshot(1), &preprocess_plan(&verifier_arities())).unwrap();
    assert_eq!(w.merkle_leaf_to_forget, Some(0));
    let ev = LedgerEvent {
        index: 0,
        body: EventBody::Commit {
            state_commitment: 777,
            nullifier_root: 200,
            spent: vec![9],
            new_records: 2,
        },
    };
    // new leaves arrived: the bootstrap leaf is released for forgetting
    assert_eq!(w.apply_event(&ev).unwrap(), Some(0));
    assert_eq!(w.merkle_leaf_to_forget, None);
    assert_eq!(w.now, 1);
    assert_eq!(w.validator_commitment, 777);
    assert_eq!(w.record_leaf_count, 3);
    assert_eq!(w.nullifiers.hash(), 200);
    let (spent, _) = w.nullifiers.contains(9).unwrap();
    assert!(spent);
}

#[test]
fn commit_without_new_records_keeps_marker() {
    let mut w = build_wallet_state(&snapshot(1), &preprocess_plan(&verifier_arities())).unwrap();
    let ev = LedgerEvent {
        index: 0,
        body: EventBody::Commit {
            state_commitment: 777,
            nullifier_root: 200,
            spent: vec![],
            new_records: 0,
        },
    };
    assert_eq!(w.apply_event(&ev).unwrap(), None);
    assert_eq!(w.merkle_leaf_to_forget, Some(0));
}

#[test]
fn commit_spending_without_root_change_is_violation() {
    let mut w = build_wallet_state(&snapshot(0), &preprocess_plan(&verifier_arities())).unwrap();
    let ev = LedgerEvent {
        index: 0,
        body: EventBody::Commit {
            state_commitment: 777,
            nullifier_root: 100,
            spent: vec![9],
            new_records: 0,
        },
    };
    assert_eq!(w.apply_event(&ev).unwrap_err(), LedgerError::ProtocolViolation);
    assert_eq!(w.now, 0);
}

#[test]
fn metastate_check_nullifier_endpoint() {
    let pf = SetMerkleProof {
        root: 100,
        nullifier: 7,
        spent: true,
        path: vec![1, 2],
    };
    let ok = check_nullifier(Some((true, pf.clone())), 3).unwrap();
    assert!(ok.spent);
    assert_eq!(ok.merkle_proof, pf);
    let err = check_nullifier(None, 3).unwrap_err();
    assert_eq!(err, MetastateApiError::InvalidBlockId { block_id: 3 });
    assert_eq!(err.status(), StatusCode::BadRequest);
}

#[test]
fn metastate_from_request_error() {
    let e = MetastateApiError::from(RequestError::MissingParam);
    assert_eq!(
        e,
        MetastateApiError::Request {
            source: RequestError::MissingParam
        }
    );
    assert_eq!(e.status(), StatusCode::BadRequest);
}

#[test]
fn ledger_error_statuses() {
    assert_eq!(
        LedgerError::Request {
            source: RequestError::MissingParam
        }
        .status(),
        StatusCode::BadRequest
    );
    assert_eq!(
        LedgerError::InvalidBlockId { block_id: 1 }.status(),
        StatusCode::BadRequest
    );
    assert_eq!(LedgerError::Unimplemented.status(), StatusCode::NotImplemented);
    assert_eq!(
        LedgerError::ProtocolViolation.status(),
        StatusCode::InternalServerError
    );
    assert_eq!(
        LedgerError::InvalidNullifierProof.status(),
        StatusCode::InternalServerError
    );
    assert_eq!(LedgerError::Transport.status(), StatusCode::InternalServerError);
}
