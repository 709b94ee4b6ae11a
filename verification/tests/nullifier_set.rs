use ledger_sync::errors::LedgerError;
use ledger_sync::nullifier::{NullifierSet, SetMerkleProof};

fn proof_for(root: u64, nullifier: u64, spent: bool) -> SetMerkleProof {
    SetMerkleProof {
        root,
        nullifier,
        spent,
        path: vec![root ^ nullifier, 42],
    }
}

#[test]
fn empty_set_answers_nothing() {
    let s = NullifierSet::new(100);
    assert_eq!(s.hash(), 100);
    assert_eq!(s.contains(7), None);
}

#[test]
fn remember_then_answer_from_cache() {
    let mut s = NullifierSet::new(100);
    s.remember(7, proof_for(100, 7, false)).unwrap();
    let (spent, pf) = s.contains(7).unwrap();
    assert!(!spent);
    assert_eq!(pf.root, 100);
    assert_eq!(pf.nullifier, 7);
    assert_eq!(pf.path, vec![100 ^ 7, 42]);
    assert_eq!(s.contains(8), None);
}

#[test]
fn remember_is_idempotent() {
    let mut s = NullifierSet::new(100);
    s.remember(7, proof_for(100, 7, true)).unwrap();
    let first = s.contains(7);
    let root_once = s.hash();
    // the same verified proof again: same root, same cached answer
    s.remember(7, proof_for(100, 7, true)).unwrap();
    assert_eq!(s.hash(), root_once);
    assert_eq!(s.contains(7), first);
}

#[test]
fn remember_rejects_foreign_root() {
    let mut s = NullifierSet::new(100);
    let e = s.remember(7, proof_for(999, 7, false)).unwrap_err();
    assert_eq!(e, LedgerError::InvalidNullifierProof);
    assert_eq!(s.contains(7), None);
}

#[test]
fn remember_rejects_conflicting_live_answer() {
    let mut s = NullifierSet::new(100);
    s.remember(7, proof_for(100, 7, false)).unwrap();
    let e = s.remember(7, proof_for(100, 7, true)).unwrap_err();
    assert_eq!(e, LedgerError::InvalidNullifierProof);
    // the earlier answer still stands
    let (spent, _) = s.contains(7).unwrap();
    assert!(!spent);
}

#[test]
fn absorb_answers_and_remembers() {
    let mut s = NullifierSet::new(100);
    let (spent, pf) = s.absorb_proof(9, proof_for(100, 9, true)).unwrap();
    assert!(spent);
    assert_eq!(pf.nullifier, 9);
    let (again, _) = s.contains(9).unwrap();
    assert!(again);
}

#[test]
fn root_change_makes_cache_stale() {
    let mut s = NullifierSet::new(100);
    s.remember(7, proof_for(100, 7, false)).unwrap();
    assert!(s.contains(7).is_some());
    // a block spends nullifier 8 and moves the root
    s.apply_spent(200, &vec![8]).unwrap();
    assert_eq!(s.hash(), 200);
    // the old answer for 7 is stale under the new root: absent, re-fetch
    assert_eq!(s.contains(7), None);
    // the spend itself is cached live under the new root
    let (spent, _) = s.contains(8).unwrap();
    assert!(spent);
}

#[test]
fn apply_rejects_spend_without_root_change() {
    let mut s = NullifierSet::new(100);
    let e = s.apply_spent(100, &vec![5]).unwrap_err();
    assert_eq!(e, LedgerError::ProtocolViolation);
    // an empty block may keep the root
    s.apply_spent(100, &vec![]).unwrap();
    assert_eq!(s.hash(), 100);
}

#[test]
fn nonmembership_stable_under_root() {
    // spent = false under root 100; only a root change can flip the answer
    let mut s = NullifierSet::new(100);
    s.remember(7, proof_for(100, 7, false)).unwrap();
    // events that spend other nullifiers move the root away
    s.apply_spent(200, &vec![8]).unwrap();
    s.apply_spent(300, &vec![7]).unwrap();
    // under root 300 the spend of 7 is visible; the false answer obtained
    // under root 100 was never upgraded to true while the root was 100
    let (spent, pf) = s.contains(7).unwrap();
    assert!(spent);
    assert_eq!(pf.root, 300);
}
