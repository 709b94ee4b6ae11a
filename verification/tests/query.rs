use ledger_sync::address::{BlockId, TransactionId};
use ledger_sync::errors::{LedgerError, StatusCode};
use ledger_sync::ledger::{
    assemble_block, committed_transaction, get_block_count, unspent_record, LedgerSummary,
    SignedMemos, TransactionData,
};
use ledger_sync::route::{
    bind_request, block_address, check_api, resolve_block_index, response_media, ApiRequest,
    ApiRouteKey, Bindings, BlockAddress, MediaKind,
};
use ledger_sync::segment::{parse, UrlSegmentType, UrlSegmentValue};
use ledger_sync::tagged::{encode_tagged_block, encode_tagged_txn};

fn tx(outputs: &[u64], payload: u8) -> TransactionData {
    TransactionData {
        payload: vec![payload],
        output_commitments: outputs.to_vec(),
    }
}

fn sample_block() -> ledger_sync::ledger::CommittedBlock {
    assemble_block(
        4,
        1111,
        2222,
        vec![tx(&[10, 11], 0), tx(&[20], 1)],
        vec![vec![0xa0], vec![0xa1]],
        vec![
            Some(SignedMemos {
                memos: vec![vec![1], vec![2]],
                signature: vec![9],
            }),
            None,
        ],
        vec![vec![100, 101], vec![200]],
    )
    .unwrap()
}

#[test]
fn assemble_joins_parallel_sequences() {
    let b = sample_block();
    assert_eq!(b.id, BlockId(4));
    assert_eq!(b.index, 4);
    assert_eq!(b.hash, 1111);
    assert_eq!(b.state_commitment, 2222);
    assert_eq!(b.transactions.len(), 2);
    let t0 = &b.transactions[0];
    assert_eq!(t0.id, TransactionId(BlockId(4), 0));
    assert_eq!(t0.output_uids, vec![100, 101]);
    assert_eq!(t0.output_memos, Some(vec![vec![1], vec![2]]));
    assert_eq!(t0.memos_signature, Some(vec![9]));
    let t1 = &b.transactions[1];
    assert_eq!(t1.id, TransactionId(BlockId(4), 1));
    assert_eq!(t1.output_memos, None);
    assert_eq!(t1.memos_signature, None);
}

#[test]
fn assemble_rejects_top_level_mismatch() {
    let r = assemble_block(
        0,
        0,
        0,
        vec![tx(&[10], 0)],
        vec![],
        vec![None],
        vec![vec![100]],
    );
    assert_eq!(r.unwrap_err(), LedgerError::ProtocolViolation);
}

#[test]
fn assemble_rejects_uid_count_mismatch() {
    let r = assemble_block(
        0,
        0,
        0,
        vec![tx(&[10, 11], 0)],
        vec![vec![]],
        vec![None],
        vec![vec![100]],
    );
    assert_eq!(r.unwrap_err(), LedgerError::ProtocolViolation);
}

#[test]
fn assemble_rejects_memo_count_mismatch() {
    let r = assemble_block(
        0,
        0,
        0,
        vec![tx(&[10, 11], 0)],
        vec![vec![]],
        vec![Some(SignedMemos {
            memos: vec![vec![1]],
            signature: vec![9],
        })],
        vec![vec![100, 101]],
    );
    assert_eq!(r.unwrap_err(), LedgerError::ProtocolViolation);
}

#[test]
fn transaction_lookup_checks_range() {
    let b = sample_block();
    assert_eq!(
        committed_transaction(&b, 1).unwrap().id,
        TransactionId(BlockId(4), 1)
    );
    assert_eq!(
        committed_transaction(&b, 2).unwrap_err(),
        LedgerError::InvalidTransactionId {
            block_id: 4,
            txn_id: 2
        }
    );
}

#[test]
fn unspent_record_boundaries() {
    let b = sample_block();
    let t0 = &b.transactions[0];
    // one below the output count succeeds
    let rec = unspent_record(t0, 1, false).unwrap();
    assert_eq!(rec.commitment, 11);
    assert_eq!(rec.uid, 101);
    assert_eq!(rec.memo, Some(vec![2]));
    // exactly the output count fails
    assert_eq!(
        unspent_record(t0, 2, false).unwrap_err(),
        LedgerError::InvalidOutputIndex {
            output_index: 2,
            output_count: 2
        }
    );
}

#[test]
fn unspent_record_without_memos() {
    let b = sample_block();
    let t1 = &b.transactions[1];
    let rec = unspent_record(t1, 0, false).unwrap();
    assert_eq!(rec.commitment, 20);
    assert_eq!(rec.uid, 200);
    assert_eq!(rec.memo, None);
}

#[test]
fn unspent_record_mempool_unimplemented() {
    let b = sample_block();
    let e = unspent_record(&b.transactions[0], 0, true).unwrap_err();
    assert_eq!(e, LedgerError::Unimplemented);
    assert_eq!(e.status(), StatusCode::NotImplemented);
}

#[test]
fn state_commitment_matches_rederivation() {
    // A toy authority whose snapshot commitments chain by a concrete rule:
    // each block's post-state commitment re-derives from the previous
    // snapshot and the block's hash.
    fn rederive(prev: u64, block_hash: u64) -> u64 {
        prev.wrapping_mul(31).wrapping_add(block_hash)
    }
    let block_hashes = [7u64, 11, 13];
    let mut snapshots = vec![1u64];
    for h in block_hashes {
        let prev = *snapshots.last().unwrap();
        snapshots.push(rederive(prev, h));
    }
    for i in 0..block_hashes.len() {
        // the block is assembled from block i and snapshot i + 1
        let b = assemble_block(
            i as u64,
            block_hashes[i],
            snapshots[i + 1],
            vec![],
            vec![],
            vec![],
            vec![],
        )
        .unwrap();
        assert_eq!(b.state_commitment, snapshots[i + 1]);
        assert_eq!(b.state_commitment, rederive(snapshots[i], b.hash));
    }
}

#[test]
fn summary_projection() {
    let s = LedgerSummary {
        num_blocks: 5,
        num_txns: 9,
        num_records: 14,
        num_events: 6,
    };
    assert_eq!(get_block_count(&s), 5);
}

#[test]
fn latest_resolution_underflow_guard() {
    // with no blocks committed, "latest" fails instead of wrapping around
    let r = resolve_block_index(&BlockAddress::Latest, 0, None);
    assert!(r.is_err());
    // with three blocks, "latest" is index 2
    assert_eq!(resolve_block_index(&BlockAddress::Latest, 3, None), Ok(2));
}

#[test]
fn explicit_resolutions() {
    assert_eq!(
        resolve_block_index(&BlockAddress::ByIndex(7), 3, None),
        Ok(7)
    );
    assert_eq!(
        resolve_block_index(&BlockAddress::ById(BlockId(5)), 3, None),
        Ok(5)
    );
    assert_eq!(
        resolve_block_index(&BlockAddress::ByHash(0xbeef), 3, Some(1)),
        Ok(1)
    );
    assert_eq!(
        resolve_block_index(&BlockAddress::ByHash(0xbeef), 3, None),
        Err(LedgerError::UnknownBlockHash { hash: 0xbeef })
    );
}

#[test]
fn block_address_priority() {
    let mut b = Bindings::none();
    assert_eq!(block_address(&b), Ok(BlockAddress::Latest));
    b.index = Some(UrlSegmentValue::Integer(3));
    assert_eq!(block_address(&b), Ok(BlockAddress::ByIndex(3)));
    let mut wrong = Bindings::none();
    wrong.index = Some(UrlSegmentValue::Boolean(true));
    assert!(block_address(&wrong).is_err());
}

#[test]
fn bind_request_subscribe_and_record() {
    let mut b = Bindings::none();
    b.index = Some(UrlSegmentValue::Integer(5));
    match bind_request(ApiRouteKey::subscribe, &b) {
        Ok(ApiRequest::Subscribe(5)) => {}
        other => panic!("unexpected {:?}", other.is_ok()),
    }
    let missing = Bindings::none();
    assert!(bind_request(ApiRouteKey::subscribe, &missing).is_err());
    assert!(bind_request(ApiRouteKey::getunspentrecord, &missing).is_err());
}

#[test]
fn dispatch_pipeline_for_gettransaction() {
    // the raw path segment exactly as it arrives on the wire
    let txid_text = encode_tagged_txn(&TransactionId(BlockId(4), 1));
    let mut b = Bindings::none();
    b.txid = parse(&txid_text, UrlSegmentType::TaggedBase64);
    match bind_request(ApiRouteKey::gettransaction, &b).unwrap() {
        ApiRequest::GetTransaction(t) => assert_eq!(t, TransactionId(BlockId(4), 1)),
        _ => panic!("expected a transaction request"),
    }
}

#[test]
fn dispatch_pipeline_for_getunspentrecord() {
    let txid_text = encode_tagged_txn(&TransactionId(BlockId(4), 0));
    let mut b = Bindings::none();
    b.mempool = parse("false", UrlSegmentType::Boolean);
    b.txid = parse(&txid_text, UrlSegmentType::TaggedBase64);
    b.output_index = parse("1", UrlSegmentType::Integer);
    match bind_request(ApiRouteKey::getunspentrecord, &b).unwrap() {
        ApiRequest::GetUnspentRecord {
            mempool,
            txid,
            output_index,
        } => {
            assert!(!mempool);
            assert_eq!(txid, TransactionId(BlockId(4), 0));
            assert_eq!(output_index, 1);
        }
        _ => panic!("expected an unspent-record request"),
    }
}

#[test]
fn dispatch_pipeline_for_getblock_by_id() {
    let bkid_text = encode_tagged_block(&BlockId(9));
    let mut b = Bindings::none();
    b.bkid = parse(&bkid_text, UrlSegmentType::TaggedBase64);
    assert_eq!(block_address(&b), Ok(BlockAddress::ById(BlockId(9))));
    assert_eq!(
        resolve_block_index(&BlockAddress::ById(BlockId(9)), 20, None),
        Ok(9)
    );
}

#[test]
fn route_table_completeness() {
    let all = vec![
        ApiRouteKey::getblock,
        ApiRouteKey::getblockcount,
        ApiRouteKey::getblockhash,
        ApiRouteKey::getblockid,
        ApiRouteKey::getinfo,
        ApiRouteKey::getmempool,
        ApiRouteKey::gettransaction,
        ApiRouteKey::getunspentrecord,
        ApiRouteKey::getunspentrecordsetinfo,
        ApiRouteKey::subscribe,
    ];
    assert!(check_api(&all));
    let mut missing = all.clone();
    missing.pop();
    assert!(!check_api(&missing));
    assert!(!check_api(&vec![]));
}

#[test]
fn media_negotiation() {
    assert_eq!(response_media(MediaKind::Json), Ok(MediaKind::Json));
    let e = response_media(MediaKind::Html).unwrap_err();
    assert_eq!(e, LedgerError::UnsupportedContentType);
    assert_eq!(e.status(), StatusCode::UnsupportedMediaType);
}
