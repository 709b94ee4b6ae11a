use ledger_sync::address::{AddressError, BlockId, TransactionId};

#[test]
fn block_encode_decimal() {
    assert_eq!(BlockId(0).encode(), b"0".to_vec());
    assert_eq!(BlockId(7).encode(), b"7".to_vec());
    assert_eq!(BlockId(1234567890).encode(), b"1234567890".to_vec());
    assert_eq!(BlockId(u64::MAX).encode(), b"18446744073709551615".to_vec());
}

#[test]
fn block_decode_round_trip() {
    for n in [0u64, 1, 9, 10, 99, 4096, u64::MAX - 1, u64::MAX] {
        let enc = BlockId(n).encode();
        assert_eq!(BlockId::decode(&enc), Ok(BlockId(n)));
    }
}

#[test]
fn block_decode_accepts_leading_zeros() {
    assert_eq!(BlockId::decode(b"007"), Ok(BlockId(7)));
}

#[test]
fn block_decode_malformed() {
    assert_eq!(BlockId::decode(b""), Err(AddressError::MalformedAddress));
    assert_eq!(BlockId::decode(b"12a"), Err(AddressError::MalformedAddress));
    assert_eq!(BlockId::decode(b"-1"), Err(AddressError::MalformedAddress));
    assert_eq!(BlockId::decode(b" 1"), Err(AddressError::MalformedAddress));
    // one past u64::MAX
    assert_eq!(
        BlockId::decode(b"18446744073709551616"),
        Err(AddressError::MalformedAddress)
    );
}

#[test]
fn block_decode_max_boundary() {
    assert_eq!(
        BlockId::decode(b"18446744073709551615"),
        Ok(BlockId(u64::MAX))
    );
}

#[test]
fn txn_encode_shape() {
    let t = TransactionId(BlockId(12), 3);
    assert_eq!(t.encode(), b"12-3".to_vec());
}

#[test]
fn txn_round_trip() {
    for (b, i) in [(0u64, 0u64), (5, 0), (12, 3), (u64::MAX, u64::MAX)] {
        let t = TransactionId(BlockId(b), i);
        assert_eq!(TransactionId::decode(&t.encode()), Ok(t));
    }
}

#[test]
fn txn_decode_malformed() {
    for bad in [
        &b""[..],
        b"12",
        b"-3",
        b"12-",
        b"a-3",
        b"12-b",
        b"1-2-3",
        b"12_3",
    ] {
        assert_eq!(
            TransactionId::decode(bad),
            Err(AddressError::MalformedAddress),
            "input {:?} should be malformed",
            String::from_utf8_lossy(bad)
        );
    }
}
