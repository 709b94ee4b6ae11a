use ledger_sync::address::BlockId;
use ledger_sync::segment::{parse, RequestError, UrlSegmentType, UrlSegmentValue};
use ledger_sync::tagged::{
    decode_tagged_block, decode_tagged_txn, encode_tagged_block, encode_tagged_txn,
};
use ledger_sync::address::{AddressError, TransactionId};
use tagged_base64::TaggedBase64;

#[test]
fn parse_boolean_segment() {
    assert_eq!(
        parse("true", UrlSegmentType::Boolean),
        Some(UrlSegmentValue::Boolean(true))
    );
    assert_eq!(
        parse("false", UrlSegmentType::Boolean),
        Some(UrlSegmentValue::Boolean(false))
    );
    assert_eq!(parse("True", UrlSegmentType::Boolean), None);
    assert_eq!(parse("1", UrlSegmentType::Boolean), None);
    assert_eq!(parse("", UrlSegmentType::Boolean), None);
}

#[test]
fn parse_integer_segment() {
    assert_eq!(
        parse("42", UrlSegmentType::Integer),
        Some(UrlSegmentValue::Integer(42))
    );
    assert_eq!(parse("042", UrlSegmentType::Integer), Some(UrlSegmentValue::Integer(42)));
    assert_eq!(parse("", UrlSegmentType::Integer), None);
    assert_eq!(parse("4x", UrlSegmentType::Integer), None);
    assert_eq!(parse("18446744073709551616", UrlSegmentType::Integer), None);
}

#[test]
fn parse_hexadecimal_segment() {
    assert_eq!(
        parse("ff", UrlSegmentType::Hexadecimal),
        Some(UrlSegmentValue::Hexadecimal(255))
    );
    assert_eq!(
        parse("FF", UrlSegmentType::Hexadecimal),
        Some(UrlSegmentValue::Hexadecimal(255))
    );
    assert_eq!(
        parse("DeadBeef", UrlSegmentType::Hexadecimal),
        Some(UrlSegmentValue::Hexadecimal(0xdead_beef))
    );
    assert_eq!(
        parse("ffffffffffffffff", UrlSegmentType::Hexadecimal),
        Some(UrlSegmentValue::Hexadecimal(u64::MAX))
    );
    assert_eq!(parse("10000000000000000", UrlSegmentType::Hexadecimal), None);
    assert_eq!(parse("", UrlSegmentType::Hexadecimal), None);
    assert_eq!(parse("fg", UrlSegmentType::Hexadecimal), None);
}

#[test]
fn parse_literal_segment() {
    match parse("getinfo", UrlSegmentType::Literal) {
        Some(UrlSegmentValue::Literal(s)) => assert_eq!(s, "getinfo"),
        other => panic!("expected literal, got {:?}", other),
    }
}

#[test]
fn parse_tagged_segment_through_real_codec() {
    // Build the wire form with the identifier crate itself; the library must
    // recover exactly the tag and payload that went in.
    let wire = TaggedBase64::new("BK", b"7").unwrap().to_string();
    match parse(&wire, UrlSegmentType::TaggedBase64) {
        Some(UrlSegmentValue::Identifier { tag, value }) => {
            assert_eq!(tag, "BK");
            assert_eq!(value, b"7".to_vec());
        }
        other => panic!("expected identifier, got {:?}", other),
    }
    assert_eq!(parse("no-delimiter", UrlSegmentType::TaggedBase64), None);
    assert_eq!(parse("BK~%%%", UrlSegmentType::TaggedBase64), None);
}

#[test]
fn accessors_check_value_type() {
    let b = UrlSegmentValue::Boolean(true);
    assert_eq!(b.as_boolean(), Ok(true));
    assert_eq!(
        b.as_index(),
        Err(RequestError::WrongValueType {
            expected: UrlSegmentType::Integer
        })
    );
    let i = UrlSegmentValue::Integer(9);
    assert_eq!(i.as_index(), Ok(9));
    assert_eq!(
        i.as_boolean(),
        Err(RequestError::WrongValueType {
            expected: UrlSegmentType::Boolean
        })
    );
    assert!(i.as_identifier().is_err());
}

#[test]
fn tagged_block_round_trips_on_the_wire() {
    for n in [0u64, 1, 77, u64::MAX] {
        let s = encode_tagged_block(&BlockId(n));
        assert_eq!(decode_tagged_block(&s), Ok(BlockId(n)));
        // The wire form is a genuine tagged identifier holding the decimal
        // payload, not the input echoed back.
        let tb = TaggedBase64::parse(&s).unwrap();
        assert_eq!(tb.tag(), "BK");
        assert_eq!(tb.value(), n.to_string().into_bytes());
    }
}

#[test]
fn tagged_txn_round_trips_on_the_wire() {
    let t = TransactionId(BlockId(12), 3);
    let s = encode_tagged_txn(&t);
    assert_eq!(decode_tagged_txn(&s), Ok(t));
    let tb = TaggedBase64::parse(&s).unwrap();
    assert_eq!(tb.tag(), "TX");
    assert_eq!(tb.value(), b"12-3".to_vec());
}

#[test]
fn tagged_decode_rejects_wrong_tag() {
    let s = TaggedBase64::new("TX", b"7").unwrap().to_string();
    assert_eq!(decode_tagged_block(&s), Err(AddressError::MalformedAddress));
    let s2 = TaggedBase64::new("BK", b"12-3").unwrap().to_string();
    assert_eq!(decode_tagged_txn(&s2), Err(AddressError::MalformedAddress));
}

#[test]
fn tagged_decode_rejects_bad_payload() {
    let s = TaggedBase64::new("BK", b"x7").unwrap().to_string();
    assert_eq!(decode_tagged_block(&s), Err(AddressError::MalformedAddress));
}
