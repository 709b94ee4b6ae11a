//! Tagged identifier forms of ledger addresses.
//!
//! On the wire a block id, transaction id or block hash travels as a tagged
//! identifier whose tag names the kind and whose payload is the decimal
//! address encoding. The `tag~base64` framing is the identifier codec's job
//! (see `tb64`); everything inside the payload is decoded and proved here.

use vstd::prelude::*;
use crate::address::{
    AddressError, BlockId, TransactionId, encode_u64, parse_u64, spec_decode_txn, spec_decode_u64,
};
use crate::tb64::{is_safe_tag, is_safe_tag_char, tb64_encode, tb64_parse, tb64_parse_of};

verus! {

/// The block id an already-split identifier denotes: the block tag with a
/// decimal index payload.
pub open spec fn spec_block_from_parts(tag: Seq<char>, value: Seq<u8>) -> Option<BlockId> {
    if tag == "BK"@ {
        match spec_decode_u64(value) {
            Some(n) => Some(BlockId(n)),
            None => None,
        }
    } else {
        None
    }
}

/// The transaction id an already-split identifier denotes.
pub open spec fn spec_txn_from_parts(tag: Seq<char>, value: Seq<u8>) -> Option<TransactionId> {
    if tag == "TX"@ {
        spec_decode_txn(value)
    } else {
        None
    }
}

/// The block hash an already-split identifier denotes.
pub open spec fn spec_hash_from_parts(tag: Seq<char>, value: Seq<u8>) -> Option<u64> {
    if tag == "HASH"@ {
        spec_decode_u64(value)
    } else {
        None
    }
}

/// What tagged block-id decoding accepts, end to end.
pub open spec fn spec_decode_tagged_block(s: Seq<char>) -> Option<BlockId> {
    match tb64_parse_of(s) {
        Some((tag, value)) => spec_block_from_parts(tag, value),
        None => None,
    }
}

/// What tagged transaction-id decoding accepts, end to end.
pub open spec fn spec_decode_tagged_txn(s: Seq<char>) -> Option<TransactionId> {
    match tb64_parse_of(s) {
        Some((tag, value)) => spec_txn_from_parts(tag, value),
        None => None,
    }
}

proof fn lemma_bk_tag_safe()
    ensures
        is_safe_tag("BK"@),
{
    reveal_strlit("BK");
    assert forall|i: int| 0 <= i < "BK"@.len() implies is_safe_tag_char(#[trigger] "BK"@[i]) by {
        if i == 0 {
            assert("BK"@[0] == 'B');
        } else {
            assert("BK"@[1] == 'K');
        }
    }
}

proof fn lemma_tx_tag_safe()
    ensures
        is_safe_tag("TX"@),
{
    reveal_strlit("TX");
    assert forall|i: int| 0 <= i < "TX"@.len() implies is_safe_tag_char(#[trigger] "TX"@[i]) by {
        if i == 0 {
            assert("TX"@[0] == 'T');
        } else {
            assert("TX"@[1] == 'X');
        }
    }
}

/// Decide whether the parts name a block, by tag and decimal payload.
pub fn block_from_parts(tag: &String, value: &Vec<u8>) -> (r: Option<BlockId>)
    ensures
        r == spec_block_from_parts(tag@, value@),
{
    let want: String = "BK".to_owned();
    if *tag == want {
        match parse_u64(value.as_slice()) {
            Some(n) => Some(BlockId(n)),
            None => None,
        }
    } else {
        None
    }
}

/// Decide whether the parts name a transaction, by tag and payload.
pub fn txn_from_parts(tag: &String, value: &Vec<u8>) -> (r: Option<TransactionId>)
    ensures
        r == spec_txn_from_parts(tag@, value@),
{
    let want: String = "TX".to_owned();
    if *tag == want {
        match TransactionId::decode(value.as_slice()) {
            Ok(t) => Some(t),
            Err(_) => None,
        }
    } else {
        None
    }
}

/// Decide whether the parts name a block hash, by tag and decimal payload.
pub fn hash_from_parts(tag: &String, value: &Vec<u8>) -> (r: Option<u64>)
    ensures
        r == spec_hash_from_parts(tag@, value@),
{
    let want: String = "HASH".to_owned();
    if *tag == want {
        parse_u64(value.as_slice())
    } else {
        None
    }
}

/// The tagged text form of a block id.
pub fn encode_tagged_block(b: &BlockId) -> (r: String)
    ensures
        tb64_parse_of(r@) == Some(("BK"@, b.encoding())),
{
    let digits = encode_u64(b.0);
    proof {
        lemma_bk_tag_safe();
    }
    match tb64_encode("BK", digits.as_slice()) {
        Some(s) => s,
        None => {
            proof {
                assert(false);
            }
            String::new()
        },
    }
}

/// The tagged text form of a transaction id.
pub fn encode_tagged_txn(t: &TransactionId) -> (r: String)
    ensures
        tb64_parse_of(r@) == Some(("TX"@, t.encoding())),
{
    let digits = t.encode();
    proof {
        lemma_tx_tag_safe();
    }
    match tb64_encode("TX", digits.as_slice()) {
        Some(s) => s,
        None => {
            proof {
                assert(false);
            }
            String::new()
        },
    }
}

/// Decode a tagged block id; fails with `MalformedAddress` exactly where the
/// text is not a block identifier with a decimal index payload.
pub fn decode_tagged_block(s: &str) -> (r: Result<BlockId, AddressError>)
    ensures
        r matches Ok(b) ==> spec_decode_tagged_block(s@) == Some(b),
        r matches Err(e) ==> spec_decode_tagged_block(s@) is None && e
            == AddressError::MalformedAddress,
{
    match tb64_parse(s) {
        Some((tag, value)) => match block_from_parts(&tag, &value) {
            Some(b) => Ok(b),
            None => Err(AddressError::MalformedAddress),
        },
        None => Err(AddressError::MalformedAddress),
    }
}

/// Decode a tagged transaction id; fails with `MalformedAddress` exactly
/// where the text is not a transaction identifier with a valid payload.
pub fn decode_tagged_txn(s: &str) -> (r: Result<TransactionId, AddressError>)
    ensures
        r matches Ok(t) ==> spec_decode_tagged_txn(s@) == Some(t),
        r matches Err(e) ==> spec_decode_tagged_txn(s@) is None && e
            == AddressError::MalformedAddress,
{
    match tb64_parse(s) {
        Some((tag, value)) => match txn_from_parts(&tag, &value) {
            Some(t) => Ok(t),
            None => Err(AddressError::MalformedAddress),
        },
        None => Err(AddressError::MalformedAddress),
    }
}

/// Law: a tagged block id round-trips through the identifier codec without
/// loss — any text the codec parses back to the block tag and the block's
/// decimal payload decodes to the same block id.
pub proof fn lemma_tagged_block_round_trip(b: BlockId, s: Seq<char>)
    requires
        tb64_parse_of(s) == Some(("BK"@, b.encoding())),
    ensures
        spec_decode_tagged_block(s) == Some(b),
{
    crate::address::lemma_u64_round_trip(b.0);
}

/// Law: a tagged transaction id round-trips through the identifier codec
/// without loss.
pub proof fn lemma_tagged_txn_round_trip(t: TransactionId, s: Seq<char>)
    requires
        tb64_parse_of(s) == Some(("TX"@, t.encoding())),
    ensures
        spec_decode_tagged_txn(s) == Some(t),
{
    crate::address::lemma_txn_round_trip(t);
}

} // verus!
