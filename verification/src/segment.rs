//! Typed URL path segments.
//!
//! Every route parameter declares one of a closed set of types; the raw text
//! is decoded once at the boundary into a typed value, and handlers consume
//! only typed values. A segment that fails to decode against its declared
//! type is a request error — the client's fault, never a server fault and
//! never a panic.

use vstd::prelude::*;
use vstd::string::StringSliceAdditionalSpecFns;
use crate::address::{parse_u64, spec_decode_u64};
use crate::tb64::{tb64_parse, tb64_parse_of};

verus! {

/// Types a URL path segment may declare.
#[derive(Clone, Copy, PartialEq, Eq, Structural, Debug)]
pub enum UrlSegmentType {
    Boolean,
    Hexadecimal,
    Integer,
    TaggedBase64,
    Literal,
}

/// A segment decoded against its declared type.
#[derive(Clone, PartialEq, Eq, Debug)]
pub enum UrlSegmentValue {
    Boolean(bool),
    Hexadecimal(u64),
    Integer(u64),
    Identifier { tag: String, value: Vec<u8> },
    Literal(String),
}

/// Malformed client input, reported with the type the parameter declared.
#[derive(Clone, Copy, PartialEq, Eq, Structural, Debug)]
pub enum RequestError {
    /// A required parameter was absent from the request.
    MissingParam,
    /// The raw segment text did not decode against the declared type.
    ParseFailed { expected: UrlSegmentType },
    /// The decoded value was of a different type than the handler needs.
    WrongValueType { expected: UrlSegmentType },
}

/// The bytes of the text `true`.
pub open spec fn ascii_true() -> Seq<u8> {
    seq![0x74u8, 0x72u8, 0x75u8, 0x65u8]
}

/// The bytes of the text `false`.
pub open spec fn ascii_false() -> Seq<u8> {
    seq![0x66u8, 0x61u8, 0x6cu8, 0x73u8, 0x65u8]
}

/// What boolean decoding accepts: exactly `true` or `false`.
pub open spec fn spec_parse_bool(s: Seq<u8>) -> Option<bool> {
    if s == ascii_true() {
        Some(true)
    } else if s == ascii_false() {
        Some(false)
    } else {
        None
    }
}

pub fn parse_bool(s: &[u8]) -> (r: Option<bool>)
    ensures
        r == spec_parse_bool(s@),
{
    if s.len() == 4 && s[0] == 0x74 && s[1] == 0x72 && s[2] == 0x75 && s[3] == 0x65 {
        proof {
            assert(s@ =~= ascii_true());
        }
        return Some(true);
    }
    if s.len() == 5 && s[0] == 0x66 && s[1] == 0x61 && s[2] == 0x6c && s[3] == 0x73 && s[4]
        == 0x65 {
        proof {
            assert(s@ =~= ascii_false());
        }
        return Some(false);
    }
    proof {
        if s@ == ascii_true() {
            assert(s@.len() == 4 && s@[0] == 0x74 && s@[1] == 0x72 && s@[2] == 0x75 && s@[3]
                == 0x65);
        }
        if s@ == ascii_false() {
            assert(s@.len() == 5 && s@[0] == 0x66 && s@[1] == 0x61 && s@[2] == 0x6c && s@[3]
                == 0x73 && s@[4] == 0x65);
        }
    }
    None
}

pub open spec fn is_hex_digit(b: u8) -> bool {
    (48 <= b && b <= 57) || (97 <= b && b <= 102) || (65 <= b && b <= 70)
}

/// The numeric value of one hexadecimal digit (both letter cases).
pub open spec fn hex_digit_val(b: u8) -> int {
    if 48 <= b && b <= 57 {
        b - 48
    } else if 97 <= b && b <= 102 {
        b - 87
    } else if 65 <= b && b <= 70 {
        b - 55
    } else {
        0
    }
}

pub open spec fn all_hex_digits(s: Seq<u8>) -> bool {
    forall|i: int| 0 <= i < s.len() ==> is_hex_digit(#[trigger] s[i])
}

/// The number a hexadecimal digit string denotes.
pub open spec fn hex_value(s: Seq<u8>) -> int
    decreases s.len(),
{
    if s.len() == 0 {
        0
    } else {
        hex_value(s.drop_last()) * 16 + hex_digit_val(s.last())
    }
}

/// What hexadecimal decoding accepts: a nonempty, in-range hex digit string.
pub open spec fn spec_decode_hex_u64(s: Seq<u8>) -> Option<u64> {
    if s.len() > 0 && all_hex_digits(s) && hex_value(s) <= u64::MAX {
        Some(hex_value(s) as u64)
    } else {
        None
    }
}

pub proof fn lemma_hex_value_nonneg(s: Seq<u8>)
    requires
        all_hex_digits(s),
    ensures
        hex_value(s) >= 0,
    decreases s.len(),
{
    if s.len() > 0 {
        assert(all_hex_digits(s.drop_last()));
        lemma_hex_value_nonneg(s.drop_last());
    }
}

/// Extending a hex digit string can only grow its value.
pub proof fn lemma_hex_value_prefix_mono(s: Seq<u8>, i: int)
    requires
        0 <= i <= s.len(),
        all_hex_digits(s),
    ensures
        hex_value(s.subrange(0, i)) <= hex_value(s),
    decreases s.len() - i,
{
    if i == s.len() {
        assert(s.subrange(0, i) =~= s);
    } else {
        lemma_hex_value_prefix_mono(s, i + 1);
        let t = s.subrange(0, i + 1);
        assert(t.drop_last() =~= s.subrange(0, i));
        assert(all_hex_digits(s.subrange(0, i)));
        lemma_hex_value_nonneg(s.subrange(0, i));
        assert(hex_value(t) == hex_value(s.subrange(0, i)) * 16 + hex_digit_val(t.last()));
    }
}

/// Decode a hexadecimal digit string; `None` exactly on empty input, a
/// non-hex byte, or a value that does not fit in `u64`.
pub fn parse_hex_u64(s: &[u8]) -> (r: Option<u64>)
    ensures
        r == spec_decode_hex_u64(s@),
{
    if s.len() == 0 {
        return None;
    }
    let mut acc: u64 = 0;
    let mut i: usize = 0;
    while i < s.len()
        invariant
            0 <= i <= s@.len(),
            s@.len() > 0,
            all_hex_digits(s@.subrange(0, i as int)),
            acc as int == hex_value(s@.subrange(0, i as int)),
        decreases s@.len() - i,
    {
        let b = s[i];
        let d: u64 = if 48 <= b && b <= 57 {
            (b - 48) as u64
        } else if 97 <= b && b <= 102 {
            (b - 87) as u64
        } else if 65 <= b && b <= 70 {
            (b - 55) as u64
        } else {
            assert(!is_hex_digit(s@[i as int]));
            return None;
        };
        proof {
            assert(s@.subrange(0, i + 1).drop_last() =~= s@.subrange(0, i as int));
            assert(s@.subrange(0, i + 1).last() == s@[i as int]);
            assert(d as int == hex_digit_val(s@[i as int]));
        }
        let scaled = match acc.checked_mul(16) {
            Some(x) => x.checked_add(d),
            None => None,
        };
        match scaled {
            Some(x) => {
                acc = x;
            },
            None => {
                proof {
                    if all_hex_digits(s@) {
                        lemma_hex_value_prefix_mono(s@, i + 1);
                    }
                }
                return None;
            },
        }
        i += 1;
    }
    proof {
        assert(s@.subrange(0, i as int) =~= s@);
    }
    Some(acc)
}

/// Decode a raw segment against its declared type. `None` exactly where the
/// text does not belong to the type; a literal segment is kept as given.
pub fn parse(value: &str, ptype: UrlSegmentType) -> (r: Option<UrlSegmentValue>)
    ensures
        match ptype {
            UrlSegmentType::Boolean => match spec_parse_bool(value.spec_bytes()) {
                Some(b) => r == Some(UrlSegmentValue::Boolean(b)),
                None => r is None,
            },
            UrlSegmentType::Hexadecimal => match spec_decode_hex_u64(value.spec_bytes()) {
                Some(n) => r == Some(UrlSegmentValue::Hexadecimal(n)),
                None => r is None,
            },
            UrlSegmentType::Integer => match spec_decode_u64(value.spec_bytes()) {
                Some(n) => r == Some(UrlSegmentValue::Integer(n)),
                None => r is None,
            },
            UrlSegmentType::TaggedBase64 => match tb64_parse_of(value@) {
                Some((t, v)) => r matches Some(UrlSegmentValue::Identifier { tag, value: bytes })
                    && tag@ == t && bytes@ == v,
                None => r is None,
            },
            UrlSegmentType::Literal => r matches Some(UrlSegmentValue::Literal(s)) && s@
                == value@,
        },
{
    match ptype {
        UrlSegmentType::Boolean => match parse_bool(value.as_bytes()) {
            Some(b) => Some(UrlSegmentValue::Boolean(b)),
            None => None,
        },
        UrlSegmentType::Hexadecimal => match parse_hex_u64(value.as_bytes()) {
            Some(n) => Some(UrlSegmentValue::Hexadecimal(n)),
            None => None,
        },
        UrlSegmentType::Integer => match parse_u64(value.as_bytes()) {
            Some(n) => Some(UrlSegmentValue::Integer(n)),
            None => None,
        },
        UrlSegmentType::TaggedBase64 => match tb64_parse(value) {
            Some((tag, bytes)) => Some(UrlSegmentValue::Identifier { tag, value: bytes }),
            None => None,
        },
        UrlSegmentType::Literal => Some(UrlSegmentValue::Literal(value.to_owned())),
    }
}

impl UrlSegmentValue {
    /// The boolean a handler asked for; the declared type must match.
    pub fn as_boolean(&self) -> (r: Result<bool, RequestError>)
        ensures
            match self {
                UrlSegmentValue::Boolean(b) => r == Ok::<bool, RequestError>(*b),
                _ => r == Err::<bool, RequestError>(
                    RequestError::WrongValueType { expected: UrlSegmentType::Boolean },
                ),
            },
    {
        match self {
            UrlSegmentValue::Boolean(b) => Ok(*b),
            _ => Err(RequestError::WrongValueType { expected: UrlSegmentType::Boolean }),
        }
    }

    /// The index a handler asked for; the declared type must match.
    pub fn as_index(&self) -> (r: Result<u64, RequestError>)
        ensures
            match self {
                UrlSegmentValue::Integer(n) => r == Ok::<u64, RequestError>(*n),
                _ => r == Err::<u64, RequestError>(
                    RequestError::WrongValueType { expected: UrlSegmentType::Integer },
                ),
            },
    {
        match self {
            UrlSegmentValue::Integer(n) => Ok(*n),
            _ => Err(RequestError::WrongValueType { expected: UrlSegmentType::Integer }),
        }
    }

    /// The tagged identifier a handler asked for, as tag and payload bytes.
    pub fn as_identifier(&self) -> (r: Result<(String, Vec<u8>), RequestError>)
        ensures
            match self {
                UrlSegmentValue::Identifier { tag, value } => r matches Ok((t, v)) && t@ == tag@
                    && v@ == value@,
                _ => r == Err::<(String, Vec<u8>), RequestError>(
                    RequestError::WrongValueType { expected: UrlSegmentType::TaggedBase64 },
                ),
            },
    {
        match self {
            UrlSegmentValue::Identifier { tag, value } => Ok(
                (tag.clone(), crate::util::copy_bytes(value)),
            ),
            _ => Err(RequestError::WrongValueType { expected: UrlSegmentType::TaggedBase64 }),
        }
    }
}

} // verus!
