//! The trusted boundary around the tagged-base64 identifier codec.
//!
//! Identifiers on the wire are `tag~base64(payload‖checksum)` strings. The
//! encoding and parsing of that form is the outside crate's job; verified
//! code sees the tag and the payload bytes as plain values, and the parse
//! result is named by an uninterpreted function of the input characters.

use vstd::prelude::*;
use tagged_base64::TaggedBase64;

verus! {

/// The tag and payload that `TaggedBase64::parse` recovers from a string, or
/// `None` where the string is not a well-formed tagged identifier. The result
/// depends on the characters of the input alone.
pub uninterp spec fn tb64_parse_of(s: Seq<char>) -> Option<(Seq<char>, Seq<u8>)>;

/// A character the identifier codec accepts in a tag: URL-safe base64.
pub open spec fn is_safe_tag_char(c: char) -> bool {
    ('a' <= c && c <= 'z') || ('A' <= c && c <= 'Z') || ('0' <= c && c <= '9') || c == '-'
        || c == '_'
}

/// A tag the identifier codec accepts.
pub open spec fn is_safe_tag(s: Seq<char>) -> bool {
    forall|i: int| 0 <= i < s.len() ==> is_safe_tag_char(#[trigger] s[i])
}

/// Relies on tagged_base64::TaggedBase64::parse (and the tag and value
/// accessors, which copy the parsed fields out): a deterministic parse of the
/// `tag~data` form, accepting only URL-safe tags and checksummed payloads.
#[verifier::external_body]
pub(crate) fn tb64_parse(s: &str) -> (r: Option<(String, Vec<u8>)>)
    ensures
        match r {
            Some((tag, value)) => tb64_parse_of(s@) == Some((tag@, value@)) && is_safe_tag(tag@),
            None => tb64_parse_of(s@) is None,
        },
{
    match TaggedBase64::parse(s) {
        Ok(t) => Some((t.tag(), t.value())),
        Err(_) => None,
    }
}

/// Relies on tagged_base64::TaggedBase64::new and tagged_base64::to_string:
/// construction succeeds exactly for a URL-safe tag, and the crate's parse
/// recovers the tag and payload from the string it displays (the crate's
/// display/parse round trip).
#[verifier::external_body]
pub(crate) fn tb64_encode(tag: &str, value: &[u8]) -> (r: Option<String>)
    ensures
        r is Some <==> is_safe_tag(tag@),
        r matches Some(s) ==> tb64_parse_of(s@) == Some((tag@, value@)),
{
    match TaggedBase64::new(tag, value) {
        Ok(t) => Some(tagged_base64::to_string(&t)),
        Err(_) => None,
    }
}

} // verus!
