//! Canonical addresses for committed blocks and transactions, with a
//! deterministic, bidirectional text encoding fit for URL path segments.
//!
//! A block address is the decimal digits of its index; a transaction address
//! is the block's digits, a dash, and the digits of the transaction's position
//! inside the block. Decoding a malformed address fails with
//! `AddressError::MalformedAddress`; it never panics and never defaults.

use vstd::prelude::*;
use vstd::arithmetic::div_mod::lemma_fundamental_div_mod;
use vstd::slice::slice_subrange;

verus! {

/// Index of a committed block in the ledger's block sequence.
#[derive(Clone, Copy, PartialEq, Eq, Structural, Debug)]
pub struct BlockId(pub u64);

/// A transaction addressed by its containing block and its position there.
#[derive(Clone, Copy, PartialEq, Eq, Structural, Debug)]
pub struct TransactionId(pub BlockId, pub u64);

/// Failure of the address codec: the text form does not decode.
#[derive(Clone, Copy, PartialEq, Eq, Structural, Debug)]
pub enum AddressError {
    MalformedAddress,
}

/// ASCII `'0'`.
pub const DIGIT_LO: u8 = 48;

/// ASCII `'9'`.
pub const DIGIT_HI: u8 = 57;

/// ASCII `'-'`, the separator inside a transaction address.
pub const DASH: u8 = 45;

pub open spec fn is_dec_digit(b: u8) -> bool {
    DIGIT_LO <= b && b <= DIGIT_HI
}

pub open spec fn all_dec_digits(s: Seq<u8>) -> bool {
    forall|i: int| 0 <= i < s.len() ==> is_dec_digit(#[trigger] s[i])
}

/// The canonical decimal digit string of `n`, most significant digit first.
pub open spec fn dec_digits(n: nat) -> Seq<u8>
    decreases n,
{
    if n < 10 {
        seq![(DIGIT_LO + n) as u8]
    } else {
        dec_digits(n / 10).push((DIGIT_LO + n % 10) as u8)
    }
}

/// The number a digit string denotes (most significant digit first).
pub open spec fn dec_value(s: Seq<u8>) -> int
    decreases s.len(),
{
    if s.len() == 0 {
        0
    } else {
        dec_value(s.drop_last()) * 10 + (s.last() - DIGIT_LO)
    }
}

/// What `u64` text decoding accepts: a nonempty, in-range digit string.
pub open spec fn spec_decode_u64(s: Seq<u8>) -> Option<u64> {
    if s.len() > 0 && all_dec_digits(s) && dec_value(s) <= u64::MAX {
        Some(dec_value(s) as u64)
    } else {
        None
    }
}

pub proof fn lemma_dec_value_nonneg(s: Seq<u8>)
    requires
        all_dec_digits(s),
    ensures
        dec_value(s) >= 0,
    decreases s.len(),
{
    if s.len() > 0 {
        assert(all_dec_digits(s.drop_last()));
        lemma_dec_value_nonneg(s.drop_last());
    }
}

/// Extending a digit string can only grow its value.
pub proof fn lemma_dec_value_prefix_mono(s: Seq<u8>, i: int)
    requires
        0 <= i <= s.len(),
        all_dec_digits(s),
    ensures
        dec_value(s.subrange(0, i)) <= dec_value(s),
    decreases s.len() - i,
{
    if i == s.len() {
        assert(s.subrange(0, i) =~= s);
    } else {
        lemma_dec_value_prefix_mono(s, i + 1);
        let t = s.subrange(0, i + 1);
        assert(t.drop_last() =~= s.subrange(0, i));
        assert(all_dec_digits(s.subrange(0, i)));
        lemma_dec_value_nonneg(s.subrange(0, i));
        assert(dec_value(t) == dec_value(s.subrange(0, i)) * 10 + (t.last() - DIGIT_LO));
    }
}

/// The canonical digit string of `n` is a nonempty digit string denoting `n`.
pub proof fn lemma_dec_digits_value(n: nat)
    ensures
        dec_digits(n).len() >= 1,
        all_dec_digits(dec_digits(n)),
        dec_value(dec_digits(n)) == n,
    decreases n,
{
    if n < 10 {
        let s = dec_digits(n);
        assert(((DIGIT_LO + n) as u8) as int == DIGIT_LO + n);
        assert(s.drop_last() =~= Seq::<u8>::empty());
        assert(dec_value(s) == dec_value(s.drop_last()) * 10 + (s.last() - DIGIT_LO));
    } else {
        lemma_dec_digits_value(n / 10);
        let s = dec_digits(n / 10);
        let d = (DIGIT_LO + n % 10) as u8;
        assert(d as int == DIGIT_LO + n % 10);
        assert(s.push(d).drop_last() =~= s);
        assert(s.push(d).last() == d);
        lemma_fundamental_div_mod(n as int, 10);
    }
}

/// Decoding inverts encoding for every representable number.
pub proof fn lemma_u64_round_trip(n: u64)
    ensures
        spec_decode_u64(dec_digits(n as nat)) == Some(n),
{
    lemma_dec_digits_value(n as nat);
}

/// The canonical decimal digits of `n`, as bytes.
pub fn encode_u64(n: u64) -> (r: Vec<u8>)
    ensures
        r@ == dec_digits(n as nat),
    decreases n,
{
    if n < 10 {
        let mut v: Vec<u8> = Vec::new();
        v.push(DIGIT_LO + n as u8);
        proof {
            assert(v@ =~= dec_digits(n as nat));
        }
        v
    } else {
        let mut v = encode_u64(n / 10);
        v.push(DIGIT_LO + (n % 10) as u8);
        proof {
            assert(v@ =~= dec_digits(n as nat));
        }
        v
    }
}

/// Decode a decimal digit string; `None` exactly on empty input, a non-digit
/// byte, or a value that does not fit in `u64`.
pub fn parse_u64(s: &[u8]) -> (r: Option<u64>)
    ensures
        r == spec_decode_u64(s@),
{
    if s.len() == 0 {
        return None;
    }
    let mut acc: u64 = 0;
    let mut i: usize = 0;
    while i < s.len()
        invariant
            0 <= i <= s@.len(),
            s@.len() > 0,
            all_dec_digits(s@.subrange(0, i as int)),
            acc as int == dec_value(s@.subrange(0, i as int)),
        decreases s@.len() - i,
    {
        let b = s[i];
        if b < DIGIT_LO || b > DIGIT_HI {
            assert(!is_dec_digit(s@[i as int]));
            return None;
        }
        let d = (b - DIGIT_LO) as u64;
        proof {
            assert(s@.subrange(0, i + 1).drop_last() =~= s@.subrange(0, i as int));
            assert(s@.subrange(0, i + 1).last() == s@[i as int]);
        }
        let scaled = match acc.checked_mul(10) {
            Some(x) => x.checked_add(d),
            None => None,
        };
        match scaled {
            Some(x) => {
                acc = x;
            },
            None => {
                proof {
                    if all_dec_digits(s@) {
                        lemma_dec_value_prefix_mono(s@, i + 1);
                    }
                }
                return None;
            },
        }
        i += 1;
    }
    proof {
        assert(s@.subrange(0, i as int) =~= s@);
    }
    Some(acc)
}

impl BlockId {
    /// The canonical text form of this block address.
    pub open spec fn encoding(self) -> Seq<u8> {
        dec_digits(self.0 as nat)
    }

    pub fn encode(&self) -> (r: Vec<u8>)
        ensures
            r@ == self.encoding(),
    {
        encode_u64(self.0)
    }

    /// Decode a block address; fails with `MalformedAddress` exactly when the
    /// bytes are not a nonempty, in-range digit string.
    pub fn decode(s: &[u8]) -> (r: Result<BlockId, AddressError>)
        ensures
            match r {
                Ok(b) => spec_decode_u64(s@) == Some(b.0),
                Err(e) => spec_decode_u64(s@) is None && e == AddressError::MalformedAddress,
            },
    {
        match parse_u64(s) {
            Some(n) => Ok(BlockId(n)),
            None => Err(AddressError::MalformedAddress),
        }
    }
}

/// A dash at `j` with only digits before it. At most one such position exists
/// in any byte string, so it needs no tie-breaking rule.
pub open spec fn txn_split_at(s: Seq<u8>, j: int) -> bool {
    &&& 0 <= j < s.len()
    &&& s[j] == DASH
    &&& forall|i: int| 0 <= i < j ==> is_dec_digit(#[trigger] s[i])
}

pub proof fn lemma_txn_split_unique(s: Seq<u8>, j1: int, j2: int)
    requires
        txn_split_at(s, j1),
        txn_split_at(s, j2),
    ensures
        j1 == j2,
{
    if j1 < j2 {
        assert(is_dec_digit(s[j1]));
    }
    if j2 < j1 {
        assert(is_dec_digit(s[j2]));
    }
}

/// What transaction-address decoding accepts: digits, a dash, digits, with
/// both numbers in range.
pub open spec fn spec_decode_txn(s: Seq<u8>) -> Option<TransactionId> {
    if exists|j: int| txn_split_at(s, j) {
        let j = choose|j: int| txn_split_at(s, j);
        match (spec_decode_u64(s.subrange(0, j)), spec_decode_u64(s.subrange(j + 1, s.len() as int))) {
            (Some(b), Some(t)) => Some(TransactionId(BlockId(b), t)),
            _ => None,
        }
    } else {
        None
    }
}

impl TransactionId {
    /// The canonical text form: block digits, a dash, transaction digits.
    pub open spec fn encoding(self) -> Seq<u8> {
        dec_digits(self.0.0 as nat) + seq![DASH] + dec_digits(self.1 as nat)
    }

    pub fn encode(&self) -> (r: Vec<u8>)
        ensures
            r@ == self.encoding(),
    {
        let mut v = encode_u64(self.0.0);
        v.push(DASH);
        let mut tail = encode_u64(self.1);
        v.append(&mut tail);
        proof {
            assert(v@ =~= self.encoding());
        }
        v
    }

    /// Decode a transaction address; fails with `MalformedAddress` exactly
    /// when the bytes are not two in-range digit strings joined by a dash.
    pub fn decode(s: &[u8]) -> (r: Result<TransactionId, AddressError>)
        ensures
            match r {
                Ok(t) => spec_decode_txn(s@) == Some(t),
                Err(e) => spec_decode_txn(s@) is None && e == AddressError::MalformedAddress,
            },
    {
        let mut j: usize = 0;
        while j < s.len() && s[j] != DASH
            invariant
                0 <= j <= s@.len(),
                forall|i: int| 0 <= i < j ==> s@[i] != DASH,
            decreases s@.len() - j,
        {
            j += 1;
        }
        if j == s.len() {
            proof {
                assert(forall|i: int| !txn_split_at(s@, i));
            }
            return Err(AddressError::MalformedAddress);
        }
        let left = parse_u64(slice_subrange(s, 0, j));
        let right = parse_u64(slice_subrange(s, j + 1, s.len()));
        match (left, right) {
            (Some(b), Some(t)) => {
                proof {
                    let left_view = s@.subrange(0, j as int);
                    assert forall|i: int| 0 <= i < j implies is_dec_digit(#[trigger] s@[i]) by {
                        assert(s@[i] == left_view[i]);
                        assert(is_dec_digit(left_view[i]));
                    }
                    assert(txn_split_at(s@, j as int));
                    let jj = choose|i: int| txn_split_at(s@, i);
                    lemma_txn_split_unique(s@, jj, j as int);
                }
                Ok(TransactionId(BlockId(b), t))
            },
            _ => {
                proof {
                    if exists|i: int| txn_split_at(s@, i) {
                        let jj = choose|i: int| txn_split_at(s@, i);
                        if jj != j as int {
                            if jj < j as int {
                                assert(s@[jj] != DASH);
                            } else {
                                assert(is_dec_digit(s@[j as int]));
                            }
                        }
                    }
                }
                Err(AddressError::MalformedAddress)
            },
        }
    }
}

/// Law: a transaction address round-trips through the codec without loss.
pub proof fn lemma_txn_round_trip(t: TransactionId)
    ensures
        spec_decode_txn(t.encoding()) == Some(t),
{
    let s = t.encoding();
    let left = dec_digits(t.0.0 as nat);
    let right = dec_digits(t.1 as nat);
    lemma_dec_digits_value(t.0.0 as nat);
    lemma_dec_digits_value(t.1 as nat);
    let j = left.len() as int;
    assert(txn_split_at(s, j)) by {
        assert(forall|i: int| 0 <= i < j ==> s[i] == left[i] && is_dec_digit(#[trigger] left[i]));
    }
    let jj = choose|i: int| txn_split_at(s, i);
    lemma_txn_split_unique(s, jj, j);
    assert(s.subrange(0, j) =~= left);
    assert(s.subrange(j + 1, s.len() as int) =~= right);
}

/// Law: a block address round-trips through the codec without loss.
pub proof fn lemma_block_round_trip(b: BlockId)
    ensures
        spec_decode_u64(b.encoding()) == Some(b.0),
{
    lemma_u64_round_trip(b.0);
}

} // verus!
