//! The hexadecimal codec for block heights and balances: `0x`-prefixed
//! strings decoded to integers, integers encoded back, and the law that
//! the two are inverse up to canonicalization.

use crate::digits::{
    all_digits, digits_of, digits_value, lemma_digits_of_value, lemma_digits_round_trip,
    lower_all, push_digits_u128, scan_digits_u128, strip_zeros, ScanError,
};
use crate::ext::chars_to_string;
use vstd::prelude::*;

verus! {

/// A well-formed height or balance literal: `0x`, then one or more
/// hexadecimal digits.
pub open spec fn is_hex_string(s: Seq<char>) -> bool {
    s.len() > 2 && s[0] == '0' && s[1] == 'x' && all_digits(s.skip(2), 16)
}

/// The number a well-formed literal denotes.
pub open spec fn hex_string_value(s: Seq<char>) -> nat {
    digits_value(s.skip(2), 16)
}

/// The canonical rendering of `n`: `0x`, then lower-case digits with no
/// leading zero.
pub open spec fn hex_encoding(n: nat) -> Seq<char> {
    seq!['0', 'x'] + digits_of(n, 16)
}

/// A well-formed literal brought to canonical form: digits lower-cased
/// and leading zeros dropped.
pub open spec fn normalize_hex(s: Seq<char>) -> Seq<char> {
    seq!['0', 'x'] + strip_zeros(lower_all(s.skip(2)))
}

/// Why a literal failed to decode.
#[derive(Clone, Copy, Debug, PartialEq, Eq, Structural)]
pub enum DecodeError {
    /// No `0x` prefix, no digits, or a character that is not a
    /// hexadecimal digit.
    Malformed,
    /// Well formed, but too large for the requested integer type.
    Overflow,
}

/// Decodes a `0x`-prefixed literal as an unsigned 128-bit balance.
pub fn decode_hex_u128(s: &str) -> (r: Result<u128, DecodeError>)
    ensures
        r is Ok <==> is_hex_string(s@) && hex_string_value(s@) <= u128::MAX,
        r matches Ok(v) ==> v == hex_string_value(s@),
        r == Err::<u128, DecodeError>(DecodeError::Malformed) <==> !is_hex_string(s@),
        r == Err::<u128, DecodeError>(DecodeError::Overflow) <==> is_hex_string(s@)
            && hex_string_value(s@) > u128::MAX,
{
    let len = s.unicode_len();
    if len <= 2 {
        return Err(DecodeError::Malformed);
    }
    if s.get_char(0) != '0' || s.get_char(1) != 'x' {
        return Err(DecodeError::Malformed);
    }
    match scan_digits_u128(s, 2, 16) {
        Ok(v) => Ok(v),
        Err(ScanError::NotDigits) => Err(DecodeError::Malformed),
        Err(ScanError::Overflow) => Err(DecodeError::Overflow),
    }
}

/// Decodes a `0x`-prefixed literal as a signed 64-bit block height; the
/// decoded height is never negative.
pub fn decode_hex_i64(s: &str) -> (r: Result<i64, DecodeError>)
    ensures
        r is Ok <==> is_hex_string(s@) && hex_string_value(s@) <= i64::MAX,
        r matches Ok(v) ==> v == hex_string_value(s@) && v >= 0,
        r == Err::<i64, DecodeError>(DecodeError::Malformed) <==> !is_hex_string(s@),
        r == Err::<i64, DecodeError>(DecodeError::Overflow) <==> is_hex_string(s@)
            && hex_string_value(s@) > i64::MAX,
{
    match decode_hex_u128(s) {
        Ok(v) => {
            if v <= i64::MAX as u128 {
                Ok(v as i64)
            } else {
                Err(DecodeError::Overflow)
            }
        },
        Err(e) => Err(e),
    }
}

/// Encodes a balance in canonical `0x` form.
pub fn encode_hex_u128(n: u128) -> (r: String)
    ensures
        r@ == hex_encoding(n as nat),
{
    let mut out: Vec<char> = Vec::new();
    out.push('0');
    out.push('x');
    push_digits_u128(&mut out, n, 16);
    proof {
        assert(out@ =~= seq!['0', 'x'] + digits_of(n as nat, 16));
    }
    chars_to_string(out)
}

/// Encodes a block height in canonical `0x` form.
pub fn encode_hex_i64(n: i64) -> (r: String)
    requires
        0 <= n,
    ensures
        r@ == hex_encoding(n as nat),
{
    encode_hex_u128(n as u128)
}

/// Round trip: decoding a well-formed literal and encoding the decoded
/// number gives the literal back in canonical form.
pub proof fn lemma_hex_round_trip(s: Seq<char>)
    requires
        is_hex_string(s),
    ensures
        hex_encoding(hex_string_value(s)) == normalize_hex(s),
{
    lemma_digits_round_trip(s.skip(2), 16);
}

/// The companion direction: every encoding is a well-formed literal and
/// decodes to the number it was made from.
pub proof fn lemma_hex_encoding_decodes(n: nat)
    ensures
        is_hex_string(hex_encoding(n)),
        hex_string_value(hex_encoding(n)) == n,
{
    lemma_digits_of_value(n, 16);
    let e = hex_encoding(n);
    assert(e.skip(2) =~= digits_of(n, 16));
    assert(e[0] == '0' && e[1] == 'x');
}

} // verus!
