//! The decimal codec: query parameters parsed the way `str::parse` reads
//! signed and unsigned integers, and numbers rendered for JSON bodies.

use crate::digits::{
    all_digits, digits_of, digits_value, push_digits_u128, scan_digits_u128, ScanError,
};
use crate::ext::chars_to_string;
use vstd::prelude::*;

verus! {

/// The digit part of a decimal literal, after an optional leading sign.
pub open spec fn dec_magnitude(s: Seq<char>) -> Seq<char> {
    if s.len() > 0 && (s[0] == '+' || s[0] == '-') {
        s.skip(1)
    } else {
        s
    }
}

/// Whether the literal carries a minus sign.
pub open spec fn dec_negative(s: Seq<char>) -> bool {
    s.len() > 0 && s[0] == '-'
}

/// A well-formed decimal literal: an optional sign, then one or more
/// decimal digits.
pub open spec fn is_dec_string(s: Seq<char>) -> bool {
    dec_magnitude(s).len() > 0 && all_digits(dec_magnitude(s), 10)
}

/// The integer a well-formed literal denotes.
pub open spec fn dec_string_value(s: Seq<char>) -> int {
    if dec_negative(s) {
        -(digits_value(dec_magnitude(s), 10) as int)
    } else {
        digits_value(dec_magnitude(s), 10) as int
    }
}

/// The decimal rendering of an integer, with a minus sign when negative.
pub open spec fn dec_encoding(v: int) -> Seq<char> {
    if v < 0 {
        seq!['-'] + digits_of((-v) as nat, 10)
    } else {
        digits_of(v as nat, 10)
    }
}

/// Reads a signed 64-bit query parameter; `None` exactly when the text
/// is not a decimal literal or its value does not fit.
pub fn parse_dec_i64(s: &str) -> (r: Option<i64>)
    ensures
        r is Some ==> (is_dec_string(s@) && i64::MIN <= dec_string_value(s@) <= i64::MAX),
        (is_dec_string(s@) && i64::MIN <= dec_string_value(s@) <= i64::MAX) ==> r is Some,
        r matches Some(v) ==> v == dec_string_value(s@),
{
    let len = s.unicode_len();
    let mut neg = false;
    let mut start: usize = 0;
    if len > 0 {
        let c = s.get_char(0);
        if c == '-' {
            neg = true;
            start = 1;
        } else if c == '+' {
            start = 1;
        }
    }
    proof {
        if start == 0 {
            assert(s@.skip(0) =~= s@);
        }
        assert(dec_magnitude(s@) == s@.skip(start as int));
    }
    let sc = scan_digits_u128(s, start, 10);
    match sc {
        Ok(mag) => {
            if neg {
                if mag < 9223372036854775808u128 {
                    Some(-(mag as i64))
                } else if mag == 9223372036854775808u128 {
                    Some(i64::MIN)
                } else {
                    None
                }
            } else {
                if mag <= i64::MAX as u128 {
                    Some(mag as i64)
                } else {
                    None
                }
            }
        },
        Err(ScanError::NotDigits) => {
            proof {
                assert(sc == Err::<u128, ScanError>(ScanError::NotDigits));
                assert(!is_dec_string(s@));
            }
            None
        },
        Err(ScanError::Overflow) => {
            proof {
                assert(sc == Err::<u128, ScanError>(ScanError::Overflow));
                assert(digits_value(s@.skip(start as int), 10) > u128::MAX);
            }
            None
        },
    }
}

/// Reads an unsigned 128-bit query parameter; a minus sign is never
/// accepted.
pub fn parse_dec_u128(s: &str) -> (r: Option<u128>)
    ensures
        r is Some ==> (is_dec_string(s@) && !dec_negative(s@) && dec_string_value(s@)
            <= u128::MAX),
        (is_dec_string(s@) && !dec_negative(s@) && dec_string_value(s@) <= u128::MAX)
            ==> r is Some,
        r matches Some(v) ==> v == dec_string_value(s@),
{
    let len = s.unicode_len();
    let mut start: usize = 0;
    if len > 0 {
        let c = s.get_char(0);
        if c == '-' {
            return None;
        }
        if c == '+' {
            start = 1;
        }
    }
    proof {
        if start == 0 {
            assert(s@.skip(0) =~= s@);
        }
        assert(dec_magnitude(s@) == s@.skip(start as int));
    }
    let sc = scan_digits_u128(s, start, 10);
    match sc {
        Ok(mag) => Some(mag),
        Err(ScanError::NotDigits) => {
            proof {
                assert(sc == Err::<u128, ScanError>(ScanError::NotDigits));
                assert(!(s@.skip(start as int).len() > 0
                    && all_digits(s@.skip(start as int), 10)));
                assert(!is_dec_string(s@));
            }
            None
        },
        Err(ScanError::Overflow) => {
            proof {
                assert(sc == Err::<u128, ScanError>(ScanError::Overflow));
                assert(digits_value(s@.skip(start as int), 10) > u128::MAX);
                assert(dec_string_value(s@) > u128::MAX);
            }
            None
        },
    }
}

/// Renders an unsigned number in decimal.
pub fn render_dec_u128(n: u128) -> (r: String)
    ensures
        r@ == dec_encoding(n as int),
{
    let mut out: Vec<char> = Vec::new();
    push_digits_u128(&mut out, n, 10);
    proof {
        assert(out@ =~= digits_of(n as nat, 10));
    }
    chars_to_string(out)
}

/// Renders a signed number in decimal.
pub fn render_dec_i64(n: i64) -> (r: String)
    ensures
        r@ == dec_encoding(n as int),
{
    if n >= 0 {
        let mut out: Vec<char> = Vec::new();
        push_digits_u128(&mut out, n as u128, 10);
        proof {
            assert(out@ =~= digits_of(n as nat, 10));
        }
        chars_to_string(out)
    } else {
        let mag: u128 = (-(n as i128)) as u128;
        proof {
            assert(mag == -(n as int));
        }
        let mut out: Vec<char> = Vec::new();
        out.push('-');
        push_digits_u128(&mut out, mag, 10);
        proof {
            assert(out@ =~= seq!['-'] + digits_of(mag as nat, 10));
        }
        chars_to_string(out)
    }
}

} // verus!

