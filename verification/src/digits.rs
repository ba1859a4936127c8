//! Positional digit strings: values of digit sequences, rendering of
//! integers as digit sequences, and the lemmas connecting the two.
//!
//! Both the hexadecimal codec (block heights, balances) and the decimal
//! codec (query parameters, JSON numbers) are built on these definitions,
//! with the radix passed explicitly.

use vstd::prelude::*;
use vstd::arithmetic::div_mod::{
    lemma_div_decreases, lemma_fundamental_div_mod, lemma_fundamental_div_mod_converse,
};

verus! {

/// Numeric value of one digit character, reading `0`-`9`, `a`-`f` and
/// `A`-`F`; any other character gets the out-of-range value 16.
pub open spec fn digit_val(c: char) -> nat {
    let u = c as u32;
    if 48 <= u && u <= 57 {
        (u - 48) as nat
    } else if 97 <= u && u <= 102 {
        (u - 97 + 10) as nat
    } else if 65 <= u && u <= 70 {
        (u - 65 + 10) as nat
    } else {
        16
    }
}

/// Whether `c` is a digit of the given radix.
pub open spec fn is_digit(c: char, radix: nat) -> bool {
    digit_val(c) < radix
}

/// Whether every character of `s` is a digit of the given radix.
pub open spec fn all_digits(s: Seq<char>, radix: nat) -> bool {
    forall|i: int| 0 <= i < s.len() ==> is_digit(s[i], radix)
}

/// The value of a digit sequence read most-significant first.
pub open spec fn digits_value(s: Seq<char>, radix: nat) -> nat
    decreases s.len(),
{
    if s.len() == 0 {
        0
    } else {
        digits_value(s.drop_last(), radix) * radix + digit_val(s.last())
    }
}

/// The lower-case digit character for a value below 16.
pub open spec fn digit_char(d: nat) -> char {
    if d == 0 {
        '0'
    } else if d == 1 {
        '1'
    } else if d == 2 {
        '2'
    } else if d == 3 {
        '3'
    } else if d == 4 {
        '4'
    } else if d == 5 {
        '5'
    } else if d == 6 {
        '6'
    } else if d == 7 {
        '7'
    } else if d == 8 {
        '8'
    } else if d == 9 {
        '9'
    } else if d == 10 {
        'a'
    } else if d == 11 {
        'b'
    } else if d == 12 {
        'c'
    } else if d == 13 {
        'd'
    } else if d == 14 {
        'e'
    } else if d == 15 {
        'f'
    } else {
        '0'
    }
}

/// The shortest digit rendering of `n` in the given radix, lower case,
/// most-significant first; zero is rendered as the single digit `0`.
pub open spec fn digits_of(n: nat, radix: nat) -> Seq<char>
    recommends
        2 <= radix,
    decreases n,
        when 2 <= radix
        via digits_of_decreases
{
    if n < radix {
        seq![digit_char(n)]
    } else {
        digits_of(n / radix, radix).push(digit_char(n % radix))
    }
}

#[via_fn]
proof fn digits_of_decreases(n: nat, radix: nat) {
    if n >= radix {
        lemma_div_decreases(n as int, radix as int);
    }
}

/// Lower-cases the six upper-case hexadecimal digits and leaves every
/// other character alone.
pub open spec fn lower_digit(c: char) -> char {
    if c == 'A' {
        'a'
    } else if c == 'B' {
        'b'
    } else if c == 'C' {
        'c'
    } else if c == 'D' {
        'd'
    } else if c == 'E' {
        'e'
    } else if c == 'F' {
        'f'
    } else {
        c
    }
}

/// `lower_digit` applied to every character.
pub open spec fn lower_all(s: Seq<char>) -> Seq<char> {
    Seq::new(s.len(), |i: int| lower_digit(s[i]))
}

/// Drops leading `0` characters, keeping at least one character.
pub open spec fn strip_zeros(s: Seq<char>) -> Seq<char>
    decreases s.len(),
{
    if s.len() <= 1 {
        s
    } else if s[0] == '0' {
        strip_zeros(s.drop_first())
    } else {
        s
    }
}

/// The value of any prefix is at most the value of the whole sequence.
pub proof fn lemma_digits_value_prefix(s: Seq<char>, k: int, radix: nat)
    requires
        0 <= k <= s.len(),
        2 <= radix,
    ensures
        digits_value(s.take(k), radix) <= digits_value(s, radix),
    decreases s.len(),
{
    if k == s.len() {
        assert(s.take(k) =~= s);
    } else {
        let p = s.drop_last();
        lemma_digits_value_prefix(p, k, radix);
        assert(p.take(k) =~= s.take(k));
        let v = digits_value(p, radix);
        assert(v * radix >= v) by (nonlinear_arith)
            requires radix >= 1
        ;
    }
}

/// Among digit characters, only `0` itself has the value zero.
pub proof fn lemma_digit_zero_char(c: char)
    ensures
        digit_val(c) == 0 <==> c == '0',
{
}

/// A digit sequence has value zero exactly when every digit is `0`.
pub proof fn lemma_digits_value_zero(s: Seq<char>, radix: nat)
    requires
        2 <= radix,
        all_digits(s, radix),
    ensures
        digits_value(s, radix) == 0 <==> (forall|i: int| 0 <= i < s.len() ==> s[i] == '0'),
    decreases s.len(),
{
    if s.len() > 0 {
        let p = s.drop_last();
        assert(all_digits(p, radix));
        lemma_digits_value_zero(p, radix);
        let v = digits_value(p, radix);
        assert(v * radix == 0 <==> v == 0) by (nonlinear_arith)
            requires radix >= 2
        ;
        lemma_digit_zero_char(s.last());
        if digits_value(s, radix) == 0 {
            assert(forall|i: int| 0 <= i < p.len() ==> p[i] == s[i]);
        } else {
            if forall|i: int| 0 <= i < s.len() ==> s[i] == '0' {
                assert(forall|i: int| 0 <= i < p.len() ==> p[i] == '0');
            }
        }
    }
}

/// Rendering the value of a single digit gives that digit, lower-cased.
pub proof fn lemma_digit_char_val(c: char)
    requires
        digit_val(c) < 16,
    ensures
        digit_char(digit_val(c)) == lower_digit(c),
{
}

/// Stripping a sequence whose digits are all `0` except possibly the last
/// leaves just the last character.
proof fn lemma_strip_all_zeros(s: Seq<char>)
    requires
        s.len() >= 1,
        forall|i: int| 0 <= i < s.len() - 1 ==> s[i] == '0',
    ensures
        strip_zeros(s) =~= seq![s.last()],
    decreases s.len(),
{
    if s.len() > 1 {
        let t = s.drop_first();
        assert(forall|i: int| 0 <= i < t.len() - 1 ==> t[i] == s[i + 1] && t[i] == '0');
        lemma_strip_all_zeros(t);
        assert(t.last() == s.last());
    }
}

/// When the head sequence holds some nonzero character, appending one more
/// character commutes with stripping the leading zeros.
proof fn lemma_strip_push(s: Seq<char>, x: char)
    requires
        s.len() >= 1,
        exists|i: int| 0 <= i < s.len() && s[i] != '0',
    ensures
        strip_zeros(s.push(x)) == strip_zeros(s).push(x),
    decreases s.len(),
{
    let sp = s.push(x);
    if s[0] == '0' {
        let w = choose|i: int| 0 <= i < s.len() && s[i] != '0';
        assert(s.len() >= 2);
        let t = s.drop_first();
        assert(t[w - 1] == s[w] && t[w - 1] != '0');
        lemma_strip_push(t, x);
        assert(sp.drop_first() =~= t.push(x));
    } else {
        assert(strip_zeros(sp) == sp);
        assert(strip_zeros(s) == s);
    }
}

/// Rendering the value of a nonempty digit sequence gives back the same
/// digits, lower-cased and with leading zeros removed.
pub proof fn lemma_digits_round_trip(s: Seq<char>, radix: nat)
    requires
        2 <= radix <= 16,
        s.len() > 0,
        all_digits(s, radix),
    ensures
        digits_of(digits_value(s, radix), radix) == strip_zeros(lower_all(s)),
    decreases s.len(),
{
    let c = s.last();
    let dc = digit_val(c);
    lemma_digit_char_val(c);
    if s.len() == 1 {
        assert(digits_value(s, radix) == digits_value(s.drop_last(), radix) * radix + dc);
        assert(digits_value(s.drop_last(), radix) == 0);
        assert(digits_value(s, radix) == dc) by (nonlinear_arith)
            requires
                digits_value(s, radix) == digits_value(s.drop_last(), radix) * radix + dc,
                digits_value(s.drop_last(), radix) == 0,
        ;
        assert(lower_all(s) =~= seq![lower_digit(c)]);
        assert(digits_of(dc, radix) =~= seq![digit_char(dc)]);
        assert(strip_zeros(lower_all(s)) =~= seq![lower_digit(c)]);
    } else {
        let p = s.drop_last();
        assert(all_digits(p, radix));
        let vp = digits_value(p, radix);
        let v = digits_value(s, radix);
        assert(v == vp * radix + dc);
        lemma_digits_value_zero(p, radix);
        assert(lower_all(s) =~= lower_all(p).push(lower_digit(c)));
        if vp == 0 {
            assert(forall|i: int| 0 <= i < p.len() ==> p[i] == '0');
            assert(v == dc) by (nonlinear_arith)
                requires v == vp * radix + dc, vp == 0
            ;
            assert(v < radix);
            assert(digits_of(v, radix) =~= seq![digit_char(dc)]);
            assert(forall|i: int| 0 <= i < lower_all(s).len() - 1 ==> lower_all(s)[i] == '0');
            lemma_strip_all_zeros(lower_all(s));
            assert(lower_all(s).last() == lower_digit(c));
        } else {
            assert(v >= radix && v / radix == vp && v % radix == dc) by {
                assert(vp * radix >= radix) by (nonlinear_arith)
                    requires vp >= 1, radix >= 2
                ;
                lemma_fundamental_div_mod_converse(v as int, radix as int, vp as int, dc as int);
            };
            lemma_digits_round_trip(p, radix);
            assert(digits_of(v, radix) == digits_of(vp, radix).push(digit_char(dc)));
            let w = choose|i: int| 0 <= i < p.len() && p[i] != '0';
            assert(lower_all(p)[w] != '0');
            lemma_strip_push(lower_all(p), lower_digit(c));
        }
    }
}

/// Rendering a digit value gives a digit of that value.
pub proof fn lemma_digit_char_of_val(d: nat)
    requires
        d < 16,
    ensures
        digit_val(digit_char(d)) == d,
{
}

/// The rendering of `n` is a nonempty digit sequence whose value is `n`.
pub proof fn lemma_digits_of_value(n: nat, radix: nat)
    requires
        2 <= radix <= 16,
    ensures
        digits_of(n, radix).len() >= 1,
        all_digits(digits_of(n, radix), radix),
        digits_value(digits_of(n, radix), radix) == n,
    decreases n,
{
    let d = digits_of(n, radix);
    if n < radix {
        lemma_digit_char_of_val(n);
        assert(d =~= seq![digit_char(n)]);
        assert(d.drop_last() =~= Seq::<char>::empty());
        assert(digits_value(d, radix) == digits_value(d.drop_last(), radix) * radix + digit_val(
            d.last(),
        ));
        assert(digits_value(d, radix) == n) by (nonlinear_arith)
            requires
                digits_value(d, radix) == digits_value(d.drop_last(), radix) * radix + digit_val(
                    d.last(),
                ),
                digits_value(d.drop_last(), radix) == 0,
                digit_val(d.last()) == n,
        ;
    } else {
        lemma_div_decreases(n as int, radix as int);
        lemma_digits_of_value(n / radix, radix);
        lemma_digit_char_of_val(n % radix);
        let p = digits_of(n / radix, radix);
        assert(d == p.push(digit_char(n % radix)));
        assert(d.drop_last() =~= p);
        assert(d.last() == digit_char(n % radix));
        lemma_fundamental_div_mod(n as int, radix as int);
        assert(digits_value(d, radix) == (n / radix) * radix + n % radix);
        assert((n / radix) * radix == radix * (n / radix)) by (nonlinear_arith);
        assert forall|i: int| 0 <= i < d.len() implies is_digit(d[i], radix) by {
            if i < p.len() {
                assert(d[i] == p[i]);
            }
        }
    }
}

/// Errors from scanning a digit suffix.
#[derive(Clone, Copy, Debug, PartialEq, Eq, Structural)]
pub enum ScanError {
    /// The suffix is empty or holds a character that is not a digit
    /// of the requested radix.
    NotDigits,
    /// The digits are well formed but their value does not fit.
    Overflow,
}

/// Exec mirror of `digit_val`/`is_digit`: the value of `c` as a digit of
/// the given radix, or `None` when it is not one.
pub fn digit_of_char(c: char, radix: u32) -> (r: Option<u32>)
    requires
        2 <= radix <= 16,
    ensures
        r matches Some(d) ==> d == digit_val(c) && is_digit(c, radix as nat),
        r is None <==> !is_digit(c, radix as nat),
{
    let u = c as u32;
    let d: u32 = if 48 <= u && u <= 57 {
        u - 48
    } else if 97 <= u && u <= 102 {
        u - 97 + 10
    } else if 65 <= u && u <= 70 {
        u - 65 + 10
    } else {
        16
    };
    if d < radix {
        Some(d)
    } else {
        None
    }
}

/// Exec mirror of `digit_char`.
pub fn digit_char_of(d: u8) -> (c: char)
    requires
        d < 16,
    ensures
        c == digit_char(d as nat),
{
    match d {
        0 => '0',
        1 => '1',
        2 => '2',
        3 => '3',
        4 => '4',
        5 => '5',
        6 => '6',
        7 => '7',
        8 => '8',
        9 => '9',
        10 => 'a',
        11 => 'b',
        12 => 'c',
        13 => 'd',
        14 => 'e',
        _ => 'f',
    }
}

/// Reads the suffix of `s` starting at character `from` as an unsigned
/// number in the given radix. Succeeds exactly on a nonempty all-digit
/// suffix whose value fits in a `u128`, and names the error otherwise.
pub fn scan_digits_u128(s: &str, from: usize, radix: u32) -> (r: Result<u128, ScanError>)
    requires
        2 <= radix <= 16,
        from <= s@.len(),
    ensures
        ({
            let d = s@.skip(from as int);
            &&& (r matches Ok(v) ==> d.len() > 0 && all_digits(d, radix as nat)
                && v == digits_value(d, radix as nat))
            &&& (r == Err::<u128, ScanError>(ScanError::NotDigits)
                <==> !(d.len() > 0 && all_digits(d, radix as nat)))
            &&& (r == Err::<u128, ScanError>(ScanError::Overflow)
                <==> d.len() > 0 && all_digits(d, radix as nat)
                && digits_value(d, radix as nat) > u128::MAX)
        }),
{
    let ghost suffix = s@.skip(from as int);
    let len = s.unicode_len();
    if from == len {
        return Err(ScanError::NotDigits);
    }
    let mut i = from;
    while i < len
        invariant
            2 <= radix <= 16,
            from <= i <= len,
            len == s@.len(),
            suffix == s@.skip(from as int),
            forall|j: int| from <= j < i ==> is_digit(s@[j], radix as nat),
        decreases len - i,
    {
        let c = s.get_char(i);
        if digit_of_char(c, radix).is_none() {
            proof {
                let k = i - from;
                assert(suffix[k] == s@[from + k]);
                assert(!is_digit(suffix[k], radix as nat));
            }
            return Err(ScanError::NotDigits);
        }
        i += 1;
    }
    proof {
        assert forall|j: int| 0 <= j < suffix.len() implies is_digit(suffix[j], radix as nat) by {
            assert(suffix[j] == s@[j + from]);
        }
    }
    let mut acc: u128 = 0;
    let mut i = from;
    while i < len
        invariant
            2 <= radix <= 16,
            from <= i <= len,
            len == s@.len(),
            suffix == s@.skip(from as int),
            all_digits(suffix, radix as nat),
            forall|j: int| from <= j < len ==> is_digit(s@[j], radix as nat),
            acc == digits_value(s@.subrange(from as int, i as int), radix as nat),
        decreases len - i,
    {
        let ghost pre = s@.subrange(from as int, i as int);
        let ghost pre1 = s@.subrange(from as int, i + 1);
        proof {
            assert(pre1.drop_last() =~= pre);
            assert(pre1.last() == s@[i as int]);
        }
        let c = s.get_char(i);
        let d = match digit_of_char(c, radix) {
            Some(d) => d,
            None => {
                proof {
                    assert(is_digit(s@[i as int], radix as nat));
                }
                return Err(ScanError::NotDigits);
            },
        };
        let rad = radix as u128;
        let dw = d as u128;
        let limit = (u128::MAX - dw) / rad;
        let ghost m = u128::MAX as int;
        let ghost ai = acc as int;
        let ghost ri = rad as int;
        let ghost di = dw as int;
        let ghost li = limit as int;
        let ghost rem = (u128::MAX - dw) as int % ri;
        proof {
            lemma_fundamental_div_mod((u128::MAX - dw) as int, ri);
            assert(m - di == ri * li + rem);
            assert(0 <= rem < ri);
        }
        if acc > limit {
            proof {
                assert(ai * ri + di > m) by (nonlinear_arith)
                    requires
                        ai >= li + 1,
                        ri >= 2,
                        di >= 0,
                        m - di == ri * li + rem,
                        rem < ri,
                ;
                assert(digits_value(pre1, radix as nat) > u128::MAX);
                assert(suffix.take(i + 1 - from) =~= pre1);
                lemma_digits_value_prefix(suffix, i + 1 - from, radix as nat);
            }
            return Err(ScanError::Overflow);
        }
        proof {
            assert(ai * ri + di <= m) by (nonlinear_arith)
                requires
                    0 <= ai <= li,
                    ri >= 2,
                    m - di == ri * li + rem,
                    0 <= rem,
            ;
        }
        acc = acc * rad + dw;
        i += 1;
    }
    proof {
        assert(s@.subrange(from as int, len as int) =~= suffix);
    }
    Ok(acc)
}

/// Appends the digits of `n` in the given radix to `out`,
/// most-significant first.
pub fn push_digits_u128(out: &mut Vec<char>, n: u128, radix: u32)
    requires
        2 <= radix <= 16,
    ensures
        final(out)@ == old(out)@ + digits_of(n as nat, radix as nat),
    decreases n,
{
    let rad = radix as u128;
    if n < rad {
        out.push(digit_char_of(n as u8));
        proof {
            assert(out@ =~= old(out)@ + digits_of(n as nat, radix as nat));
        }
    } else {
        proof {
            lemma_div_decreases(n as int, rad as int);
        }
        push_digits_u128(out, n / rad, radix);
        out.push(digit_char_of((n % rad) as u8));
        proof {
            assert(out@ =~= old(out)@ + digits_of(n as nat, radix as nat));
        }
    }
}

} // verus!

