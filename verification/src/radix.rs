//! Unsigned numbers written as ASCII digits in a radix from 2 to 36.
//!
//! The text is an optional `+` followed by at least one digit; the digits are
//! `0`-`9`, then `a`-`z` or `A`-`Z` for the values from ten on. Anything else
//! in the text, a sign alone, or a number above the given bound, is no number.

use vstd::prelude::*;

verus! {

/// The value of one ASCII digit in `radix`; `None` for a byte that is no digit
/// of that radix.
pub open spec fn digit_value(b: u8, radix: nat) -> Option<nat> {
    let v: int = if 48 <= b <= 57 {
        b - 48
    } else if 97 <= b <= 122 {
        b - 97 + 10
    } else if 65 <= b <= 90 {
        b - 65 + 10
    } else {
        36
    };
    if v < radix {
        Some(v as nat)
    } else {
        None
    }
}

/// The number that a run of digits writes, most significant digit first.
/// `None` if one of the bytes is no digit; the empty run writes 0.
pub open spec fn digits_value(s: Seq<u8>, radix: nat) -> Option<nat>
    decreases s.len(),
{
    if s.len() == 0 {
        Some(0nat)
    } else {
        match (digits_value(s.drop_last(), radix), digit_value(s.last(), radix)) {
            (Some(high), Some(d)) => Some(high * radix + d),
            _ => None,
        }
    }
}

/// The number that `s` writes: an optional `+`, then one digit or more.
pub open spec fn unsigned_value(s: Seq<u8>, radix: nat) -> Option<nat> {
    let digits = if s.len() > 0 && s[0] == 43 {
        s.skip(1)
    } else {
        s
    };
    if digits.len() == 0 {
        None
    } else {
        digits_value(digits, radix)
    }
}

/// The number that `s` writes, if it is at most `max`.
pub open spec fn bounded_value(s: Seq<u8>, radix: nat, max: nat) -> Option<nat> {
    match unsigned_value(s, radix) {
        Some(v) => if v <= max {
            Some(v)
        } else {
            None
        },
        None => None,
    }
}

/// A run of digits writes at least what any of its prefixes writes, and a
/// prefix of a run of digits is a run of digits.
pub proof fn lemma_digits_prefix(s: Seq<u8>, k: int, radix: nat)
    requires
        0 <= k <= s.len(),
        digits_value(s, radix) is Some,
    ensures
        digits_value(s.take(k), radix) is Some,
        digits_value(s.take(k), radix)->0 <= digits_value(s, radix)->0,
    decreases s.len(),
{
    if k == s.len() {
        assert(s.take(k) =~= s);
    } else {
        let front = s.drop_last();
        lemma_digits_prefix(front, k, radix);
        assert(front.take(k) =~= s.take(k));
        let high = digits_value(front, radix)->0;
        assert(high <= high * radix) by (nonlinear_arith)
            requires
                radix >= 1 || high == 0,
        ;
    }
}

/// Appending one digit multiplies what was written by the radix and adds the
/// digit; appending a byte that is no digit leaves no number.
pub proof fn lemma_digits_push(s: Seq<u8>, b: u8, radix: nat)
    ensures
        digits_value(s.push(b), radix) == match (digits_value(s, radix), digit_value(b, radix)) {
            (Some(high), Some(d)) => Some(high * radix + d),
            _ => None,
        },
{
    assert(s.push(b).drop_last() =~= s);
    assert(s.push(b).last() == b);
}

/// Reads one digit.
pub fn read_digit(b: u8, radix: u64) -> (r: Option<u64>)
    requires
        2 <= radix <= 36,
    ensures
        match r {
            Some(d) => digit_value(b, radix as nat) == Some(d as nat) && d < radix,
            None => digit_value(b, radix as nat) is None,
        },
{
    let v: u64 = if 48 <= b && b <= 57 {
        (b - 48) as u64
    } else if 97 <= b && b <= 122 {
        (b - 97) as u64 + 10
    } else if 65 <= b && b <= 90 {
        (b - 65) as u64 + 10
    } else {
        36
    };
    if v < radix {
        Some(v)
    } else {
        None
    }
}

/// Reads the unsigned number that `s` writes in `radix`, if it is at most
/// `max`.
pub fn parse_unsigned(s: &[u8], radix: u64, max: u64) -> (r: Option<u64>)
    requires
        2 <= radix <= 36,
    ensures
        match r {
            Some(v) => bounded_value(s@, radix as nat, max as nat) == Some(v as nat),
            None => bounded_value(s@, radix as nat, max as nat) is None,
        },
{
    let n = s.len();
    let start: usize = if n > 0 && s[0] == 43 {
        1
    } else {
        0
    };
    if start == n {
        return None;
    }
    let ghost digits = if s@[0] == 43 {
        s@.skip(1)
    } else {
        s@
    };
    let mut acc: u64 = 0;
    let mut i: usize = start;
    assert(digits.take(0) =~= Seq::<u8>::empty());
    while i < n
        invariant
            2 <= radix <= 36,
            n == s@.len(),
            start <= i <= n,
            start < n,
            digits == if s@[0] == 43 {
                s@.skip(1)
            } else {
                s@
            },
            digits.len() == n - start,
            forall|j: int| 0 <= j < digits.len() ==> digits[j] == s@[j + start],
            digits_value(digits.take(i - start), radix as nat) == Some(acc as nat),
            acc <= max,
        decreases n - i,
    {
        let ghost seen = digits.take(i - start);
        proof {
            assert(digits.take(i - start + 1) =~= seen.push(s@[i as int]));
            lemma_digits_push(seen, s@[i as int], radix as nat);
        }
        let d = match read_digit(s[i], radix) {
            Some(d) => d,
            None => {
                proof {
                    if digits_value(digits, radix as nat) is Some {
                        lemma_digits_prefix(digits, i - start + 1, radix as nat);
                    }
                }
                return None;
            },
        };
        assert(acc * radix <= 0xffff_ffff_ffff_ffff * 36) by (nonlinear_arith)
            requires
                acc <= 0xffff_ffff_ffff_ffff,
                radix <= 36,
        ;
        let wide: u128 = (acc as u128) * (radix as u128) + (d as u128);
        if wide > max as u128 {
            proof {
                if digits_value(digits, radix as nat) is Some {
                    lemma_digits_prefix(digits, i - start + 1, radix as nat);
                }
            }
            return None;
        }
        acc = wide as u64;
        i = i + 1;
    }
    assert(digits.take(n - start) =~= digits);
    Some(acc)
}

} // verus!
