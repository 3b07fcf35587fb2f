//! Recognizers for the two numeric token shapes of the format: unsigned
//! decimal integers and floating-point literals.

use vstd::prelude::*;
use crate::text::{is_digit, digit_val, run_end, lemma_run_end, scan_while, CharSet};

verus! {

pub open spec fn all_digits(s: Seq<char>) -> bool {
    forall|i: int| 0 <= i < s.len() ==> is_digit(s[i])
}

/// The value of a string of decimal digits.
pub open spec fn dec_value(s: Seq<char>) -> int
    decreases s.len(),
{
    if s.len() == 0 {
        0
    } else {
        dec_value(s.drop_last()) * 10 + digit_val(s.last())
    }
}

pub proof fn lemma_dec_value_nonneg(s: Seq<char>)
    requires
        all_digits(s),
    ensures
        dec_value(s) >= 0,
    decreases s.len(),
{
    if s.len() > 0 {
        assert(all_digits(s.drop_last()));
        lemma_dec_value_nonneg(s.drop_last());
    }
}

/// A longer digit string never has a smaller value.
pub proof fn lemma_dec_value_mono(s: Seq<char>, k: int)
    requires
        all_digits(s),
        0 <= k <= s.len(),
    ensures
        dec_value(s) >= dec_value(s.take(k)),
    decreases s.len(),
{
    if k < s.len() {
        assert(all_digits(s.drop_last()));
        lemma_dec_value_mono(s.drop_last(), k);
        lemma_dec_value_nonneg(s.drop_last());
        assert(s.drop_last().take(k) =~= s.take(k));
    } else {
        assert(s.take(k) =~= s);
    }
}

/// The unsigned decimal tokens `u32::from_str` accepts: an optional plus
/// sign, then at least one digit, with a value that fits in a `u32`.
pub open spec fn parse_u32(s: Seq<char>) -> Option<u32> {
    let body = if s.len() > 0 && s[0] == '+' {
        s.skip(1)
    } else {
        s
    };
    if body.len() > 0 && all_digits(body) && dec_value(body) <= u32::MAX {
        Some(dec_value(body) as u32)
    } else {
        None
    }
}

/// Read an unsigned decimal integer, exactly as `parse_u32` describes it.
pub fn parse_u32_str(s: &str) -> (r: Option<u32>)
    ensures
        r == parse_u32(s@),
{
    let n = s.unicode_len();
    let start: usize = if n > 0 && s.get_char(0) == '+' {
        1
    } else {
        0
    };
    let ghost body = if start == 1 { s@.skip(1) } else { s@ };
    if start >= n {
        proof {
            assert(body.len() == 0);
        }
        return None;
    }
    let mut acc: u64 = 0;
    let mut i = start;
    while i < n
        invariant
            start <= i <= n,
            n == s@.len(),
            start == 1 ==> n > 0 && s@[0] == '+',
            start == 0 ==> !(n > 0 && s@[0] == '+'),
            body == (if start == 1 { s@.skip(1) } else { s@ }),
            body.len() == n - start,
            forall|j: int| 0 <= j < body.len() ==> body[j] == s@[start + j],
            all_digits(body.take(i - start)),
            acc == dec_value(body.take(i - start)),
            acc <= u32::MAX,
        decreases n - i,
    {
        let c = s.get_char(i);
        let u = c as u32;
        if !(0x30 <= u && u <= 0x39) {
            proof {
                assert(!is_digit(body[i - start]));
            }
            return None;
        }
        let d = (u - 0x30) as u64;
        let acc2 = acc * 10 + d;
        proof {
            assert(body.take(i - start + 1).drop_last() =~= body.take(i - start));
            assert(body.take(i - start + 1).last() == body[i - start]);
        }
        if acc2 > 0xFFFF_FFFF {
            proof {
                if all_digits(body) {
                    lemma_dec_value_mono(body, i - start + 1);
                }
            }
            return None;
        }
        acc = acc2;
        i = i + 1;
    }
    proof {
        assert(body.take(i - start) =~= body);
    }
    Some(acc as u32)
}

/// `c`, compared against a letter in either case.
pub open spec fn eq_ic(c: char, lower: char, upper: char) -> bool {
    c == lower || c == upper
}

/// `inf`, in any mix of case.
pub open spec fn is_inf_word(t: Seq<char>) -> bool {
    t.len() == 3 && eq_ic(t[0], 'i', 'I') && eq_ic(t[1], 'n', 'N') && eq_ic(t[2], 'f', 'F')
}

/// `infinity`, in any mix of case.
pub open spec fn is_infinity_word(t: Seq<char>) -> bool {
    t.len() == 8 && eq_ic(t[0], 'i', 'I') && eq_ic(t[1], 'n', 'N') && eq_ic(t[2], 'f', 'F')
        && eq_ic(t[3], 'i', 'I') && eq_ic(t[4], 'n', 'N') && eq_ic(t[5], 'i', 'I')
        && eq_ic(t[6], 't', 'T') && eq_ic(t[7], 'y', 'Y')
}

/// `nan`, in any mix of case.
pub open spec fn is_nan_word(t: Seq<char>) -> bool {
    t.len() == 3 && eq_ic(t[0], 'n', 'N') && eq_ic(t[1], 'a', 'A') && eq_ic(t[2], 'n', 'N')
}

/// `t` without one leading plus or minus sign.
pub open spec fn skip_sign(t: Seq<char>) -> Seq<char> {
    if t.len() > 0 && (t[0] == '+' || t[0] == '-') {
        t.skip(1)
    } else {
        t
    }
}

/// An exponent part filling all of `t`: an `e` marker, an optional sign,
/// then one or more digits.
pub open spec fn is_exponent(t: Seq<char>) -> bool {
    if t.len() >= 1 && (t[0] == 'e' || t[0] == 'E') {
        let u = skip_sign(t.skip(1));
        u.len() > 0 && all_digits(u)
    } else {
        false
    }
}

/// An unsigned mantissa with an optional exponent filling all of `t`:
/// digits, optionally a point and more digits; or a point with at least one
/// digit after it.
pub open spec fn is_number(t: Seq<char>) -> bool {
    let d1 = run_end(t, 0, CharSet::Digit);
    if d1 > 0 {
        if d1 == t.len() {
            true
        } else if t[d1] == '.' {
            let d2 = run_end(t, d1 + 1, CharSet::Digit);
            d2 == t.len() || is_exponent(t.skip(d2))
        } else {
            is_exponent(t.skip(d1))
        }
    } else {
        if t.len() > 0 && t[0] == '.' {
            let d2 = run_end(t, 1, CharSet::Digit);
            d2 > 1 && (d2 == t.len() || is_exponent(t.skip(d2)))
        } else {
            false
        }
    }
}

/// The tokens `f64::from_str` accepts: an optional sign, then `inf`,
/// `infinity`, `nan` (in any case) or a decimal number with an optional
/// point and exponent.
pub open spec fn is_float(s: Seq<char>) -> bool {
    let t = skip_sign(s);
    is_inf_word(t) || is_infinity_word(t) || is_nan_word(t) || is_number(t)
}

/// Decide whether all of `t` is an exponent part.
fn check_exponent(t: &str) -> (r: bool)
    ensures
        r == is_exponent(t@),
{
    let n = t.unicode_len();
    if n < 1 {
        return false;
    }
    let c0 = t.get_char(0);
    if !(c0 == 'e' || c0 == 'E') {
        return false;
    }
    let off: usize = if n >= 2 && (t.get_char(1) == '+' || t.get_char(1) == '-') {
        2
    } else {
        1
    };
    let ghost u = skip_sign(t@.skip(1));
    proof {
        assert(u =~= t@.skip(off as int));
    }
    if off >= n {
        return false;
    }
    let e = scan_while(t, off, CharSet::Digit);
    proof {
        lemma_run_end(t@, off as int, CharSet::Digit);
        if e == n {
            assert(forall|j: int| 0 <= j < u.len() ==> is_digit(u[j]));
        } else {
            assert(!is_digit(u[e - off]));
        }
    }
    e == n
}

/// Decide whether `s` is a floating-point token, exactly as `is_float`
/// describes it.
pub fn is_float_str(s: &str) -> (r: bool)
    ensures
        r == is_float(s@),
{
    let n = s.unicode_len();
    let off: usize = if n > 0 && (s.get_char(0) == '+' || s.get_char(0) == '-') {
        1
    } else {
        0
    };
    let t = s.substring_char(off, n);
    proof {
        assert(t@ =~= skip_sign(s@));
    }
    let m = t.unicode_len();
    if m == 3 {
        let c0 = t.get_char(0);
        let c1 = t.get_char(1);
        let c2 = t.get_char(2);
        if (c0 == 'i' || c0 == 'I') && (c1 == 'n' || c1 == 'N') && (c2 == 'f' || c2 == 'F') {
            return true;
        }
        if (c0 == 'n' || c0 == 'N') && (c1 == 'a' || c1 == 'A') && (c2 == 'n' || c2 == 'N') {
            return true;
        }
    }
    if m == 8 {
        let w = (t.get_char(0) == 'i' || t.get_char(0) == 'I')
            && (t.get_char(1) == 'n' || t.get_char(1) == 'N')
            && (t.get_char(2) == 'f' || t.get_char(2) == 'F')
            && (t.get_char(3) == 'i' || t.get_char(3) == 'I')
            && (t.get_char(4) == 'n' || t.get_char(4) == 'N')
            && (t.get_char(5) == 'i' || t.get_char(5) == 'I')
            && (t.get_char(6) == 't' || t.get_char(6) == 'T')
            && (t.get_char(7) == 'y' || t.get_char(7) == 'Y');
        if w {
            return true;
        }
    }
    let d1 = scan_while(t, 0, CharSet::Digit);
    if d1 > 0 {
        if d1 == m {
            true
        } else if t.get_char(d1) == '.' {
            let d2 = scan_while(t, d1 + 1, CharSet::Digit);
            if d2 == m {
                true
            } else {
                let tail = t.substring_char(d2, m);
                proof {
                    assert(tail@ =~= t@.skip(d2 as int));
                }
                check_exponent(tail)
            }
        } else {
            let tail = t.substring_char(d1, m);
            proof {
                assert(tail@ =~= t@.skip(d1 as int));
            }
            check_exponent(tail)
        }
    } else {
        if m > 0 && t.get_char(0) == '.' {
            let d2 = scan_while(t, 1, CharSet::Digit);
            if d2 <= 1 {
                false
            } else if d2 == m {
                true
            } else {
                let tail = t.substring_char(d2, m);
                proof {
                    assert(tail@ =~= t@.skip(d2 as int));
                }
                check_exponent(tail)
            }
        } else {
            false
        }
    }
}

} // verus!
