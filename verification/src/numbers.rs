//! Reading decimal integers from text, as `str::parse` does for `i64` and
//! `usize`: an optional sign (a `+`, or for `i64` also a `-`) followed by at
//! least one ASCII digit and nothing else, within the type's range.
use vstd::prelude::*;

verus! {

pub open spec fn is_digit(c: char) -> bool {
    '0' <= c && c <= '9'
}

pub open spec fn all_digits(s: Seq<char>) -> bool {
    forall|i: int| 0 <= i < s.len() ==> is_digit(#[trigger] s[i])
}

pub open spec fn digit_value(c: char) -> int {
    (c as u32) - ('0' as u32)
}

/// Value of a string of digits read in base ten.
pub open spec fn digits_value(s: Seq<char>) -> int
    decreases s.len(),
{
    if s.len() == 0 {
        0
    } else {
        digits_value(s.drop_last()) * 10 + digit_value(s.last())
    }
}

/// The digits after an optional sign, and whether the sign was `-`.
pub open spec fn split_sign(s: Seq<char>, allow_minus: bool) -> (Seq<char>, bool) {
    if s.len() > 0 && s[0] == '+' {
        (s.drop_first(), false)
    } else if s.len() > 0 && s[0] == '-' && allow_minus {
        (s.drop_first(), true)
    } else {
        (s, false)
    }
}

/// The integer that `s.parse::<i64>()` yields, if any.
pub open spec fn parse_i64_spec(s: Seq<char>) -> Option<i64> {
    let (digits, negative) = split_sign(s, true);
    if digits.len() == 0 || !all_digits(digits) {
        None
    } else {
        let v = digits_value(digits);
        if negative && v <= 0x8000_0000_0000_0000 {
            Some((-v) as i64)
        } else if !negative && v <= 0x7fff_ffff_ffff_ffff {
            Some(v as i64)
        } else {
            None
        }
    }
}

/// The integer that `s.parse::<u64>()` yields, if any.
pub open spec fn parse_u64_spec(s: Seq<char>) -> Option<u64> {
    let (digits, _) = split_sign(s, false);
    if digits.len() == 0 || !all_digits(digits) {
        None
    } else if digits_value(digits) <= 0xffff_ffff_ffff_ffff {
        Some(digits_value(digits) as u64)
    } else {
        None
    }
}

proof fn lemma_digits_value_nonneg(s: Seq<char>)
    requires
        all_digits(s),
    ensures
        digits_value(s) >= 0,
    decreases s.len(),
{
    if s.len() > 0 {
        lemma_digits_value_nonneg(s.drop_last());
    }
}

/// A longer run of digits reads as at least the value of its prefix.
proof fn lemma_digits_value_mono(s: Seq<char>, i: int)
    requires
        all_digits(s),
        0 <= i <= s.len(),
    ensures
        digits_value(s.take(i)) <= digits_value(s),
    decreases s.len() - i,
{
    if i < s.len() {
        lemma_digits_value_mono(s, i + 1);
        let t = s.take(i + 1);
        assert(t.drop_last() == s.take(i));
        lemma_digits_value_nonneg(s.take(i));
        assert(is_digit(t.last()));
    } else {
        assert(s.take(i) == s);
    }
}

/// Reads the digits of `s` from index `start` on; `None` when a character
/// is not a digit or the value exceeds `limit`.
fn read_digits(s: &str, start: usize, limit: u64) -> (r: Option<u64>)
    requires
        start <= s@.len(),
        limit >= 9,
    ensures
        match r {
            Some(v) => all_digits(s@.skip(start as int)) && v == digits_value(s@.skip(start as int))
                && v <= limit,
            None => !all_digits(s@.skip(start as int)) || digits_value(s@.skip(start as int))
                > limit,
        },
{
    let n = s.unicode_len();
    let ghost d = s@.skip(start as int);
    let mut acc: u64 = 0;
    let mut i: usize = start;
    while i < n
        invariant
            n == s@.len(),
            start <= i <= n,
            d == s@.skip(start as int),
            all_digits(d.take(i - start)),
            acc == digits_value(d.take(i - start)),
            acc <= limit,
            limit >= 9,
        decreases n - i,
    {
        let c = s.get_char(i);
        let ghost k: int = i - start;
        assert(d[k] == c);
        if !('0' <= c && c <= '9') {
            return None;
        }
        let dv: u64 = (c as u32 - '0' as u32) as u64;
        assert(d.take(k + 1).drop_last() == d.take(k));
        assert(d.take(k + 1).last() == c);
        if acc > (limit - dv) / 10 {
            proof {
                assert(acc * 10 + dv > limit) by (nonlinear_arith)
                    requires acc > (limit - dv) / 10, dv <= 9, dv <= limit;
                if all_digits(d) {
                    lemma_digits_value_mono(d, k + 1);
                }
            }
            return None;
        }
        proof {
            assert(acc * 10 + dv <= limit) by (nonlinear_arith)
                requires acc <= (limit - dv) / 10, dv <= limit;
        }
        acc = acc * 10 + dv;
        assert(forall|j: int| 0 <= j < k + 1 ==> #[trigger] d.take(k + 1)[j] == d[j]);
        i = i + 1;
    }
    assert(d.take(n - start) == d);
    Some(acc)
}

/// `s.parse::<i64>()`, as an option.
pub fn parse_i64(s: &str) -> (r: Option<i64>)
    ensures
        r == parse_i64_spec(s@),
{
    let n = s.unicode_len();
    if n == 0 {
        return None;
    }
    let c0 = s.get_char(0);
    let negative = c0 == '-';
    let start: usize = if c0 == '+' || c0 == '-' { 1 } else { 0 };
    assert(s@.skip(start as int) == split_sign(s@, true).0);
    if start == n {
        return None;
    }
    let limit: u64 = if negative { 0x8000_0000_0000_0000 } else { 0x7fff_ffff_ffff_ffff };
    match read_digits(s, start, limit) {
        Some(v) => {
            if negative {
                if v == 0x8000_0000_0000_0000 {
                    Some(-9223372036854775808i64)
                } else {
                    Some(-(v as i64))
                }
            } else {
                Some(v as i64)
            }
        },
        None => None,
    }
}

/// The integer that `s.parse::<usize>()` yields, if any.
pub open spec fn parse_usize_spec(s: Seq<char>) -> Option<usize> {
    match parse_u64_spec(s) {
        Some(v) => if v <= usize::MAX { Some(v as usize) } else { None },
        None => None,
    }
}

/// `s.parse::<usize>()`, as an option.
pub fn parse_usize(s: &str) -> (r: Option<usize>)
    ensures
        r == parse_usize_spec(s@),
{
    match parse_u64(s) {
        Some(v) => if v <= usize::MAX as u64 { Some(v as usize) } else { None },
        None => None,
    }
}

/// `s.parse::<u64>()`, as an option.
pub fn parse_u64(s: &str) -> (r: Option<u64>)
    ensures
        r == parse_u64_spec(s@),
{
    let n = s.unicode_len();
    if n == 0 {
        return None;
    }
    let c0 = s.get_char(0);
    let start: usize = if c0 == '+' { 1 } else { 0 };
    assert(s@.skip(start as int) == split_sign(s@, false).0);
    if start == n {
        return None;
    }
    read_digits(s, start, 0xffff_ffff_ffff_ffff)
}

} // verus!
