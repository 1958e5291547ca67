//! IEEE-754 doubles held by their bit patterns (`f64::to_bits`): their fields,
//! how `==` and `<` compare them, and how integers round to them (`as f64`).
use vstd::prelude::*;
use vstd::arithmetic::power2::{
    pow2, lemma2_to64, lemma2_to64_rest, lemma_pow2_pos, lemma_pow2_strictly_increases,
    lemma_pow2_subtracts, lemma_pow2_unfold,
};

verus! {

/// Biased exponent field.
pub open spec fn f64_exponent(bits: u64) -> u64 {
    (bits >> 52u64) & 0x7ffu64
}

/// Fraction field.
pub open spec fn f64_fraction(bits: u64) -> u64 {
    bits & 0xf_ffff_ffff_ffffu64
}

/// Sign bit.
pub open spec fn f64_negative(bits: u64) -> bool {
    (bits >> 63u64) == 1u64
}

/// The bits encode a NaN.
pub open spec fn f64_is_nan(bits: u64) -> bool {
    f64_exponent(bits) == 0x7ff && f64_fraction(bits) != 0
}

/// Magnitude bits: all but the sign.
pub open spec fn f64_magnitude(bits: u64) -> u64 {
    bits & 0x7fff_ffff_ffff_ffffu64
}

/// Place of a double on the number line: its magnitude bits, negated when the
/// sign is set. IEEE-754 lays out magnitudes in the order of their encodings,
/// so for doubles that are not NaN, comparing places is comparing numbers;
/// both zeros are at place 0.
pub open spec fn f64_place(bits: u64) -> int {
    if f64_negative(bits) {
        -(f64_magnitude(bits) as int)
    } else {
        f64_magnitude(bits) as int
    }
}

/// `a == b` on doubles: neither is NaN and both are the same number.
pub open spec fn f64_eq(a: u64, b: u64) -> bool {
    !f64_is_nan(a) && !f64_is_nan(b) && f64_place(a) == f64_place(b)
}

/// Whether a double is a NaN.
pub fn f64_bits_is_nan(bits: u64) -> (r: bool)
    ensures
        r == f64_is_nan(bits),
{
    let e: u64 = (bits >> 52u64) & 0x7ffu64;
    let f: u64 = bits & 0xf_ffff_ffff_ffffu64;
    e == 0x7ff && f != 0
}

/// The place of a double, as an `i64`.
fn place(bits: u64) -> (r: i64)
    ensures
        r == f64_place(bits),
{
    let m: u64 = bits & 0x7fff_ffff_ffff_ffffu64;
    assert(m <= 0x7fff_ffff_ffff_ffffu64) by (bit_vector)
        requires m == bits & 0x7fff_ffff_ffff_ffffu64;
    if (bits >> 63u64) == 1u64 {
        -(m as i64)
    } else {
        m as i64
    }
}

/// `a == b` on doubles given by their bits.
pub fn f64_bits_eq(a: u64, b: u64) -> (r: bool)
    ensures
        r == f64_eq(a, b),
{
    !f64_bits_is_nan(a) && !f64_bits_is_nan(b) && place(a) == place(b)
}

/// Bits that hash a double as its equality sees it: both zeros as `0`, every
/// NaN as the quiet NaN `f64::NAN`, anything else as it is.
pub open spec fn canonical_bits_spec(bits: u64) -> u64 {
    if !f64_is_nan(bits) && f64_place(bits) == 0 {
        0
    } else if f64_is_nan(bits) {
        0x7ff8_0000_0000_0000
    } else {
        bits
    }
}

pub fn canonical_float_bits(bits: u64) -> (r: u64)
    ensures
        r == canonical_bits_spec(bits),
{
    let nan = f64_bits_is_nan(bits);
    if !nan && place(bits) == 0 {
        0
    } else if nan {
        0x7ff8_0000_0000_0000u64
    } else {
        bits
    }
}

/// Comparison of doubles in which NaN equals NaN and sorts above every
/// number: -1, 0 or 1.
pub open spec fn compare_floats_spec(a: u64, b: u64) -> int {
    if f64_eq(a, b) {
        0
    } else if f64_is_nan(a) {
        if f64_is_nan(b) { 0 } else { 1 }
    } else if f64_is_nan(b) {
        -1
    } else if f64_place(a) < f64_place(b) {
        -1
    } else {
        1
    }
}

pub fn compare_floats(a: u64, b: u64) -> (r: i8)
    ensures
        r == compare_floats_spec(a, b),
{
    if f64_bits_eq(a, b) {
        0
    } else if f64_bits_is_nan(a) {
        if f64_bits_is_nan(b) { 0 } else { 1 }
    } else if f64_bits_is_nan(b) {
        -1
    } else if place(a) < place(b) {
        -1
    } else {
        1
    }
}

/// Index of the highest set bit of a positive number.
pub open spec fn top_bit(a: nat) -> nat
    decreases a,
{
    if a <= 1 {
        0
    } else {
        1 + top_bit(a / 2)
    }
}

/// The 53-bit significand nearest to `a`, ties to the even one, scaled so
/// that it lies in `[2^52, 2^53]`.
pub open spec fn rounded_significand(a: nat) -> nat {
    let k = top_bit(a);
    if k <= 52 {
        a * pow2((52 - k) as nat)
    } else {
        let d = pow2((k - 52) as nat);
        let q = a / d;
        let r = a % d;
        if r > d / 2 || (r == d / 2 && q % 2 == 1) {
            q + 1
        } else {
            q
        }
    }
}

/// Bits of the double nearest to the natural number `a` (ties to even), as
/// Rust's `as f64` rounds it. A significand that rounds up to `2^53` carries
/// into the exponent.
pub open spec fn nat_to_f64_bits(a: nat) -> int {
    if a == 0 {
        0
    } else {
        (top_bit(a) + 1023) * pow2(52) + rounded_significand(a) - pow2(52)
    }
}

/// Bits of `i as f64`.
pub open spec fn i64_to_f64_spec(i: i64) -> int {
    if i < 0 {
        pow2(63) + nat_to_f64_bits((-i) as nat)
    } else {
        nat_to_f64_bits(i as nat)
    }
}

/// Bits of `i as f64`, as a bit pattern.
pub open spec fn i64_as_f64_bits(i: i64) -> u64 {
    i64_to_f64_spec(i) as u64
}

/// Bits of `u as f64`, as a bit pattern.
pub open spec fn u64_as_f64_bits(u: u64) -> u64 {
    nat_to_f64_bits(u as nat) as u64
}

proof fn lemma_top_bit(a: nat, k: nat)
    requires
        pow2(k) <= a < 2 * pow2(k),
    ensures
        top_bit(a) == k,
    decreases k,
{
    if k == 0 {
        assert(pow2(0) == 1) by { lemma2_to64(); }
    } else {
        lemma_pow2_unfold(k);
        lemma_top_bit(a / 2, (k - 1) as nat);
    }
}

/// Bits of `a as f64`.
pub fn u64_to_f64_bits(a: u64) -> (r: u64)
    ensures
        r == nat_to_f64_bits(a as nat),
        r == u64_as_f64_bits(a),
        r < 0x8000_0000_0000_0000u64,
{
    if a == 0 {
        return 0;
    }
    proof {
        lemma2_to64();
        lemma2_to64_rest();
    }
    let mut k: u64 = 0;
    let mut p: u64 = 1;
    while p <= a / 2
        invariant
            1 <= a,
            p == pow2(k as nat),
            1 <= p <= a,
            k < 64,
            pow2(64) == 0x1_0000_0000_0000_0000,
        decreases a - p,
    {
        proof {
            lemma_pow2_unfold((k + 1) as nat);
            if k + 1 >= 64 {
                if k + 1 > 64 {
                    lemma_pow2_strictly_increases(64, (k + 1) as nat);
                }
                assert(false);
            }
        }
        p = p * 2;
        k = k + 1;
    }
    assert(a < 2 * pow2(k as nat));
    proof {
        lemma_top_bit(a as nat, k as nat);
    }
    let two52: u64 = 0x10_0000_0000_0000u64;
    assert(pow2(52) == two52);
    let sig: u64 = if k <= 52 {
        proof { lemma_pow2_subtracts(k as nat, 52); }
        let m: u64 = two52 / p;
        assert(m == pow2((52 - k) as nat));
        assert(m * p == two52) by {
            vstd::arithmetic::power2::lemma_pow2_adds((52 - k) as nat, k as nat);
        }
        assert(a * m < 2 * two52 && a * m >= two52) by (nonlinear_arith)
            requires a < 2 * p, p <= a, m * p == two52, m > 0, two52 > 0;
        a * m
    } else {
        proof { lemma_pow2_subtracts(52, k as nat); }
        let d: u64 = p / two52;
        assert(d == pow2((k - 52) as nat));
        assert(d * two52 == p) by {
            vstd::arithmetic::power2::lemma_pow2_adds((k - 52) as nat, 52);
        }
        proof { lemma_pow2_pos((k - 52) as nat); }
        let q: u64 = a / d;
        let r: u64 = a % d;
        assert(two52 <= q < 2 * two52) by (nonlinear_arith)
            requires q == a / d, d > 0, p <= a, a < 2 * p, d * two52 == p, two52 > 0;
        if r > d / 2 || (r == d / 2 && q % 2 == 1) {
            q + 1
        } else {
            q
        }
    };
    assert(two52 <= sig <= 2 * two52);
    (k + 1023) * two52 + sig - two52
}

/// Bits of `i as f64`.
pub fn i64_to_f64_bits(i: i64) -> (r: u64)
    ensures
        r == i64_to_f64_spec(i),
        r == i64_as_f64_bits(i),
{
    proof {
        lemma2_to64();
        lemma2_to64_rest();
    }
    if i < 0 {
        let magnitude: u64 = if i == i64::MIN {
            0x8000_0000_0000_0000u64
        } else {
            (-i) as u64
        };
        0x8000_0000_0000_0000u64 + u64_to_f64_bits(magnitude)
    } else {
        u64_to_f64_bits(i as u64)
    }
}

} // verus!
