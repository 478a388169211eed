//! 64-bit binary floating-point numbers, read by integer arithmetic on their
//! IEEE-754 bit patterns.
//!
//! A bit pattern holds a sign, eleven bits of exponent and fifty-two bits of
//! fraction. Unless all exponent bits are set, it stands for the number
//! `significand * 2^scale`, with the sign in front.

use crate::text::{int_text, nat_text, nat_to_string};
use vstd::arithmetic::div_mod::{
    lemma_basic_div, lemma_div_multiples_vanish, lemma_fundamental_div_mod, lemma_mod_bound,
    lemma_mod_decreases, lemma_mod_multiples_basic, lemma_small_mod,
};
use vstd::arithmetic::mul::lemma_mul_is_commutative;
use vstd::arithmetic::power2::{
    lemma2_to64, lemma2_to64_rest, lemma_pow2_adds, lemma_pow2_pos,
    lemma_pow2_strictly_increases, lemma_pow2_unfold, pow2,
};
use vstd::prelude::*;
use vstd::string::*;

verus! {

/// Two to the power of 52: the weight of the lowest exponent bit.
pub const FRACTION_END: u64 = 0x10_0000_0000_0000;

/// Two to the power of 63: the sign bit.
pub const SIGN_BIT: u64 = 0x8000_0000_0000_0000;

/// The bit pattern of the number one.
pub const ONE_BITS: u64 = 0x3ff0_0000_0000_0000;

/// Two to the power of 127.
pub const WHOLE_LIMIT: u128 = 0x8000_0000_0000_0000_0000_0000_0000_0000;

/// The exponent bits.
pub open spec fn exponent_of(bits: u64) -> int {
    (bits as int / 0x10_0000_0000_0000) % 2048
}

/// The fraction bits.
pub open spec fn fraction_of(bits: u64) -> int {
    bits as int % 0x10_0000_0000_0000
}

/// True when the sign bit is set.
pub open spec fn is_negative(bits: u64) -> bool {
    bits >= 0x8000_0000_0000_0000
}

/// True when the pattern stands for a number, not for an infinity or for
/// "not a number".
pub open spec fn is_finite(bits: u64) -> bool {
    exponent_of(bits) != 2047
}

/// True when the pattern stands for "not a number".
pub open spec fn is_nan(bits: u64) -> bool {
    exponent_of(bits) == 2047 && fraction_of(bits) != 0
}

/// The significand of a finite pattern.
pub open spec fn significand(bits: u64) -> int {
    if exponent_of(bits) == 0 {
        fraction_of(bits)
    } else {
        0x10_0000_0000_0000 + fraction_of(bits)
    }
}

/// The power of two that the significand of a finite pattern is scaled by.
pub open spec fn scale(bits: u64) -> int {
    (if exponent_of(bits) == 0 {
        1
    } else {
        exponent_of(bits)
    }) - 1075
}

/// The magnitude of a finite pattern with its fractional part cut off.
pub open spec fn whole_part(bits: u64) -> int {
    if scale(bits) >= 0 {
        significand(bits) * pow2(scale(bits) as nat)
    } else {
        significand(bits) / (pow2((-scale(bits)) as nat) as int)
    }
}

/// What the cut left over: the fractional part of the magnitude of a finite
/// pattern, counted in units of `2^scale`.
pub open spec fn fraction_rest(bits: u64) -> int {
    if scale(bits) >= 0 {
        0
    } else {
        significand(bits) % (pow2((-scale(bits)) as nat) as int)
    }
}

/// True when the fractional part of a finite pattern is greater than the
/// machine epsilon, two to the power of minus 52.
pub open spec fn fraction_exceeds_epsilon(bits: u64) -> bool {
    scale(bits) < 0 && fraction_rest(bits) * 0x10_0000_0000_0000 > pow2((-scale(bits)) as nat)
}

/// What integer arithmetic needs of a finite pattern.
pub struct FloatParts {
    /// The sign bit.
    pub negative: bool,
    /// The whole part of the magnitude; two to the power of 127 plus one
    /// stands for every whole part greater than two to the power of 127.
    pub whole: u128,
    /// True when the fractional part is not zero.
    pub has_rest: bool,
    /// True when the fractional part is greater than the machine epsilon.
    pub rest_exceeds: bool,
}

proof fn lemma_pow2_values()
    ensures
        pow2(10) == 0x400,
        pow2(11) == 0x800,
        pow2(12) == 0x1000,
        pow2(52) == 0x10_0000_0000_0000,
        pow2(53) == 0x20_0000_0000_0000,
        pow2(63) == 0x8000_0000_0000_0000,
        pow2(64) == 0x1_0000_0000_0000_0000,
        pow2(74) == 0x400_0000_0000_0000_0000,
        pow2(75) == 0x800_0000_0000_0000_0000,
        pow2(76) == 0x1000_0000_0000_0000_0000,
        pow2(104) == 0x100_0000_0000_0000_0000_0000_0000,
        pow2(105) == 0x200_0000_0000_0000_0000_0000_0000,
        pow2(126) == 0x4000_0000_0000_0000_0000_0000_0000_0000,
{
    lemma2_to64();
    lemma2_to64_rest();
    lemma_pow2_adds(64, 10);
    lemma_pow2_adds(64, 11);
    lemma_pow2_adds(64, 12);
    lemma_pow2_adds(52, 52);
    lemma_pow2_adds(52, 53);
    lemma_pow2_adds(63, 63);
    assert(0x1_0000_0000_0000_0000 * 0x400 == 0x400_0000_0000_0000_0000int);
    assert(0x1_0000_0000_0000_0000 * 0x800 == 0x800_0000_0000_0000_0000int);
    assert(0x1_0000_0000_0000_0000 * 0x1000 == 0x1000_0000_0000_0000_0000int);
    assert(0x10_0000_0000_0000 * 0x10_0000_0000_0000
        == 0x100_0000_0000_0000_0000_0000_0000int);
    assert(0x10_0000_0000_0000 * 0x20_0000_0000_0000
        == 0x200_0000_0000_0000_0000_0000_0000int);
    assert(0x8000_0000_0000_0000 * 0x8000_0000_0000_0000
        == 0x4000_0000_0000_0000_0000_0000_0000_0000int);
}

/// Two to the power of `k`.
fn power_of_two(k: u64) -> (p: u128)
    requires
        k <= 126,
    ensures
        p == pow2(k as nat),
        1 <= p <= 0x4000_0000_0000_0000_0000_0000_0000_0000,
{
    let mut p: u128 = 1;
    let mut i: u64 = 0;
    proof {
        lemma2_to64();
        lemma_pow2_values();
    }
    while i < k
        invariant
            0 <= i <= k <= 126,
            p == pow2(i as nat),
            1 <= p,
            pow2(126) == 0x4000_0000_0000_0000_0000_0000_0000_0000,
        decreases k - i,
    {
        proof {
            lemma_pow2_unfold((i + 1) as nat);
            if i + 1 < 126 {
                lemma_pow2_strictly_increases((i + 1) as nat, 126);
            }
        }
        p = p * 2;
        i = i + 1;
    }
    proof {
        if k < 126 {
            lemma_pow2_strictly_increases(k as nat, 126);
        }
    }
    p
}

/// Takes a finite pattern apart.
pub fn finite_parts(bits: u64) -> (parts: FloatParts)
    requires
        is_finite(bits),
    ensures
        parts.negative == is_negative(bits),
        parts.whole == (if whole_part(bits) <= WHOLE_LIMIT {
            whole_part(bits)
        } else {
            WHOLE_LIMIT + 1
        }),
        parts.has_rest == (fraction_rest(bits) != 0),
        parts.rest_exceeds == fraction_exceeds_epsilon(bits),
        0 <= fraction_rest(bits),
        0 <= whole_part(bits),
        fraction_rest(bits) != 0 ==> whole_part(bits) < 0x20_0000_0000_0000,
{
    let exponent = (bits / FRACTION_END) % 2048;
    let fraction = bits % FRACTION_END;
    let negative = bits >= SIGN_BIT;
    let m: u64 = if exponent == 0 {
        fraction
    } else {
        FRACTION_END + fraction
    };
    let scaled: u64 = if exponent == 0 {
        1
    } else {
        exponent
    };
    proof {
        lemma_pow2_values();
        assert(m == significand(bits));
        assert(scaled - 1075 == scale(bits));
    }
    if scaled >= 1075 {
        let s = scaled - 1075;
        proof {
            lemma_pow2_pos(s as nat);
        }
        if s <= 74 {
            let p = power_of_two(s);
            proof {
                if s < 74 {
                    lemma_pow2_strictly_increases(s as nat, 74);
                }
                assert(m * p <= 0x20_0000_0000_0000 * 0x400_0000_0000_0000_0000)
                    by (nonlinear_arith)
                    requires
                        0 <= m <= 0x20_0000_0000_0000,
                        0 <= p <= 0x400_0000_0000_0000_0000,
                ;
                assert(m * p >= 0) by (nonlinear_arith)
                    requires
                        0 <= m,
                        0 <= p,
                ;
            }
            FloatParts {
                negative,
                whole: (m as u128) * p,
                has_rest: false,
                rest_exceeds: false,
            }
        } else if s == 75 && m == FRACTION_END {
            proof {
                assert(0x10_0000_0000_0000 * 0x800_0000_0000_0000_0000
                    == 0x8000_0000_0000_0000_0000_0000_0000_0000int);
            }
            FloatParts { negative, whole: WHOLE_LIMIT, has_rest: false, rest_exceeds: false }
        } else {
            proof {
                let p = pow2(s as nat) as int;
                if s == 75 {
                    assert(m * p > 0x8000_0000_0000_0000_0000_0000_0000_0000) by (nonlinear_arith)
                        requires
                            m > 0x10_0000_0000_0000,
                            p == 0x800_0000_0000_0000_0000,
                    ;
                } else {
                    if s > 76 {
                        lemma_pow2_strictly_increases(76, s as nat);
                    }
                    assert(m * p > 0x8000_0000_0000_0000_0000_0000_0000_0000) by (nonlinear_arith)
                        requires
                            m >= 0x10_0000_0000_0000,
                            p >= 0x1000_0000_0000_0000_0000,
                    ;
                }
            }
            FloatParts { negative, whole: WHOLE_LIMIT + 1, has_rest: false, rest_exceeds: false }
        }
    } else {
        let k = 1075 - scaled;
        proof {
            lemma_pow2_pos(k as nat);
        }
        if k >= 105 {
            proof {
                let p = pow2(k as nat) as int;
                if k > 105 {
                    lemma_pow2_strictly_increases(105, k as nat);
                }
                lemma_basic_div(m as int, p);
                lemma_small_mod(m as nat, p as nat);
                assert(m * 0x10_0000_0000_0000 <= p) by (nonlinear_arith)
                    requires
                        0 <= m < 0x20_0000_0000_0000,
                        p >= 0x200_0000_0000_0000_0000_0000_0000,
                ;
            }
            FloatParts { negative, whole: 0, has_rest: m != 0, rest_exceeds: false }
        } else {
            let p = power_of_two(k);
            let whole = (m as u128) / p;
            let rest = (m as u128) % p;
            proof {
                if k < 104 {
                    lemma_pow2_strictly_increases(k as nat, 104);
                }
                lemma_mod_decreases(m as nat, p as nat);
                assert(rest * 0x10_0000_0000_0000 <= 0x20_0000_0000_0000 * 0x10_0000_0000_0000)
                    by (nonlinear_arith)
                    requires
                        0 <= rest <= 0x20_0000_0000_0000,
                ;
            }
            FloatParts {
                negative,
                whole,
                has_rest: rest != 0,
                rest_exceeds: rest * (FRACTION_END as u128) > p,
            }
        }
    }
}

/// True when the exponent bits of `bits` are not all set.
pub fn finite(bits: u64) -> (is: bool)
    ensures
        is == is_finite(bits),
{
    (bits / FRACTION_END) % 2048 != 2047
}

/// True when `bits` stands for "not a number".
pub fn not_a_number(bits: u64) -> (is: bool)
    ensures
        is == is_nan(bits),
{
    (bits / FRACTION_END) % 2048 == 2047 && bits % FRACTION_END != 0
}

/// What a float is as a whole number.
pub enum FloatToInt {
    /// The float is this whole number, give or take the machine epsilon.
    Whole(i128),
    /// The float has a fractional part greater than the machine epsilon.
    Fractional,
    /// The float is no number or lies outside the 64-bit signed range.
    OutOfRange,
}

/// What the float `bits` is as a whole number: nothing if it is infinite or
/// no number, nothing if its fractional part exceeds the machine epsilon,
/// nothing if it lies outside the 64-bit signed range, else its value with
/// the fractional part cut off.
pub open spec fn int_reading(bits: u64) -> FloatToInt {
    if !is_finite(bits) {
        FloatToInt::OutOfRange
    } else if fraction_exceeds_epsilon(bits) {
        FloatToInt::Fractional
    } else {
        let value = if is_negative(bits) {
            -whole_part(bits)
        } else {
            whole_part(bits)
        };
        if i64::MIN <= value <= i64::MAX {
            FloatToInt::Whole(value as i128)
        } else {
            FloatToInt::OutOfRange
        }
    }
}

/// Reads the float `bits` as a whole number.
pub fn to_int(bits: u64) -> (reading: FloatToInt)
    ensures
        reading == int_reading(bits),
{
    if !finite(bits) {
        return FloatToInt::OutOfRange;
    }
    let parts = finite_parts(bits);
    if parts.rest_exceeds {
        FloatToInt::Fractional
    } else if parts.negative {
        if parts.whole <= 0x8000_0000_0000_0000u128 {
            FloatToInt::Whole(-(parts.whole as i128))
        } else {
            FloatToInt::OutOfRange
        }
    } else {
        if parts.whole <= 0x7fff_ffff_ffff_ffffu128 {
            FloatToInt::Whole(parts.whole as i128)
        } else {
            FloatToInt::OutOfRange
        }
    }
}

/// True when the float `bits` lies within the counts `from..=to`: when it
/// is a number, not less than `from` and not greater than `to`. A negative
/// float lies within them only if it is zero and `from` is zero.
pub open spec fn is_within(bits: u64, from: usize, to: usize) -> bool {
    &&& is_finite(bits)
    &&& if is_negative(bits) {
        whole_part(bits) == 0 && fraction_rest(bits) == 0 && from == 0
    } else {
        from <= whole_part(bits) && (whole_part(bits) < to || (whole_part(bits) == to
            && fraction_rest(bits) == 0))
    }
}

/// True when the float `bits` lies within the counts `from..=to`.
pub fn within(bits: u64, from: usize, to: usize) -> (is: bool)
    ensures
        is == is_within(bits, from, to),
{
    if !finite(bits) {
        return false;
    }
    let parts = finite_parts(bits);
    if parts.negative {
        parts.whole == 0 && !parts.has_rest && from == 0
    } else {
        from as u128 <= parts.whole && (parts.whole < to as u128 || (parts.whole == to as u128
            && !parts.has_rest))
    }
}

/// The place of a pattern that is a number or an infinity in the order of
/// their values: patterns with the sign bit count downwards from zero, the
/// others upwards, and both zeros have the same place.
pub open spec fn order_key(bits: u64) -> int {
    if is_negative(bits) {
        0x8000_0000_0000_0000 - bits
    } else {
        bits as int
    }
}

/// True when the float `a` is less than the float `b`; "not a number" is
/// neither less nor greater than anything.
pub open spec fn float_lt(a: u64, b: u64) -> bool {
    !is_nan(a) && !is_nan(b) && order_key(a) < order_key(b)
}

/// True when the float `a` is less than the float `b`.
pub fn less(a: u64, b: u64) -> (lt: bool)
    ensures
        lt == float_lt(a, b),
{
    if not_a_number(a) || not_a_number(b) {
        return false;
    }
    let a_negative = a >= SIGN_BIT;
    let b_negative = b >= SIGN_BIT;
    if a_negative && b_negative {
        a > b
    } else if a_negative {
        a > SIGN_BIT || b > 0
    } else if b_negative {
        false
    } else {
        a < b
    }
}

/// The magnitude of `i`.
fn magnitude(i: i128) -> (m: u128)
    ensures
        m == (if i < 0 {
            -(i as int)
        } else {
            i as int
        }),
{
    if i == i128::MIN {
        WHOLE_LIMIT
    } else if i < 0 {
        (-i) as u128
    } else {
        i as u128
    }
}

/// True when the float `bits` is zero, with either sign.
pub open spec fn is_zero(bits: u64) -> bool {
    bits == 0 || bits == 0x8000_0000_0000_0000
}

/// True when the float `bits` is the number one.
pub open spec fn is_one(bits: u64) -> bool {
    bits == 0x3ff0_0000_0000_0000
}

/// The magnitude of a whole number.
pub open spec fn abs_of(i: int) -> nat {
    if i < 0 {
        (-i) as nat
    } else {
        i as nat
    }
}

/// By how many bits a whole number below two to the power of 53 is shifted
/// up to become a significand: the least count from `s` on that brings it
/// to two to the power of 52 at least.
pub open spec fn raise_bits(n: nat, s: nat) -> nat
    decreases 53 - s,
{
    if s >= 53 || n * pow2(s) >= 0x10_0000_0000_0000 {
        s
    } else {
        raise_bits(n, s + 1)
    }
}

/// How many low bits rounding cuts off a whole number: the least count from
/// `t` on that leaves less than two to the power of 53.
pub open spec fn cut_bits(n: nat, t: nat) -> nat
    decreases 128 - t,
{
    if t >= 128 || n / pow2(t) < 0x20_0000_0000_0000 {
        t
    } else {
        cut_bits(n, t + 1)
    }
}

/// The significand and the scale of the float nearest to the whole number
/// `n`, which is not zero. A number below two to the power of 53 is a
/// float as it is. A greater one loses its low bits and is rounded to the
/// nearer neighbour, and to the one with the even significand if both are
/// equally near.
pub open spec fn nearest_parts(n: nat) -> (int, int) {
    if n < 0x20_0000_0000_0000 {
        let s = raise_bits(n, 0);
        ((n * pow2(s)) as int, -(s as int))
    } else {
        let t = cut_bits(n, 1);
        let p = pow2(t);
        let q = n / p;
        let r = n % p;
        let rounded: int = if 2 * r > p || (2 * r == p && q % 2 == 1) {
            (q + 1) as int
        } else {
            q as int
        };
        if rounded == 0x20_0000_0000_0000 {
            (0x10_0000_0000_0000int, (t + 1) as int)
        } else {
            (rounded, t as int)
        }
    }
}

/// The bit pattern with this sign, significand and scale.
pub open spec fn pack(negative: bool, m: int, t: int) -> u64 {
    ((if negative {
        0x8000_0000_0000_0000
    } else {
        0int
    }) + (t + 1075) * 0x10_0000_0000_0000 + (m - 0x10_0000_0000_0000)) as u64
}

/// The float nearest to the whole number `i`.
pub open spec fn nearest_float(i: int) -> u64 {
    if i == 0 {
        0
    } else {
        pack(i < 0, nearest_parts(abs_of(i)).0, nearest_parts(abs_of(i)).1)
    }
}

/// True when `bits` is the float nearest to the whole number `i`, and the
/// one with the even significand if two floats are equally near. Where
/// floats lie at most one apart the nearest is the number itself; further
/// out the number lies within half the distance of the float to the next,
/// which below the least significand is half of what it is above.
pub open spec fn is_nearest(bits: u64, i: int) -> bool {
    let n = abs_of(i) as int;
    let w = whole_part(bits);
    let gap = pow2(scale(bits) as nat) as int;
    &&& is_finite(bits)
    &&& is_negative(bits) == (i < 0)
    &&& fraction_rest(bits) == 0
    &&& if scale(bits) <= 0 {
        w == n
    } else if n >= w {
        2 * (n - w) <= gap && (2 * (n - w) == gap ==> significand(bits) % 2 == 0)
    } else if significand(bits) == 0x10_0000_0000_0000 {
        4 * (w - n) <= gap
    } else {
        2 * (w - n) <= gap && (2 * (w - n) == gap ==> significand(bits) % 2 == 0)
    }
}

/// The magnitude of a float that is a whole number, written in decimal
/// digits, with a minus sign if the float is negative.
pub open spec fn whole_text(bits: u64) -> Seq<char> {
    if is_negative(bits) {
        seq!['-'] + nat_text(whole_part(bits) as nat)
    } else {
        nat_text(whole_part(bits) as nat)
    }
}

proof fn lemma_div_at_least(n: int, p: int, k: int)
    requires
        0 <= n,
        0 < p,
        0 <= k,
    ensures
        n / p >= k <==> n >= k * p,
{
    lemma_fundamental_div_mod(n, p);
    lemma_mod_bound(n, p);
    let q = n / p;
    if q >= k {
        assert(p * q >= p * k) by (nonlinear_arith)
            requires
                q >= k,
                p > 0,
        ;
        assert(k * p == p * k) by (nonlinear_arith);
    } else {
        assert(p * (q + 1) <= p * k) by (nonlinear_arith)
            requires
                q + 1 <= k,
                p > 0,
        ;
        assert(p * (q + 1) == p * q + p) by (nonlinear_arith);
        assert(k * p == p * k) by (nonlinear_arith);
    }
}

/// What the pattern packed of a significand and a scale holds.
proof fn lemma_pack(negative: bool, m: int, t: int)
    requires
        0x10_0000_0000_0000 <= m < 0x20_0000_0000_0000,
        -1074 <= t <= 971,
    ensures
        pack(negative, m, t) == (if negative {
            0x8000_0000_0000_0000
        } else {
            0int
        }) + (t + 1075) * 0x10_0000_0000_0000 + (m - 0x10_0000_0000_0000),
        is_finite(pack(negative, m, t)),
        is_negative(pack(negative, m, t)) == negative,
        significand(pack(negative, m, t)) == m,
        scale(pack(negative, m, t)) == t,
{
    let sign = if negative {
        0x8000_0000_0000_0000
    } else {
        0int
    };
    let exponent = t + 1075;
    let fraction = m - 0x10_0000_0000_0000;
    let bits = sign + exponent * 0x10_0000_0000_0000 + fraction;
    assert(0 <= bits <= u64::MAX);
    assert(bits / 0x10_0000_0000_0000 == (if negative {
        2048
    } else {
        0int
    }) + exponent);
    assert(bits % 0x10_0000_0000_0000 == fraction);
}

/// Shifts a whole number below two to the power of 53 up to a significand.
fn raise(n: u64) -> (raised: (u64, u64))
    requires
        1 <= n < 0x20_0000_0000_0000,
    ensures
        raised.1 == raise_bits(n as nat, 0),
        raised.1 <= 52,
        raised.0 == n * pow2(raised.1 as nat),
        0x10_0000_0000_0000 <= raised.0 < 0x20_0000_0000_0000,
{
    let mut m: u64 = n;
    let mut shift: u64 = 0;
    proof {
        lemma2_to64();
        lemma_pow2_values();
    }
    while m < FRACTION_END
        invariant
            1 <= n < 0x20_0000_0000_0000,
            0 <= shift <= 52,
            m == n * pow2(shift as nat),
            1 <= m < 0x20_0000_0000_0000,
            shift == 52 ==> m >= 0x10_0000_0000_0000,
            raise_bits(n as nat, shift as nat) == raise_bits(n as nat, 0),
            pow2(52) == 0x10_0000_0000_0000,
        decreases 52 - shift,
    {
        proof {
            lemma_pow2_unfold((shift + 1) as nat);
            assert(n * (2 * pow2(shift as nat)) == 2 * (n * pow2(shift as nat)))
                by (nonlinear_arith);
            if shift + 1 == 52 {
                assert(n * pow2(52) >= pow2(52)) by (nonlinear_arith)
                    requires
                        n >= 1,
                ;
            }
        }
        m = m * 2;
        shift = shift + 1;
    }
    (m, shift)
}

/// Counts the low bits that rounding cuts off a whole number of two to the
/// power of 53 at least, and gives two to the power of that count.
fn cut(n: u128) -> (found: (u64, u128))
    requires
        0x20_0000_0000_0000 <= n <= WHOLE_LIMIT,
    ensures
        found.0 == cut_bits(n as nat, 1),
        1 <= found.0 <= 75,
        found.1 == pow2(found.0 as nat),
        2 <= found.1 <= 0x800_0000_0000_0000_0000,
        0x10_0000_0000_0000 <= n / found.1 < 0x20_0000_0000_0000,
{
    let mut t: u64 = 1;
    let mut p: u128 = 2;
    proof {
        lemma2_to64();
        lemma_pow2_values();
        assert(n as int / 1 == n);
    }
    while n / p >= 0x20_0000_0000_0000
        invariant
            0x20_0000_0000_0000 <= n <= WHOLE_LIMIT,
            1 <= t <= 75,
            p == pow2(t as nat),
            2 <= p <= 0x800_0000_0000_0000_0000,
            n as int / (pow2((t - 1) as nat) as int) >= 0x20_0000_0000_0000,
            cut_bits(n as nat, t as nat) == cut_bits(n as nat, 1),
            pow2(74) == 0x400_0000_0000_0000_0000,
            pow2(75) == 0x800_0000_0000_0000_0000,
        decreases 75 - t,
    {
        proof {
            lemma_div_at_least(n as int, p as int, 0x20_0000_0000_0000);
            assert(p <= 0x400_0000_0000_0000_0000) by (nonlinear_arith)
                requires
                    n >= 0x20_0000_0000_0000 * p,
                    n <= 0x8000_0000_0000_0000_0000_0000_0000_0000,
            ;
            if t >= 75 {
                assert(false);
            }
            lemma_pow2_unfold((t + 1) as nat);
        }
        p = p * 2;
        t = t + 1;
    }
    proof {
        lemma_pow2_unfold(t as nat);
        let half = pow2((t - 1) as nat) as int;
        assert(p == 2 * half);
        lemma_div_at_least(n as int, half, 0x20_0000_0000_0000);
        lemma_div_at_least(n as int, p as int, 0x10_0000_0000_0000);
        assert(0x10_0000_0000_0000 * p == 0x20_0000_0000_0000 * half) by (nonlinear_arith)
            requires
                p == 2 * half,
        ;
    }
    (t, p)
}

/// The float that a whole number below two to the power of 53 is.
fn exact_bits(negative: bool, n: u64) -> (bits: u64)
    requires
        1 <= n < 0x20_0000_0000_0000,
    ensures
        bits == pack(negative, nearest_parts(n as nat).0, nearest_parts(n as nat).1),
        is_finite(bits),
        is_negative(bits) == negative,
        fraction_rest(bits) == 0,
        whole_part(bits) == n,
        scale(bits) <= 0,
{
    let (m, shift) = raise(n);
    let sign: u64 = if negative {
        SIGN_BIT
    } else {
        0
    };
    let bits = sign + (1075 - shift) * FRACTION_END + (m - FRACTION_END);
    proof {
        lemma_pack(negative, m as int, -(shift as int));
        let p = pow2(shift as nat) as int;
        lemma_pow2_pos(shift as nat);
        lemma2_to64();
        if shift == 0 {
            assert(m * 1 == m);
        } else {
            lemma_mul_is_commutative(n as int, p);
            lemma_div_multiples_vanish(n as int, p);
            lemma_mod_multiples_basic(n as int, p);
        }
    }
    bits
}

/// The float nearest to a whole number of two to the power of 53 at least,
/// and the magnitude of that float.
fn rounded_bits(negative: bool, n: u128) -> (made: (u64, u128))
    requires
        0x20_0000_0000_0000 <= n <= WHOLE_LIMIT,
    ensures
        made.0 == pack(negative, nearest_parts(n as nat).0, nearest_parts(n as nat).1),
        is_finite(made.0),
        is_negative(made.0) == negative,
        fraction_rest(made.0) == 0,
        whole_part(made.0) == made.1,
        is_nearest(
            made.0,
            if negative {
                -(n as int)
            } else {
                n as int
            },
        ),
{
    let (t, p) = cut(n);
    let q = n / p;
    let r = n % p;
    let up = r > p / 2 || (r == p / 2 && q % 2 == 1);
    proof {
        lemma_pow2_unfold(t as nat);
        assert(up == (2 * r > p || (2 * r == p && q % 2 == 1)));
    }
    let rounded: u128 = if up {
        q + 1
    } else {
        q
    };
    proof {
        lemma_fundamental_div_mod(n as int, p as int);
        assert(rounded * p <= p * q + p) by (nonlinear_arith)
            requires
                0 <= rounded <= q + 1,
                0 <= p,
        ;
    }
    let whole = rounded * p;
    let carried = rounded == 0x20_0000_0000_0000;
    let m: u64 = if carried {
        FRACTION_END
    } else {
        rounded as u64
    };
    let scaled: u64 = if carried {
        t + 1
    } else {
        t
    };
    let sign: u64 = if negative {
        SIGN_BIT
    } else {
        0
    };
    let bits = sign + (scaled + 1075) * FRACTION_END + (m - FRACTION_END);
    proof {
        assert(nearest_parts(n as nat) == (m as int, scaled as int));
        lemma_pack(negative, m as int, scaled as int);
        lemma_pow2_unfold((t + 1) as nat);
        if carried {
            assert(0x10_0000_0000_0000 * (2 * p) == 0x20_0000_0000_0000 * p)
                by (nonlinear_arith);
        }
        assert(whole == (if up {
            p * q + p
        } else {
            p * q
        })) by (nonlinear_arith)
            requires
                whole == rounded * p,
                rounded == (if up {
                    q + 1
                } else {
                    q as int
                }),
        ;
        assert(whole_part(bits) == whole);
        assert(n == p * q + r);
        assert(0 <= r < p);
    }
    (bits, whole)
}

/// The float nearest to the whole number `i`, and the magnitude of that
/// float.
pub fn nearest_bits(i: i128) -> (made: (u64, u128))
    ensures
        made.0 == nearest_float(i as int),
        is_finite(made.0),
        is_negative(made.0) == (i < 0),
        fraction_rest(made.0) == 0,
        whole_part(made.0) == made.1,
        -0x20_0000_0000_0000 < i < 0x20_0000_0000_0000 ==> made.1 == abs_of(i as int),
        is_nearest(made.0, i as int),
{
    if i == 0 {
        proof {
            lemma2_to64();
            lemma_pow2_pos(1074);
            lemma_basic_div(0, pow2(1074) as int);
            lemma_small_mod(0, pow2(1074));
        }
        return (0, 0);
    }
    let n = magnitude(i);
    if n < 0x20_0000_0000_0000 {
        (exact_bits(i < 0, n as u64), n)
    } else {
        rounded_bits(i < 0, n)
    }
}

/// A 64-bit floating-point number: its bit pattern and the text that it is
/// written as.
#[derive(Debug, Clone)]
pub struct Float64 {
    bits: u64,
    text: String,
}

impl Float64 {
    /// The bit pattern.
    pub closed spec fn spec_bits(&self) -> u64 {
        self.bits
    }

    /// The text.
    pub closed spec fn spec_text(&self) -> Seq<char> {
        self.text@
    }

    /// The number with the bit pattern `bits`, written as `text`.
    pub fn new(bits: u64, text: String) -> (float: Self)
        ensures
            float.spec_bits() == bits,
            float.spec_text() == text@,
    {
        Float64 { bits, text }
    }

    /// The bit pattern.
    pub fn bits(&self) -> (bits: u64)
        ensures
            bits == self.spec_bits(),
    {
        self.bits
    }

    /// The text.
    pub fn text(&self) -> (text: &str)
        ensures
            text@ == self.spec_text(),
    {
        self.text.as_str()
    }

    /// A copy of the number.
    pub fn copy(&self) -> (float: Self)
        ensures
            float.spec_bits() == self.spec_bits(),
            float.spec_text() == self.spec_text(),
    {
        Float64 { bits: self.bits, text: self.text.clone() }
    }

    /// The float nearest to the whole number `i`, written as the whole
    /// number that the float is.
    pub fn from_int(i: i128) -> (float: Self)
        ensures
            float.spec_bits() == nearest_float(i as int),
            is_nearest(float.spec_bits(), i as int),
            float.spec_text() == whole_text(float.spec_bits()),
            -0x20_0000_0000_0000 < i < 0x20_0000_0000_0000 ==> float.spec_text() == int_text(
                i as int,
            ),
    {
        let (bits, whole) = nearest_bits(i);
        let text = if i < 0 {
            proof {
                reveal_strlit("-");
            }
            let mut text = String::from_str("-");
            text.append(nat_to_string(whole).as_str());
            assert(text@ =~= whole_text(bits));
            text
        } else {
            nat_to_string(whole)
        };
        Float64 { bits, text }
    }
}

} // verus!
