//! Channels quantised to bytes.
//!
//! A channel is turned into a byte as single-precision arithmetic does it:
//! clamped to the range from zero to one, multiplied by 255, and rounded.
//! Here the same byte is computed in integers from the channel's encoding.

use vstd::prelude::*;
use vstd::arithmetic::power2::{lemma2_to64, lemma2_to64_rest, lemma_pow2_strictly_increases, pow2};
use vstd::bits::lemma_u64_shl_is_mul;
use crate::scalar::{Scalar, INFINITY_BITS, ONE_BITS, ZERO_BITS};

verus! {

/// The number of encodings per exponent: two to the number of fraction bits.
pub const FRACTIONS: u32 = 0x80_0000;

/// The significand of a finite magnitude, as an integer of at most 24 bits.
/// With `exponent`, the value is `significand * 2^(exponent - 150)`.
pub open spec fn significand(magnitude: u32) -> nat {
    if magnitude / FRACTIONS == 0 {
        (magnitude % FRACTIONS) as nat
    } else {
        (magnitude % FRACTIONS + FRACTIONS) as nat
    }
}

/// The exponent of a finite magnitude. Subnormal values share the exponent
/// of the smallest normal ones.
pub open spec fn exponent(magnitude: u32) -> nat {
    if magnitude / FRACTIONS == 0 {
        1
    } else {
        (magnitude / FRACTIONS) as nat
    }
}

/// The power of two by which `p` is too wide for a significand: the least
/// one that brings `p` below `2^24` when divided by it.
pub open spec fn excess(p: nat) -> nat
    decreases p,
{
    if p < 0x100_0000 {
        1
    } else {
        2 * excess(p / 2)
    }
}

/// `p / unit`, rounded to the nearest integer, a tie to the even one.
pub open spec fn round_ties_even(p: nat, unit: nat) -> nat {
    let q = p / unit;
    let rest = p % unit;
    if 2 * rest > unit || (2 * rest == unit && q % 2 == 1) {
        q + 1
    } else {
        q
    }
}

/// `p / unit`, rounded to the nearest integer, a tie upwards.
pub open spec fn round_ties_up(p: nat, unit: nat) -> nat {
    (2 * p + unit) / (2 * unit)
}

/// `p` rounded to 24 significant bits, ties to even.
pub open spec fn rounded(p: nat) -> nat {
    round_ties_even(p, excess(p)) * excess(p)
}

/// The byte of a channel whose value lies between zero and one, given by
/// its magnitude: the value is multiplied by 255 in single precision, which
/// rounds the product to 24 significant bits, ties to even, and the product
/// is then rounded to the nearest integer, halves upwards. The two roundings
/// are kept apart because together they differ from rounding once.
pub open spec fn unit_to_byte(magnitude: u32) -> nat {
    round_ties_up(
        rounded(255 * significand(magnitude)),
        pow2((150 - exponent(magnitude)) as nat),
    )
}

/// The byte that stands for a channel in an image file: 255 above one, 0
/// below zero, and in between 255 times the value, rounded. A NaN is
/// neither above one nor below zero, and converts to 0.
pub open spec fn quantized(v: Scalar) -> u8 {
    if v.nan() {
        0
    } else if (Scalar { bits: ONE_BITS }).less_than(v) {
        255
    } else if v.less_than(Scalar { bits: ZERO_BITS }) {
        0
    } else {
        unit_to_byte(v.magnitude()) as u8
    }
}

/// What `excess` is of a number of 31 or of 32 bits.
proof fn lemma_excess_wide(p: nat)
    requires
        0x4000_0000 <= p < 0x1_0000_0000,
    ensures
        excess(p) == if p < 0x8000_0000 {
            128nat
        } else {
            256nat
        },
{
    reveal_with_fuel(excess, 10);
}

/// The product of 255 and a significand stays within `255 * 2^24` when it
/// is rounded to 24 significant bits.
proof fn lemma_rounded_product_bound(p: nat)
    requires
        p <= 255 * 0x100_0000,
    ensures
        rounded(p) <= 255 * 0x100_0000,
{
    reveal_with_fuel(excess, 10);
    let unit = excess(p);
    assert(unit == 1 || unit == 2 || unit == 4 || unit == 8 || unit == 16 || unit == 32 || unit
        == 64 || unit == 128 || unit == 256);
}

/// `excess` of a number below `2^32` is a power of two from 1 to 256, and
/// the number lies in the range of numbers of that width.
proof fn lemma_excess_range(p: nat)
    requires
        p < 0x1_0000_0000,
    ensures
        ({
            let u = excess(p);
            &&& u == 1 || u == 2 || u == 4 || u == 8 || u == 16 || u == 32 || u == 64 || u == 128
                || u == 256
            &&& p < 0x100_0000 * u
            &&& u > 1 ==> 0x80_0000 * u <= p
        }),
{
    reveal_with_fuel(excess, 10);
}

/// Division with remainder by a positive unit.
proof fn lemma_split(p: nat, unit: nat)
    requires
        unit > 0,
    ensures
        p == unit * (p / unit) + p % unit,
        0 <= p % unit < unit,
        0 <= p / unit,
{
    vstd::arithmetic::div_mod::lemma_fundamental_div_mod(p as int, unit as int);
    vstd::arithmetic::div_mod::lemma_mod_pos_bound(p as int, unit as int);
    vstd::arithmetic::div_mod::lemma_div_pos_is_pos(p as int, unit as int);
}

/// Rounding keeps a number between the multiples of the unit around it.
proof fn lemma_round_between(p: nat, unit: nat, lo: nat, hi: nat)
    requires
        unit > 0,
        lo * unit <= p <= hi * unit,
    ensures
        lo <= round_ties_even(p, unit) <= hi,
{
    lemma_split(p, unit);
    let q = p / unit;
    let rest = p % unit;
    assert(lo <= q) by (nonlinear_arith)
        requires
            unit > 0,
            lo * unit <= p,
            p == unit * q + rest,
            rest < unit,
    ;
    if p == hi * unit {
        assert(q == hi && rest == 0) by (nonlinear_arith)
            requires
                unit > 0,
                p == hi * unit,
                p == unit * q + rest,
                0 <= rest < unit,
        ;
    } else {
        assert(q < hi) by (nonlinear_arith)
            requires
                unit > 0,
                p < hi * unit,
                p == unit * q + rest,
                0 <= rest,
        ;
    }
}

/// Rounding to a unit keeps the order of two numbers.
proof fn lemma_round_monotonic(p1: nat, p2: nat, unit: nat)
    requires
        unit > 0,
        p1 <= p2,
    ensures
        round_ties_even(p1, unit) <= round_ties_even(p2, unit),
{
    lemma_split(p1, unit);
    lemma_split(p2, unit);
    let q1 = p1 / unit;
    let q2 = p2 / unit;
    let r1 = p1 % unit;
    let r2 = p2 % unit;
    assert(q1 <= q2) by (nonlinear_arith)
        requires
            unit > 0,
            p1 <= p2,
            p1 == unit * q1 + r1,
            p2 == unit * q2 + r2,
            0 <= r1,
            r2 < unit,
    ;
    if q1 == q2 {
        assert(r1 <= r2);
    }
}

/// Rounding to 24 significant bits keeps the order of two numbers.
proof fn lemma_rounded_monotonic(p1: nat, p2: nat)
    requires
        p1 <= p2 < 0x1_0000_0000,
    ensures
        rounded(p1) <= rounded(p2),
{
    lemma_excess_range(p1);
    lemma_excess_range(p2);
    let u1 = excess(p1);
    let u2 = excess(p2);
    assert(u1 <= u2);
    if u1 == u2 {
        lemma_round_monotonic(p1, p2, u1);
        assert(round_ties_even(p1, u1) * u1 <= round_ties_even(p2, u1) * u1) by (nonlinear_arith)
            requires
                round_ties_even(p1, u1) <= round_ties_even(p2, u1),
                u1 > 0,
        ;
    } else {
        assert(2 * u1 <= u2);
        lemma_round_between(p1, u1, 0, 0x100_0000);
        lemma_round_between(p2, u2, 0x80_0000, 0x1_0000_0000);
        assert(round_ties_even(p1, u1) * u1 <= 0x100_0000 * u1) by (nonlinear_arith)
            requires
                round_ties_even(p1, u1) <= 0x100_0000,
                u1 > 0,
        ;
        assert(0x80_0000 * u2 <= round_ties_even(p2, u2) * u2) by (nonlinear_arith)
            requires
                0x80_0000 <= round_ties_even(p2, u2),
                u2 > 0,
        ;
    }
}

/// 255 times the value of a magnitude, rounded to 24 significant bits, in
/// units of `2^-149`.
pub open spec fn scaled(magnitude: u32) -> nat {
    rounded(255 * significand(magnitude)) * pow2((exponent(magnitude) - 1) as nat)
}

/// The byte of a magnitude is its scaled product, rounded to units of one.
proof fn lemma_unit_to_byte_scaled(magnitude: u32)
    requires
        magnitude <= ONE_BITS,
    ensures
        unit_to_byte(magnitude) == round_ties_up(scaled(magnitude), pow2(149)),
{
    let e = exponent(magnitude);
    assert(1 <= e <= 127);
    let r = rounded(255 * significand(magnitude)) as int;
    let k = pow2((e - 1) as nat) as int;
    let d = pow2((150 - e) as nat) as int;
    let c = pow2(149) as int;
    vstd::arithmetic::power2::lemma_pow2_pos((e - 1) as nat);
    vstd::arithmetic::power2::lemma_pow2_pos((150 - e) as nat);
    vstd::arithmetic::power2::lemma_pow2_adds((e - 1) as nat, (150 - e) as nat);
    assert(c == k * d);
    vstd::arithmetic::div_mod::lemma_div_multiples_vanish_quotient(k, 2 * r + d, 2 * d);
    assert(k * (2 * r + d) == 2 * (r * k) + c) by (nonlinear_arith)
        requires
            c == k * d,
    ;
    assert(k * (2 * d) == 2 * c) by (nonlinear_arith)
        requires
            c == k * d,
    ;
}

/// The scaled product keeps the order of two magnitudes up to one.
proof fn lemma_scaled_monotonic(m1: u32, m2: u32)
    requires
        m1 <= m2 <= ONE_BITS,
    ensures
        scaled(m1) <= scaled(m2),
{
    let e1 = exponent(m1);
    let e2 = exponent(m2);
    let s1 = significand(m1);
    let s2 = significand(m2);
    let r1 = rounded(255 * s1);
    let r2 = rounded(255 * s2);
    let k1 = pow2((e1 - 1) as nat);
    let k2 = pow2((e2 - 1) as nat);
    assert(m1 / FRACTIONS <= m2 / FRACTIONS);
    assert(s1 < 0x100_0000 && s2 < 0x100_0000);
    vstd::arithmetic::power2::lemma_pow2_pos((e1 - 1) as nat);
    if e1 == e2 {
        assert(s1 <= s2);
        lemma_rounded_monotonic(255 * s1, 255 * s2);
        assert(r1 * k1 <= r2 * k1) by (nonlinear_arith)
            requires
                r1 <= r2,
                k1 > 0,
        ;
    } else {
        assert(e1 < e2);
        assert(s2 >= 0x80_0000);
        lemma_rounded_product_bound(255 * s1);
        lemma_excess_wide(255 * s2);
        let u2 = excess(255 * s2);
        // 255 * 2^23 is a multiple of the unit, and the product is not below it
        let whole: nat = if u2 == 128 {
            0xff_0000
        } else {
            0x7f_8000
        };
        assert(whole * u2 == 255 * 0x80_0000);
        lemma_round_between(255 * s2, u2, whole, 0x1_0000_0000);
        assert(r2 >= 255 * 0x80_0000) by (nonlinear_arith)
            requires
                r2 == round_ties_even(255 * s2, u2) * u2,
                whole <= round_ties_even(255 * s2, u2),
                whole * u2 == 255 * 0x80_0000,
                u2 > 0,
        ;
        vstd::arithmetic::power2::lemma_pow2_unfold(e1);
        assert(pow2(e1) == 2 * k1);
        if e1 < e2 - 1 {
            lemma_pow2_strictly_increases(e1, (e2 - 1) as nat);
        }
        assert(2 * k1 <= k2);
        assert(r1 * k1 <= r2 * k2) by (nonlinear_arith)
            requires
                r1 <= 255 * 0x100_0000,
                r2 >= 255 * 0x80_0000,
                2 * k1 <= k2,
                k1 > 0,
        ;
    }
}

/// One gives the byte 255.
proof fn lemma_one_to_byte()
    ensures
        unit_to_byte(ONE_BITS) == 255,
{
    let p: nat = 255 * 0x80_0000;
    assert(significand(ONE_BITS) == 0x80_0000);
    assert(exponent(ONE_BITS) == 127);
    lemma_excess_wide(p);
    lemma_round_between(p, 128, 0xff_0000, 0xff_0000);
    assert(rounded(p) == p);
    lemma2_to64();
    assert(pow2(23) == 0x80_0000);
    assert(unit_to_byte(ONE_BITS) == round_ties_up(p, 0x80_0000));
    assert(p == 0x7f80_0000);
    assert(round_ties_up(p, 0x80_0000) == 0xff80_0000nat / 0x100_0000nat);
    assert(0xff80_0000nat / 0x100_0000nat == 255);
}

/// Between zero and one a larger value never gets a smaller byte, and no
/// value gets more than 255.
pub proof fn lemma_unit_to_byte_monotonic(m1: u32, m2: u32)
    requires
        m1 <= m2 <= ONE_BITS,
    ensures
        unit_to_byte(m1) <= unit_to_byte(m2) <= 255,
{
    let c = pow2(149);
    vstd::arithmetic::power2::lemma_pow2_pos(149);
    lemma_unit_to_byte_scaled(m1);
    lemma_unit_to_byte_scaled(m2);
    lemma_unit_to_byte_scaled(ONE_BITS);
    lemma_scaled_monotonic(m1, m2);
    lemma_scaled_monotonic(m2, ONE_BITS);
    lemma_one_to_byte();
    vstd::arithmetic::div_mod::lemma_div_is_ordered(
        (2 * scaled(m1) + c) as int,
        (2 * scaled(m2) + c) as int,
        (2 * c) as int,
    );
    vstd::arithmetic::div_mod::lemma_div_is_ordered(
        (2 * scaled(m2) + c) as int,
        (2 * scaled(ONE_BITS) + c) as int,
        (2 * c) as int,
    );
}

/// A brighter channel never gets a darker byte: the byte keeps the order
/// of any two values that are no NaN.
pub proof fn lemma_quantized_monotonic(a: Scalar, b: Scalar)
    requires
        !a.nan(),
        !b.nan(),
        a.key() <= b.key(),
    ensures
        quantized(a) <= quantized(b),
{
    let zero = Scalar { bits: ZERO_BITS };
    let one = Scalar { bits: ONE_BITS };
    if !one.less_than(b) && !a.less_than(zero) {
        lemma_unit_to_byte_monotonic(a.magnitude(), b.magnitude());
    }
}

/// The range is clamped at both ends: every value from one upwards gets
/// 255, positive infinity included, and every value from zero downwards
/// gets 0, as a NaN does.
pub proof fn lemma_quantized_saturates(v: Scalar)
    ensures
        !v.nan() && v.key() >= ONE_BITS ==> quantized(v) == 255,
        !v.nan() && v.key() <= 0 ==> quantized(v) == 0,
        v.nan() ==> quantized(v) == 0,
{
    lemma_small_to_byte(ZERO_BITS);
    lemma_one_to_byte();
}

/// A value below `2^-9` gives the byte 0: 255 times the value stays below
/// one half, rounded or not.
proof fn lemma_small_to_byte(magnitude: u32)
    requires
        magnitude / FRACTIONS < 118,
    ensures
        unit_to_byte(magnitude) == 0,
{
    let product = 255 * significand(magnitude);
    let rounded = rounded(product);
    lemma_rounded_product_bound(product);
    let d = pow2((150 - exponent(magnitude)) as nat);
    lemma2_to64_rest();
    assert(d >= 0x2_0000_0000) by {
        if exponent(magnitude) < 117 {
            lemma_pow2_strictly_increases(33, (150 - exponent(magnitude)) as nat);
        }
    }
    assert((2 * rounded + d) / (2 * d) == 0) by (nonlinear_arith)
        requires
            0 <= 2 * rounded < d,
    ;
}

/// The byte that stands for the channel `v` in an image file.
pub fn clamp_to_byte(v: Scalar) -> (byte: u8)
    ensures
        byte == quantized(v),
{
    let magnitude: u32 = v.abs().bits;
    if magnitude > INFINITY_BITS {
        return 0;
    }
    if v.is_sign_negative() {
        proof {
            if magnitude == 0 {
                lemma_small_to_byte(magnitude);
            }
        }
        return 0;
    }
    if magnitude > ONE_BITS {
        return 255;
    }
    let e: u32 = magnitude / FRACTIONS;
    if e < 118 {
        proof {
            lemma_small_to_byte(magnitude);
        }
        return 0;
    }
    let s: u64 = (magnitude % FRACTIONS + FRACTIONS) as u64;
    let product: u64 = 255 * s;
    let unit: u64 = if product < 0x8000_0000 {
        128
    } else {
        256
    };
    let q: u64 = product / unit;
    let rest: u64 = product % unit;
    let q: u64 = if 2 * rest > unit || (2 * rest == unit && q % 2 == 1) {
        q + 1
    } else {
        q
    };
    let rounded: u64 = q * unit;
    let shift: u64 = (150 - e) as u64;
    proof {
        lemma_excess_wide(product as nat);
        lemma_rounded_product_bound(product as nat);
        lemma2_to64();
        lemma_u64_shl_is_mul(1, shift);
    }
    let d: u64 = 1u64 << shift;
    assert(d == pow2((150 - exponent(magnitude)) as nat));
    assert(rounded <= 255 * d);
    assert((2 * rounded + d) / (2 * d) <= 255) by (nonlinear_arith)
        requires
            rounded <= 255 * d,
            d > 0,
    ;
    ((2 * rounded + d) / (2 * d)) as u8
}

} // verus!
