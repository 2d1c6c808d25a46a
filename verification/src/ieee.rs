//! Binary floating-point numbers as bit patterns.
//!
//! The wire carries single- and double-precision numbers as the 32 and 64
//! bits of their IEEE 754 interchange formats: a sign bit, a biased
//! exponent of 8 or 11 bits, and a fraction of 23 or 52 bits.  This module
//! works on those patterns with integer arithmetic alone: it widens single
//! to double precision, converts integers with rounding to nearest, ties to
//! even, and orders double-precision patterns.

use crate::rank::int_rank;
use crate::rank::Rank;
use vstd::arithmetic::power2::lemma2_to64;
use vstd::arithmetic::power2::lemma2_to64_rest;
use vstd::arithmetic::power2::lemma_pow2_adds;
use vstd::arithmetic::power2::lemma_pow2_pos;
use vstd::arithmetic::power2::lemma_pow2_strictly_increases;
use vstd::arithmetic::power2::lemma_pow2_unfold;
use vstd::arithmetic::power2::pow2;
use vstd::prelude::*;

verus! {

/// `2^23`, the weight of the hidden bit of a single-precision number.
pub const UNIT32: u64 = 0x80_0000;

/// `2^52`, the weight of the hidden bit of a double-precision number.
pub const UNIT64: u64 = 0x10_0000_0000_0000;

/// `2^63`, the sign bit of a double-precision pattern.
pub const SIGN64: u64 = 0x8000_0000_0000_0000;

/// The position of the highest set bit of `m`, and 0 for 0.
pub open spec fn floor_log2(m: nat) -> nat
    decreases m,
{
    if m <= 1 {
        0
    } else {
        1 + floor_log2(m / 2)
    }
}

/// The pattern, without a sign, of the number nearest to the integer `m` in
/// a format with `frac_bits` bits of fraction and the exponent bias `bias`.
/// With `p` the position of the highest set bit of `m`, the exponent field
/// is `bias + p`.  Up to `frac_bits` the bits below the highest one are the
/// fraction as they are; beyond, the lowest `p - frac_bits` bits are rounded
/// away, to the nearest and at a tie to the even neighbour, and a fraction
/// that rounds up to the next power of two carries into the exponent.
pub open spec fn binary_from_nat(m: nat, frac_bits: nat, bias: nat) -> int {
    if m == 0 {
        0
    } else {
        let p = floor_log2(m);
        if p <= frac_bits {
            (bias + p) * pow2(frac_bits) + (m - pow2(p)) * pow2((frac_bits - p) as nat)
        } else {
            let d = pow2((p - frac_bits) as nat);
            let up: int = if (m % d) * 2 > d || ((m % d) * 2 == d && (m / d) % 2 == 1) {
                1
            } else {
                0
            };
            (bias + p) * pow2(frac_bits) + (m / d - pow2(frac_bits)) + up
        }
    }
}

/// The double-precision pattern of the number nearest to an integer given
/// by sign and magnitude.
pub open spec fn binary64_from_integer(negative: bool, m: u64) -> int {
    binary_from_nat(m as nat, 52, 1023) + if negative && m != 0 {
        SIGN64 as int
    } else {
        0
    }
}

/// The single-precision pattern of the number nearest to a non-negative
/// integer.
pub open spec fn binary32_from_integer(m: u32) -> int {
    binary_from_nat(m as nat, 23, 127)
}

/// The double-precision pattern of the number that a single-precision
/// pattern stands for.  Infinities and NaNs keep their fraction at the top
/// of the wider one, a normal number gets its exponent rebiased, and a
/// subnormal number, which is `f * 2^-149`, becomes normal.
pub open spec fn binary64_from_binary32(b: u32) -> int {
    let e = (b as int / 0x80_0000) % 256;
    let f = b as int % 0x80_0000;
    let sign = (b as int / 0x8000_0000) * SIGN64 as int;
    if e == 255 {
        sign + 2047 * UNIT64 as int + f * 0x2000_0000
    } else if e == 0 {
        sign + binary_from_nat(f as nat, 52, 874)
    } else {
        sign + (e + 896) * UNIT64 as int + f * 0x2000_0000
    }
}

/// The exponent field of a double-precision pattern.
pub open spec fn exponent64(b: u64) -> nat {
    ((b / UNIT64) % 2048) as nat
}

/// The fraction field of a double-precision pattern.
pub open spec fn fraction64(b: u64) -> nat {
    (b % UNIT64) as nat
}

/// Whether a double-precision pattern is not a number: all exponent bits
/// set and a fraction that is not zero.
pub open spec fn binary64_is_nan(b: u64) -> bool {
    exponent64(b) == 2047 && fraction64(b) != 0
}

/// The absolute value of the number that a double-precision pattern stands
/// for, in units of `2^-1074`: the fraction alone under the exponent 0, and
/// else the fraction with the hidden bit, scaled by the exponent.  An
/// infinity comes out above every number.
pub open spec fn binary64_magnitude(b: u64) -> nat {
    if exponent64(b) == 0 {
        fraction64(b)
    } else {
        (UNIT64 as nat + fraction64(b)) * pow2((exponent64(b) - 1) as nat)
    }
}

/// The number that a double-precision pattern stands for, in units of
/// `2^-1074`.
pub open spec fn binary64_value(b: u64) -> int {
    if b >= SIGN64 {
        -(binary64_magnitude(b) as int)
    } else {
        binary64_magnitude(b) as int
    }
}

/// The absolute value of the number that a single-precision pattern stands
/// for, in units of `2^-149`.
pub open spec fn binary32_magnitude(b: u32) -> nat {
    let e = ((b as nat / 0x80_0000) % 256) as nat;
    let f = (b as nat % 0x80_0000) as nat;
    if e == 0 {
        f
    } else {
        (0x80_0000nat + f) * pow2((e - 1) as nat)
    }
}

/// An integer cut down to a multiple of `d`, a power of two: the nearest
/// one, and of two that are equally near the even multiple.
pub open spec fn nearest_even(m: nat, d: nat) -> nat {
    if (m % d) * 2 > d || ((m % d) * 2 == d && (m / d) % 2 == 1) {
        (m / d + 1) * d
    } else {
        (m / d) * d
    }
}

/// The integer that the conversion to single precision keeps of `m`: `m`
/// itself up to 24 bits, and beyond the nearest multiple of the power of
/// two that leaves 24 bits.
pub open spec fn kept32(m: nat) -> nat {
    if floor_log2(m) <= 23 {
        m
    } else {
        nearest_even(m, pow2((floor_log2(m) - 23) as nat))
    }
}

/// The integer that the conversion to double precision keeps of `m`: `m`
/// itself up to 53 bits, and beyond the nearest multiple of the power of
/// two that leaves 53 bits.
pub open spec fn kept64(m: nat) -> nat {
    if floor_log2(m) <= 52 {
        m
    } else {
        nearest_even(m, pow2((floor_log2(m) - 52) as nat))
    }
}

/// The place of a double-precision pattern that is a number among all of
/// them: the pattern without its sign, negated where the sign is set.
/// Numbers compare as these integers do, and the two zeros share a place.
pub open spec fn binary64_key(b: u64) -> int {
    if b >= SIGN64 {
        -(b - SIGN64)
    } else {
        b as int
    }
}

/// The order of two double-precision patterns: that of the numbers, with
/// every NaN equal to every NaN and below all numbers.
pub open spec fn binary64_rank(a: u64, b: u64) -> Rank {
    if binary64_is_nan(a) {
        if binary64_is_nan(b) {
            Rank::Equal
        } else {
            Rank::Less
        }
    } else if binary64_is_nan(b) {
        Rank::Greater
    } else {
        int_rank(binary64_key(a), binary64_key(b))
    }
}

/// The highest set bit of `m` lies at `floor_log2(m)`.
pub proof fn lemma_floor_log2_bounds(m: nat)
    requires
        m > 0,
    ensures
        pow2(floor_log2(m)) <= m < 2 * pow2(floor_log2(m)),
    decreases m,
{
    lemma2_to64();
    if m > 1 {
        lemma_floor_log2_bounds(m / 2);
        lemma_pow2_unfold(floor_log2(m));
    }
}

/// A power of two at or below `m` whose double lies above is the highest
/// set bit of `m`.
pub proof fn lemma_floor_log2_unique(m: nat, p: nat)
    requires
        pow2(p) <= m < 2 * pow2(p),
    ensures
        floor_log2(m) == p,
    decreases p,
{
    lemma2_to64();
    if p == 0 {
    } else {
        lemma_pow2_unfold(p);
        lemma_floor_log2_unique(m / 2, (p - 1) as nat);
    }
}

/// The position of the highest set bit of `m`, and its weight.
pub fn leading(m: u64) -> (r: (u32, u64))
    requires
        m > 0,
    ensures
        r.0 == floor_log2(m as nat),
        r.1 == pow2(r.0 as nat),
        r.0 <= 63,
        r.1 <= m,
{
    let mut p: u32 = 0;
    let mut top: u64 = 1;
    proof {
        lemma2_to64();
    }
    while top <= m / 2
        invariant
            top == pow2(p as nat),
            1 <= top <= m,
            p <= 63,
        decreases m - top,
    {
        proof {
            lemma_pow2_unfold((p + 1) as nat);
            if p == 63 {
                lemma2_to64();
            }
        }
        top = top * 2;
        p = p + 1;
    }
    proof {
        lemma_floor_log2_unique(m as nat, p as nat);
    }
    (p, top)
}

/// The pattern, without a sign, of the number nearest to `m` in the single-
/// (`frac_bits` 23) or the double-precision format (52).
pub fn binary_of_integer(m: u64, frac_bits: u32, bias: u64) -> (r: u64)
    requires
        frac_bits == 23 || frac_bits == 52,
        bias <= 1023,
        frac_bits == 23 ==> m <= u32::MAX && bias <= 127,
    ensures
        r == binary_from_nat(m as nat, frac_bits as nat, bias as nat),
        r < SIGN64,
        frac_bits == 23 ==> r <= u32::MAX,
{
    if m == 0 {
        return 0;
    }
    let (p, top) = leading(m);
    let unit: u64 = if frac_bits == 23 {
        UNIT32
    } else {
        UNIT64
    };
    proof {
        lemma2_to64();
        lemma2_to64_rest();
        lemma_floor_log2_bounds(m as nat);
        if frac_bits == 23 && p >= 32 {
            lemma_pow2_strictly_increases(31, p as nat);
        }
    }
    assert((bias + p) * unit <= 1086 * unit) by (nonlinear_arith)
        requires
            bias + p <= 1086,
            unit >= 0,
    ;
    if p <= frac_bits {
        let scale = unit / top;
        proof {
            vstd::arithmetic::power2::lemma_pow2_subtracts(p as nat, frac_bits as nat);
            lemma_pow2_adds(p as nat, (frac_bits - p) as nat);
            assert((m - top) * scale < top * scale) by (nonlinear_arith)
                requires
                    m - top < top,
                    scale > 0,
            ;
        }
        (bias + p as u64) * unit + (m - top) * scale
    } else {
        let d = top / unit;
        proof {
            vstd::arithmetic::power2::lemma_pow2_subtracts(frac_bits as nat, p as nat);
        }
        let q = m / d;
        let rem = m % d;
        assert(unit <= q < 2 * unit) by (nonlinear_arith)
            requires
                m == d * q + rem,
                0 <= rem < d,
                unit * d == top,
                top <= m < 2 * top,
                d > 0,
        ;
        let up: u64 = if rem > d - rem || (rem == d - rem && q % 2 == 1) {
            1
        } else {
            0
        };
        (bias + p as u64) * unit + (q - unit) + up
    }
}

/// The double-precision pattern of the number nearest to an integer given
/// by sign and magnitude.
pub fn binary64_of_integer(negative: bool, m: u64) -> (r: u64)
    ensures
        r == binary64_from_integer(negative, m),
{
    let body = binary_of_integer(m, 52, 1023);
    if negative && m != 0 {
        body + SIGN64
    } else {
        body
    }
}

/// The single-precision pattern of the number nearest to a non-negative
/// integer.
pub fn binary32_of_integer(m: u32) -> (r: u32)
    ensures
        r == binary32_from_integer(m),
{
    binary_of_integer(m as u64, 23, 127) as u32
}

/// The double-precision pattern of the number that a single-precision
/// pattern stands for.
pub fn binary64_of_binary32(b: u32) -> (r: u64)
    ensures
        r == binary64_from_binary32(b),
{
    let wide = b as u64;
    let e = (wide / 0x80_0000) % 256;
    let f = wide % 0x80_0000;
    let sign = (wide / 0x8000_0000) * SIGN64;
    let body = if e == 255 {
        2047 * UNIT64 + f * 0x2000_0000
    } else if e == 0 {
        binary_of_integer(f, 52, 874)
    } else {
        (e + 896) * UNIT64 + f * 0x2000_0000
    };
    sign + body
}

/// Whether a double-precision pattern is not a number.
pub fn binary64_nan(b: u64) -> (r: bool)
    ensures
        r == binary64_is_nan(b),
{
    (b / UNIT64) % 2048 == 2047 && b % UNIT64 != 0
}

/// The order of two double-precision patterns.
pub fn binary64_order(a: u64, b: u64) -> (r: Rank)
    ensures
        r == binary64_rank(a, b),
{
    if binary64_nan(a) {
        if binary64_nan(b) {
            Rank::Equal
        } else {
            Rank::Less
        }
    } else if binary64_nan(b) {
        Rank::Greater
    } else {
        let na = a >= SIGN64;
        let nb = b >= SIGN64;
        let ma = if na {
            a - SIGN64
        } else {
            a
        };
        let mb = if nb {
            b - SIGN64
        } else {
            b
        };
        if na && nb {
            order_u64(mb, ma)
        } else if na {
            if ma == 0 && mb == 0 {
                Rank::Equal
            } else {
                Rank::Less
            }
        } else if nb {
            if ma == 0 && mb == 0 {
                Rank::Equal
            } else {
                Rank::Greater
            }
        } else {
            order_u64(ma, mb)
        }
    }
}

/// The order of two numbers.
pub fn order_u64(a: u64, b: u64) -> (r: Rank)
    ensures
        r == int_rank(a as int, b as int),
{
    if a < b {
        Rank::Less
    } else if a == b {
        Rank::Equal
    } else {
        Rank::Greater
    }
}

/// Among the patterns without a sign, a greater pattern stands for a
/// greater number.
pub proof fn lemma_magnitude_increases(x: u64, y: u64)
    requires
        x < y < SIGN64,
    ensures
        binary64_magnitude(x) < binary64_magnitude(y),
{
    let ex = exponent64(x);
    let ey = exponent64(y);
    let fx = fraction64(x);
    let fy = fraction64(y);
    assert(ex <= ey) by (nonlinear_arith)
        requires
            x == UNIT64 * ex + fx,
            y == UNIT64 * ey + fy,
            x < y,
            fx < UNIT64,
            fy < UNIT64,
    ;
    if ex == ey {
        if ex > 0 {
            let p = pow2((ex - 1) as nat);
            lemma_pow2_pos((ex - 1) as nat);
            assert((UNIT64 + fx) * p < (UNIT64 + fy) * p) by (nonlinear_arith)
                requires
                    fx < fy,
                    p > 0,
            ;
        }
    } else {
        let py = pow2((ey - 1) as nat);
        lemma_pow2_pos((ey - 1) as nat);
        assert(UNIT64 * py <= (UNIT64 + fy) * py) by (nonlinear_arith)
            requires
                py > 0,
                fy >= 0,
        ;
        if ex == 0 {
            assert(UNIT64 * 1 <= UNIT64 * py) by (nonlinear_arith)
                requires
                    py >= 1,
            ;
        } else {
            let px = pow2((ex - 1) as nat);
            lemma_pow2_pos((ex - 1) as nat);
            lemma_pow2_unfold(ex);
            if ex < ey - 1 {
                lemma_pow2_strictly_increases(ex, (ey - 1) as nat);
            }
            assert((UNIT64 + fx) * px < UNIT64 * (2 * px)) by (nonlinear_arith)
                requires
                    fx < UNIT64,
                    px > 0,
            ;
            assert(UNIT64 * pow2(ex) <= UNIT64 * py) by (nonlinear_arith)
                requires
                    pow2(ex) <= py,
            ;
        }
    }
}

/// The order of double-precision patterns is that of the numbers: two
/// patterns that are numbers compare as the numbers they stand for.
pub proof fn law_binary64_order(a: u64, b: u64)
    requires
        !binary64_is_nan(a),
        !binary64_is_nan(b),
    ensures
        binary64_rank(a, b) == int_rank(binary64_value(a), binary64_value(b)),
{
    let ma = if a >= SIGN64 {
        (a - SIGN64) as u64
    } else {
        a
    };
    let mb = if b >= SIGN64 {
        (b - SIGN64) as u64
    } else {
        b
    };
    if ma < mb {
        lemma_magnitude_increases(ma, mb);
    } else if mb < ma {
        lemma_magnitude_increases(mb, ma);
    }
    if ma > 0 {
        lemma_magnitude_increases(0, ma);
    }
}

/// Widening keeps the number: the double-precision pattern of a single-
/// precision number stands for the same number, with the same sign.  The
/// units of the two magnitudes differ by `2^925`.
pub proof fn law_widening(b: u32)
    requires
        (b as nat / 0x80_0000) % 256 != 255,
    ensures
        0 <= binary64_from_binary32(b) <= u64::MAX,
        binary64_magnitude(binary64_from_binary32(b) as u64) == binary32_magnitude(b) * pow2(925),
        (binary64_from_binary32(b) >= SIGN64) == (b >= 0x8000_0000),
        !binary64_is_nan(binary64_from_binary32(b) as u64),
{
    lemma2_to64();
    lemma2_to64_rest();
    let e = ((b as nat / 0x80_0000) % 256) as nat;
    let f = (b as nat % 0x80_0000) as nat;
    if e == 0 {
        if f == 0 {
            assert(0 * pow2(925) == 0);
        } else {
            let p = floor_log2(f);
            lemma_floor_log2_bounds(f);
            if p > 23 {
                lemma_pow2_strictly_increases(23, p);
            }
            let scale = pow2((52 - p) as nat);
            let top = pow2(p);
            lemma_pow2_adds(p, (52 - p) as nat);
            let frac = ((f - top) * scale) as nat;
            assert(frac < UNIT64 && UNIT64 + frac == f * scale) by (nonlinear_arith)
                requires
                    frac == (f - top) * scale,
                    top * scale == UNIT64,
                    top <= f < 2 * top,
                    scale > 0,
            ;
            lemma_pow2_adds((52 - p) as nat, 873 + p);
            assert((f * scale) * pow2(873 + p) == f * (scale * pow2(873 + p))) by (nonlinear_arith);
        }
    } else {
        let frac = f * 0x2000_0000;
        lemma_pow2_adds(29, e + 895);
        lemma_pow2_adds((e - 1) as nat, 925);
        let q = pow2((e - 1) as nat);
        assert((UNIT64 + frac) * pow2(e + 895) == ((0x80_0000 + f) * q) * pow2(925))
            by (nonlinear_arith)
            requires
                frac == f * 0x2000_0000,
                UNIT64 == 0x80_0000 * 0x2000_0000,
                pow2(29) == 0x2000_0000,
                pow2(29) * pow2(e + 895) == q * pow2(925),
        ;
    }
}

/// Widening keeps what is not a finite number: an infinity stays an
/// infinity of the same sign, and a NaN stays a NaN.
pub proof fn law_widening_special(b: u32)
    requires
        (b as nat / 0x80_0000) % 256 == 255,
    ensures
        0 <= binary64_from_binary32(b) <= u64::MAX,
        exponent64(binary64_from_binary32(b) as u64) == 2047,
        binary64_is_nan(binary64_from_binary32(b) as u64) == (b as nat % 0x80_0000 != 0),
        (binary64_from_binary32(b) >= SIGN64) == (b >= 0x8000_0000),
{
}

/// What rounding to a multiple keeps is as near as a multiple can be: it
/// differs by at most half the step, and by just half only where the
/// multiple is an even one.
pub proof fn law_nearest_even(m: nat, d: nat)
    requires
        d > 0,
    ensures
        nearest_even(m, d) % d == 0,
        2 * vstd::math::abs(nearest_even(m, d) - m) <= d,
        2 * vstd::math::abs(nearest_even(m, d) - m) == d ==> (nearest_even(m, d) / d) % 2 == 0,
{
    let q = m / d;
    let r = m % d;
    vstd::arithmetic::div_mod::lemma_fundamental_div_mod(m as int, d as int);
    if (m % d) * 2 > d || ((m % d) * 2 == d && (m / d) % 2 == 1) {
        vstd::arithmetic::div_mod::lemma_fundamental_div_mod_converse(
            ((q + 1) * d) as int,
            d as int,
            (q + 1) as int,
            0,
        );
        assert((q + 1) * d - m == d - r) by (nonlinear_arith)
            requires
                m == d * q + r,
        ;
    } else {
        vstd::arithmetic::div_mod::lemma_fundamental_div_mod_converse(
            (q * d) as int,
            d as int,
            q as int,
            0,
        );
        assert(q * d - m == -r) by (nonlinear_arith)
            requires
                m == d * q + r,
        ;
    }
}

/// Conversion keeps the nearest number: the double-precision pattern of an
/// integer stands for the integer itself up to 53 bits, and beyond for the
/// nearest integer that 53 bits can hold, which at a tie is the even one.
pub proof fn law_conversion(m: u64)
    ensures
        0 <= binary_from_nat(m as nat, 52, 1023) < SIGN64,
        binary64_magnitude(binary_from_nat(m as nat, 52, 1023) as u64) == kept64(m as nat) * pow2(
            1074,
        ),
        !binary64_is_nan(binary_from_nat(m as nat, 52, 1023) as u64),
{
    lemma2_to64();
    lemma2_to64_rest();
    if m == 0 {
        assert(0 * pow2(1074) == 0);
    } else {
        let p = floor_log2(m as nat);
        lemma_floor_log2_bounds(m as nat);
        if p > 64 {
            lemma_pow2_strictly_increases(64, p);
        }
        let top = pow2(p);
        if p <= 52 {
            let scale = pow2((52 - p) as nat);
            lemma_pow2_adds(p, (52 - p) as nat);
            let frac = ((m - top) * scale) as nat;
            assert(frac < UNIT64 && UNIT64 + frac == m * scale) by (nonlinear_arith)
                requires
                    frac == (m - top) * scale,
                    top * scale == UNIT64,
                    top <= m < 2 * top,
                    scale > 0,
            ;
            lemma_pow2_adds((52 - p) as nat, 1022 + p);
            assert((m * scale) * pow2(1022 + p) == m * (scale * pow2(1022 + p)))
                by (nonlinear_arith);
        } else {
            let k = (p - 52) as nat;
            let d = pow2(k);
            let q = m as nat / d;
            let r = m as nat % d;
            vstd::arithmetic::div_mod::lemma_fundamental_div_mod(m as int, d as int);
            assert(UNIT64 <= q < 2 * UNIT64) by (nonlinear_arith)
                requires
                    m == d * q + r,
                    0 <= r < d,
                    UNIT64 * d == top,
                    top <= m < 2 * top,
                    d > 0,
            ;
            let up: nat = if r * 2 > d || (r * 2 == d && q % 2 == 1) {
                1
            } else {
                0
            };
            let kept = q + up;
            lemma_pow2_adds(k, 1074);
            lemma_pow2_adds(52, 1023 + p);
            lemma_pow2_adds(53, 1022 + p);
            if kept == 2 * UNIT64 {
                assert((UNIT64 + 0) * pow2(1023 + p) == (kept * d) * pow2(1074)) by (nonlinear_arith)
                    requires
                        kept == 2 * UNIT64,
                        UNIT64 == pow2(52),
                        pow2(53) == 2 * pow2(52),
                        pow2(52) * pow2(1023 + p) == pow2(53) * pow2(1022 + p),
                        d * pow2(1074) == pow2(1022 + p),
                ;
            } else {
                let frac = (kept - UNIT64) as nat;
                assert((UNIT64 + frac) * pow2(1022 + p) == (kept * d) * pow2(1074))
                    by (nonlinear_arith)
                    requires
                        UNIT64 + frac == kept,
                        d * pow2(1074) == pow2(1022 + p),
                ;
            }
        }
    }
}

/// Conversion to single precision keeps the nearest number: the pattern
/// of an integer of up to 32 bits stands for the integer itself up to 24
/// bits, and beyond for the nearest integer that 24 bits can hold, which
/// at a tie is the even one.
pub proof fn law_conversion32(m: u32)
    ensures
        0 <= binary32_from_integer(m) <= u32::MAX,
        binary32_magnitude(binary32_from_integer(m) as u32) == kept32(m as nat) * pow2(149),
{
    lemma2_to64();
    if m == 0 {
        assert(0 * pow2(149) == 0);
    } else {
        let p = floor_log2(m as nat);
        lemma_floor_log2_bounds(m as nat);
        if p > 32 {
            lemma_pow2_strictly_increases(32, p);
        }
        let top = pow2(p);
        if p <= 23 {
            let scale = pow2((23 - p) as nat);
            lemma_pow2_adds(p, (23 - p) as nat);
            let frac = ((m - top) * scale) as nat;
            assert(frac < UNIT32 && UNIT32 + frac == m * scale) by (nonlinear_arith)
                requires
                    frac == (m - top) * scale,
                    top * scale == UNIT32,
                    top <= m < 2 * top,
                    scale > 0,
            ;
            lemma_pow2_adds((23 - p) as nat, 126 + p);
            assert((m * scale) * pow2(126 + p) == m * (scale * pow2(126 + p))) by (nonlinear_arith);
        } else {
            let k = (p - 23) as nat;
            let d = pow2(k);
            let q = m as nat / d;
            let r = m as nat % d;
            vstd::arithmetic::div_mod::lemma_fundamental_div_mod(m as int, d as int);
            assert(UNIT32 <= q < 2 * UNIT32) by (nonlinear_arith)
                requires
                    m == d * q + r,
                    0 <= r < d,
                    UNIT32 * d == top,
                    top <= m < 2 * top,
                    d > 0,
            ;
            let up: nat = if r * 2 > d || (r * 2 == d && q % 2 == 1) {
                1
            } else {
                0
            };
            let kept = q + up;
            lemma_pow2_adds(k, 149);
            lemma_pow2_adds(23, 127 + p);
            lemma_pow2_adds(24, 126 + p);
            if kept == 2 * UNIT32 {
                assert((UNIT32 + 0) * pow2(127 + p) == (kept * d) * pow2(149)) by (nonlinear_arith)
                    requires
                        kept == 2 * UNIT32,
                        UNIT32 == pow2(23),
                        pow2(24) == 2 * pow2(23),
                        pow2(23) * pow2(127 + p) == pow2(24) * pow2(126 + p),
                        d * pow2(149) == pow2(126 + p),
                ;
            } else {
                let frac = (kept - UNIT32) as nat;
                assert((UNIT32 + frac) * pow2(126 + p) == (kept * d) * pow2(149))
                    by (nonlinear_arith)
                    requires
                        UNIT32 + frac == kept,
                        d * pow2(149) == pow2(126 + p),
                ;
            }
        }
    }
}

} // verus!
