//! Integers as the wire holds them: a sign and a magnitude.

use vstd::prelude::*;

verus! {

/// An integer of up to 128 bits of magnitude, positive or negative.
///
/// Every integer tag decodes to one of these, whatever width it was written
/// at; the typed reads then cut it down to the width they return.
#[derive(Clone, Copy, Debug, PartialEq, Eq, Structural)]
pub struct Integer {
    /// Whether the value is the negated magnitude.
    pub negative: bool,
    /// The absolute value.
    pub magnitude: u128,
}

/// `2^8`, the number of values of 8 bits.
pub const TWO_8: u128 = 0x100;

/// `2^16`.
pub const TWO_16: u128 = 0x1_0000;

/// `2^32`.
pub const TWO_32: u128 = 0x1_0000_0000;

/// `2^64`.
pub const TWO_64: u128 = 0x1_0000_0000_0000_0000;

/// `2^128`, one more than a `u128` holds.
pub open spec fn two_128() -> int {
    0x1_0000_0000_0000_0000_0000_0000_0000_0000int
}

/// The residue of `v` modulo `m`, and with `signed` the one that lies in
/// the lower half of `m` or represents a negative number: what a cast to a
/// narrower two's complement type keeps.
pub open spec fn wrap(v: int, m: int, signed: bool) -> int {
    if signed && v % m >= m / 2 {
        v % m - m
    } else {
        v % m
    }
}

/// The negation of a number has the complementary residue.
pub proof fn lemma_residue_of_negation(a: int, m: int)
    requires
        0 <= a,
        0 < m,
    ensures
        (-a) % m == (if a % m == 0 {
            0
        } else {
            m - a % m
        }),
{
    let q = a / m;
    let r = a % m;
    vstd::arithmetic::div_mod::lemma_fundamental_div_mod(a, m);
    if r == 0 {
        assert(-a == m * (-q) + 0) by (nonlinear_arith)
            requires
                a == m * q + r,
                r == 0,
        ;
        vstd::arithmetic::div_mod::lemma_fundamental_div_mod_converse(-a, m, -q, 0);
    } else {
        assert(-a == m * (-q - 1) + (m - r)) by (nonlinear_arith)
            requires
                a == m * q + r,
        ;
        vstd::arithmetic::div_mod::lemma_fundamental_div_mod_converse(-a, m, -q - 1, m - r);
    }
}

impl Integer {
    /// The integer that the sign and the magnitude stand for.
    pub open spec fn value(&self) -> int {
        if self.negative {
            -(self.magnitude as int)
        } else {
            self.magnitude as int
        }
    }

    /// The residue of the value modulo `m`, for `m` a power of two of at
    /// most `2^64`.
    fn residue(&self, m: u128) -> (r: u128)
        requires
            0 < m <= TWO_64,
        ensures
            r == self.value() % (m as int),
            r < m,
    {
        let low = self.magnitude % m;
        proof {
            lemma_residue_of_negation(self.magnitude as int, m as int);
        }
        if !self.negative || low == 0 {
            low
        } else {
            m - low
        }
    }

    /// The value cut down to 8 bits.
    pub fn to_u8(&self) -> (r: u8)
        ensures
            r == wrap(self.value(), 0x100, false),
    {
        self.residue(TWO_8) as u8
    }

    /// The value cut down to 16 bits.
    pub fn to_u16(&self) -> (r: u16)
        ensures
            r == wrap(self.value(), 0x1_0000, false),
    {
        self.residue(TWO_16) as u16
    }

    /// The value cut down to 32 bits.
    pub fn to_u32(&self) -> (r: u32)
        ensures
            r == wrap(self.value(), 0x1_0000_0000, false),
    {
        self.residue(TWO_32) as u32
    }

    /// The value cut down to 64 bits.
    pub fn to_u64(&self) -> (r: u64)
        ensures
            r == wrap(self.value(), 0x1_0000_0000_0000_0000, false),
    {
        self.residue(TWO_64) as u64
    }

    /// The value cut down to the width of `usize`.
    pub fn to_usize(&self) -> (r: usize)
        ensures
            r == wrap(self.value(), usize::MAX + 1, false),
    {
        let wide = self.residue(TWO_64);
        proof {
            lemma_residue_of_residue(self.value(), TWO_64 as int, usize::MAX + 1);
        }
        if wide <= usize::MAX as u128 {
            wide as usize
        } else {
            let m = usize::MAX as u128 + 1;
            (wide % m) as usize
        }
    }

    /// The value cut down to 128 bits.
    pub fn to_u128(&self) -> (r: u128)
        ensures
            r == wrap(self.value(), two_128(), false),
    {
        if !self.negative || self.magnitude == 0 {
            self.magnitude
        } else {
            (u128::MAX - self.magnitude) + 1
        }
    }

    /// The value cut down to 8 bits, read as two's complement.
    pub fn to_i8(&self) -> (r: i8)
        ensures
            r == wrap(self.value(), 0x100, true),
    {
        let low = self.residue(TWO_8) as i16;
        if low >= 0x80 {
            (low - 0x100) as i8
        } else {
            low as i8
        }
    }

    /// The value cut down to 16 bits, read as two's complement.
    pub fn to_i16(&self) -> (r: i16)
        ensures
            r == wrap(self.value(), 0x1_0000, true),
    {
        let low = self.residue(TWO_16) as i32;
        if low >= 0x8000 {
            (low - 0x1_0000) as i16
        } else {
            low as i16
        }
    }

    /// The value cut down to 32 bits, read as two's complement.
    pub fn to_i32(&self) -> (r: i32)
        ensures
            r == wrap(self.value(), 0x1_0000_0000, true),
    {
        let low = self.residue(TWO_32) as i64;
        if low >= 0x8000_0000 {
            (low - 0x1_0000_0000) as i32
        } else {
            low as i32
        }
    }

    /// The value cut down to 64 bits, read as two's complement.
    pub fn to_i64(&self) -> (r: i64)
        ensures
            r == wrap(self.value(), 0x1_0000_0000_0000_0000, true),
    {
        let low = self.residue(TWO_64) as i128;
        if low >= 0x8000_0000_0000_0000 {
            (low - 0x1_0000_0000_0000_0000) as i64
        } else {
            low as i64
        }
    }

    /// The value cut down to the width of `isize`, read as two's
    /// complement.
    pub fn to_isize(&self) -> (r: isize)
        ensures
            r == wrap(self.value(), usize::MAX + 1, true),
    {
        let low = self.to_usize();
        assert(usize::MAX == 2 * isize::MAX + 1 && isize::MIN == -isize::MAX - 1);
        if low > isize::MAX as usize {
            (low - isize::MAX as usize - 1) as isize + isize::MIN
        } else {
            low as isize
        }
    }

    /// The value cut down to 128 bits, read as two's complement.
    pub fn to_i128(&self) -> (r: i128)
        ensures
            r == wrap(self.value(), two_128(), true),
    {
        let low = self.to_u128();
        if low >= 0x8000_0000_0000_0000_0000_0000_0000_0000 {
            (low - 0x8000_0000_0000_0000_0000_0000_0000_0000) as i128 + i128::MIN
        } else {
            low as i128
        }
    }
}

/// Cutting down to a width and then to a narrower one is cutting down to
/// the narrower one.
pub proof fn lemma_residue_of_residue(v: int, wide: int, narrow: int)
    requires
        0 < narrow,
        0 < wide,
        wide % narrow == 0,
    ensures
        (v % wide) % narrow == v % narrow,
{
    let k = wide / narrow;
    vstd::arithmetic::div_mod::lemma_fundamental_div_mod(wide, narrow);
    vstd::arithmetic::div_mod::lemma_fundamental_div_mod(v, wide);
    let q = v / wide;
    let r = v % wide;
    vstd::arithmetic::div_mod::lemma_fundamental_div_mod(r, narrow);
    let q2 = r / narrow;
    let r2 = r % narrow;
    assert(v == narrow * (k * q + q2) + r2) by (nonlinear_arith)
        requires
            v == wide * q + r,
            wide == narrow * k,
            r == narrow * q2 + r2,
    ;
    vstd::arithmetic::div_mod::lemma_fundamental_div_mod_converse(v, narrow, k * q + q2, r2);
}

} // verus!
