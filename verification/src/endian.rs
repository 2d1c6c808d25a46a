//! Little-endian byte strings as natural numbers.
//!
//! Every multi-byte field of the wire format is little-endian.  The two
//! functions [`le_value`] and [`le_bytes`] give that layout a mathematical
//! meaning, and the lemmas below show that what is written is read back.

use vstd::prelude::*;

verus! {

/// `256^n`, the number of distinct byte strings of length `n`.
pub open spec fn radix(n: nat) -> nat
    decreases n,
{
    if n == 0 {
        1
    } else {
        256 * radix((n - 1) as nat)
    }
}

/// The number that the bytes of `s` spell, least significant byte first.
pub open spec fn le_value(s: Seq<u8>) -> nat
    decreases s.len(),
{
    if s.len() == 0 {
        0
    } else {
        s[0] as nat + 256 * le_value(s.skip(1))
    }
}

/// The `n` low-order bytes of `v`, least significant byte first.
pub open spec fn le_bytes(v: nat, n: nat) -> Seq<u8>
    decreases n,
{
    if n == 0 {
        Seq::<u8>::empty()
    } else {
        seq![(v % 256) as u8] + le_bytes(v / 256, (n - 1) as nat)
    }
}

/// The values of `256^n` for the widths of the format.
pub proof fn lemma_radix_values()
    ensures
        radix(0) == 1,
        radix(1) == 0x100,
        radix(2) == 0x1_0000,
        radix(4) == 0x1_0000_0000,
        radix(6) == 0x1_0000_0000_0000,
        radix(8) == 0x1_0000_0000_0000_0000,
        radix(16) == 0x1_0000_0000_0000_0000_0000_0000_0000_0000,
        radix(32) == 0x1_0000_0000_0000_0000_0000_0000_0000_0000 * 0x1_0000_0000_0000_0000_0000_0000_0000_0000,
{
    assert(radix(1) == 256 * radix(0));
    assert(radix(3) == 256 * radix(2));
    assert(radix(5) == 256 * radix(4));
    assert(radix(7) == 256 * radix(6));
    lemma_radix_add(8, 8);
    lemma_radix_add(16, 16);
    let r8 = radix(8);
    assert(r8 * r8 == 0x1_0000_0000_0000_0000_0000_0000_0000_0000) by (nonlinear_arith)
        requires
            r8 == 0x1_0000_0000_0000_0000,
    ;
}

/// `256^n` is not zero.
pub proof fn lemma_radix_positive(n: nat)
    ensures
        radix(n) > 0,
    decreases n,
{
    if n > 0 {
        lemma_radix_positive((n - 1) as nat);
    }
}

/// `256^(a + b)` is `256^a * 256^b`.
pub proof fn lemma_radix_add(a: nat, b: nat)
    ensures
        radix(a + b) == radix(a) * radix(b),
    decreases a,
{
    if a == 0 {
        assert(radix(0 + b) == 1 * radix(b));
    } else {
        lemma_radix_add((a - 1) as nat, b);
        assert(256 * (radix((a - 1) as nat) * radix(b)) == (256 * radix((a - 1) as nat)) * radix(b))
            by (nonlinear_arith);
    }
}

/// A number written at `n` bytes takes `n` bytes.
pub proof fn lemma_le_bytes_len(v: nat, n: nat)
    ensures
        le_bytes(v, n).len() == n,
    decreases n,
{
    if n > 0 {
        lemma_le_bytes_len(v / 256, (n - 1) as nat);
    }
}

/// A byte string of length `n` spells a number below `256^n`.
pub proof fn lemma_le_value_bound(s: Seq<u8>)
    ensures
        le_value(s) < radix(s.len()),
    decreases s.len(),
{
    if s.len() > 0 {
        lemma_le_value_bound(s.skip(1));
    }
}

/// Writing a number that fits into `n` bytes and reading it back gives the
/// number again.
pub proof fn lemma_le_value_of_bytes(v: nat, n: nat)
    requires
        v < radix(n),
    ensures
        le_value(le_bytes(v, n)) == v,
    decreases n,
{
    if n > 0 {
        let rest = le_bytes(v / 256, (n - 1) as nat);
        let s = le_bytes(v, n);
        assert(s.skip(1) =~= rest);
        lemma_le_value_of_bytes(v / 256, (n - 1) as nat);
    }
}

/// The value of a concatenation: the second part counts from `256^|a|`.
pub proof fn lemma_le_value_concat(a: Seq<u8>, b: Seq<u8>)
    ensures
        le_value(a + b) == le_value(a) + radix(a.len()) * le_value(b),
    decreases a.len(),
{
    let vb = le_value(b);
    if a.len() == 0 {
        assert(1 * vb == vb);
    } else {
        let ab = a + b;
        assert(ab.skip(1) =~= a.skip(1) + b);
        lemma_le_value_concat(a.skip(1), b);
        let r = radix((a.len() - 1) as nat);
        assert(256 * (r * vb) == (256 * r) * vb) by (nonlinear_arith);
    }
}

/// Writing `a + b` bytes is writing the low `a` bytes and then the rest.
pub proof fn lemma_le_bytes_split(v: nat, a: nat, b: nat)
    ensures
        le_bytes(v, a + b) == le_bytes(v % radix(a), a) + le_bytes(v / radix(a), b),
    decreases a,
{
    if a == 0 {
    } else {
        let a1 = (a - 1) as nat;
        let r = radix(a1);
        lemma_radix_positive(a1);
        lemma_le_bytes_split(v / 256, a1, b);
        // the low digit and the shifted quotient, through the radix 256 * r
        assert((v % (256 * r)) % 256 == v % 256 && (v % (256 * r)) / 256 == (v / 256) % r && v / (256
            * r) == (v / 256) / r) by {
            lemma_split_digit(v, r);
        }
    }
}

proof fn lemma_split_digit(v: nat, r: nat)
    requires
        r > 0,
    ensures
        (v % (256 * r)) % 256 == v % 256,
        (v % (256 * r)) / 256 == (v / 256) % r,
        v / (256 * r) == (v / 256) / r,
{
    let q = v / 256;
    let d = v % 256;
    let hi = q / r;
    let lo = q % r;
    vstd::arithmetic::div_mod::lemma_fundamental_div_mod(q as int, r as int);
    let m = 256 * lo + d;
    assert(0 <= m < 256 * r) by (nonlinear_arith)
        requires
            0 <= lo < r,
            0 <= d < 256,
            m == 256 * lo + d,
    ;
    assert(v == (256 * r) * hi + m) by (nonlinear_arith)
        requires
            v == 256 * q + d,
            q == r * hi + lo,
            m == 256 * lo + d,
    ;
    vstd::arithmetic::div_mod::lemma_fundamental_div_mod_converse(
        v as int,
        (256 * r) as int,
        hi as int,
        m as int,
    );
}

} // verus!
