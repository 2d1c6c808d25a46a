//! The calls into the `bytes` and `num-bigint` crates and into the parts of
//! the standard library that have no specification of their own.
//!
//! Nothing in this file is proved.  Each function states what the called
//! code is documented to do, and the rest of the library is verified
//! against these statements.

use crate::endian::le_bytes;
use crate::endian::le_value;
use crate::rank::int_rank;
use crate::rank::lex_rank;
use crate::rank::rank_of;
use bytes::Buf;
use bytes::BufMut;
use std::cmp::Ordering;
use vstd::prelude::*;
use vstd::utf8::decode_utf8;
use vstd::utf8::valid_utf8;

verus! {

/// `bytes::Bytes`, an immutable run of bytes.
#[verifier::external_type_specification]
#[verifier::external_body]
pub struct ExBytes(bytes::Bytes);

/// `num_bigint::BigInt`, an integer of arbitrary size.
#[verifier::external_type_specification]
#[verifier::external_body]
pub struct ExBigInt(num_bigint::BigInt);

/// The bytes that a `bytes::Bytes` holds, in order.
pub uninterp spec fn bytes_contents(b: bytes::Bytes) -> Seq<u8>;

/// The integer that a `num_bigint::BigInt` holds.
pub uninterp spec fn bigint_value(b: num_bigint::BigInt) -> int;

/// What `String::from_utf8_lossy` makes of a byte string: the text it
/// encodes, with U+FFFD in place of each malformed sequence.
pub uninterp spec fn lossy_text(bytes: Seq<u8>) -> Seq<char>;

/// The decimal digits of `n`, most significant first, without leading zeros.
pub open spec fn decimal(n: nat) -> Seq<char>
    decreases n,
{
    if n < 10 {
        seq![(('0' as u8) + n as u8) as char]
    } else {
        decimal(n / 10).push((('0' as u8) + (n % 10) as u8) as char)
    }
}

/// `Buf::chunk` on a byte slice: the bytes that are left, all of them.
#[verifier::external_body]
pub(crate) fn chunk<'a>(b: &'a &'a [u8]) -> (r: &'a [u8])
    ensures
        r@ == b@,
{
    Buf::chunk(b)
}

/// `Buf::advance` on a byte slice: drops the first `n` bytes.  It panics
/// when fewer are left, which the precondition rules out.
#[verifier::external_body]
pub(crate) fn advance(b: &mut &[u8], n: usize)
    requires
        n <= old(b)@.len(),
    ensures
        final(b)@ == old(b)@.skip(n as int),
{
    b.advance(n)
}

/// `Buf::get_u8` on a byte slice: takes the first byte off.
#[verifier::external_body]
pub(crate) fn get_u8(b: &mut &[u8]) -> (r: u8)
    requires
        1 <= old(b)@.len(),
    ensures
        r == old(b)@[0],
        final(b)@ == old(b)@.skip(1),
{
    b.get_u8()
}

/// `Buf::get_u16_le` on a byte slice: takes two bytes off and reads them
/// as a little-endian number.
#[verifier::external_body]
pub(crate) fn get_u16_le(b: &mut &[u8]) -> (r: u16)
    requires
        2 <= old(b)@.len(),
    ensures
        r as nat == le_value(old(b)@.take(2)),
        final(b)@ == old(b)@.skip(2),
{
    b.get_u16_le()
}

/// `Buf::get_u32_le` on a byte slice: takes four bytes off and reads them
/// as a little-endian number.
#[verifier::external_body]
pub(crate) fn get_u32_le(b: &mut &[u8]) -> (r: u32)
    requires
        4 <= old(b)@.len(),
    ensures
        r as nat == le_value(old(b)@.take(4)),
        final(b)@ == old(b)@.skip(4),
{
    b.get_u32_le()
}

/// `Buf::get_u64_le` on a byte slice: takes eight bytes off and reads them
/// as a little-endian number.
#[verifier::external_body]
pub(crate) fn get_u64_le(b: &mut &[u8]) -> (r: u64)
    requires
        8 <= old(b)@.len(),
    ensures
        r as nat == le_value(old(b)@.take(8)),
        final(b)@ == old(b)@.skip(8),
{
    b.get_u64_le()
}

/// `Buf::get_u128_le` on a byte slice: takes sixteen bytes off and reads
/// them as a little-endian number.
#[verifier::external_body]
pub(crate) fn get_u128_le(b: &mut &[u8]) -> (r: u128)
    requires
        16 <= old(b)@.len(),
    ensures
        r as nat == le_value(old(b)@.take(16)),
        final(b)@ == old(b)@.skip(16),
{
    b.get_u128_le()
}

/// `Buf::copy_to_bytes` on a byte slice: takes the first `n` bytes off and
/// hands them out as a `Bytes`.  It panics when fewer are left, which the
/// precondition rules out.
#[verifier::external_body]
pub(crate) fn copy_to_bytes(b: &mut &[u8], n: usize) -> (r: bytes::Bytes)
    requires
        n <= old(b)@.len(),
    ensures
        bytes_contents(r) == old(b)@.take(n as int),
        final(b)@ == old(b)@.skip(n as int),
{
    b.copy_to_bytes(n)
}

/// `to_vec` on the slice that a `Bytes` dereferences to: a vector with the
/// same bytes.
#[verifier::external_body]
pub(crate) fn bytes_to_vec(b: &bytes::Bytes) -> (r: Vec<u8>)
    ensures
        r@ == bytes_contents(*b),
{
    b.to_vec()
}

/// `PartialOrd::partial_cmp` of `Bytes`: always an order, the
/// lexicographic one of the two byte strings.
#[verifier::external_body]
pub(crate) fn bytes_partial_cmp(a: &bytes::Bytes, b: &bytes::Bytes) -> (r: Option<Ordering>)
    ensures
        r is Some,
        rank_of(r->Some_0) == lex_rank(bytes_contents(*a), bytes_contents(*b)),
{
    a.partial_cmp(b)
}

/// `BufMut::put_u8` on a vector: appends one byte.
#[verifier::external_body]
pub(crate) fn put_u8(v: &mut Vec<u8>, x: u8)
    ensures
        final(v)@ == old(v)@.push(x),
{
    v.put_u8(x)
}

/// `BufMut::put_u16_le` on a vector: appends the two bytes of `x`, least
/// significant first.
#[verifier::external_body]
pub(crate) fn put_u16_le(v: &mut Vec<u8>, x: u16)
    ensures
        final(v)@ == old(v)@ + le_bytes(x as nat, 2),
{
    v.put_u16_le(x)
}

/// `BufMut::put_u32_le` on a vector: appends the four bytes of `x`, least
/// significant first.
#[verifier::external_body]
pub(crate) fn put_u32_le(v: &mut Vec<u8>, x: u32)
    ensures
        final(v)@ == old(v)@ + le_bytes(x as nat, 4),
{
    v.put_u32_le(x)
}

/// `BufMut::put_u64_le` on a vector: appends the eight bytes of `x`, least
/// significant first.
#[verifier::external_body]
pub(crate) fn put_u64_le(v: &mut Vec<u8>, x: u64)
    ensures
        final(v)@ == old(v)@ + le_bytes(x as nat, 8),
{
    v.put_u64_le(x)
}

/// `BufMut::put_u128_le` on a vector: appends the sixteen bytes of `x`,
/// least significant first.
#[verifier::external_body]
pub(crate) fn put_u128_le(v: &mut Vec<u8>, x: u128)
    ensures
        final(v)@ == old(v)@ + le_bytes(x as nat, 16),
{
    v.put_u128_le(x)
}

/// `BufMut::put` on a vector, with a byte slice as the source: appends the
/// whole slice.
#[verifier::external_body]
pub(crate) fn put(v: &mut Vec<u8>, src: &[u8])
    ensures
        final(v)@ == old(v)@ + src@,
{
    v.put(src)
}

/// `BigInt::from_bytes_le` with `Sign::Plus`: the non-negative integer
/// that the bytes spell, least significant byte first.
#[verifier::external_body]
pub(crate) fn bigint_from_bytes_le(bytes: &[u8]) -> (r: num_bigint::BigInt)
    ensures
        bigint_value(r) == le_value(bytes@),
{
    num_bigint::BigInt::from_bytes_le(num_bigint::Sign::Plus, bytes)
}

/// `PartialOrd::partial_cmp` of `BigInt`: always an order, that of the two
/// integers.
#[verifier::external_body]
pub(crate) fn bigint_partial_cmp(a: &num_bigint::BigInt, b: &num_bigint::BigInt) -> (r: Option<
    Ordering,
>)
    ensures
        r is Some,
        rank_of(r->Some_0) == int_rank(bigint_value(*a), bigint_value(*b)),
{
    a.partial_cmp(b)
}

/// `Vec::capacity`: how many bytes the vector can hold before it grows.
/// The allocator decides, so nothing is said of the number.
#[verifier::external_body]
pub(crate) fn capacity(v: &Vec<u8>) -> (r: usize) {
    v.capacity()
}

/// `Vec::reserve_exact`: makes room for `n` more bytes and leaves the
/// contents alone.  It panics when the new capacity would pass
/// `isize::MAX`, which the precondition rules out.
#[verifier::external_body]
pub(crate) fn reserve_exact(v: &mut Vec<u8>, n: usize)
    requires
        old(v)@.len() + n <= isize::MAX,
    ensures
        final(v)@ == old(v)@,
{
    v.reserve_exact(n)
}

/// `String::from_utf8_lossy`, made an owned `String`: the text of the
/// bytes, which is their exact decoding where they are valid UTF-8.
#[verifier::external_body]
pub(crate) fn from_utf8_lossy(bytes: &[u8]) -> (r: String)
    ensures
        r@ == lossy_text(bytes@),
        valid_utf8(bytes@) ==> r@ == decode_utf8(bytes@),
{
    String::from_utf8_lossy(bytes).into_owned()
}

/// `format!` of a text followed by a number: the text, then the number's
/// decimal digits.
#[verifier::external_body]
pub(crate) fn numbered(text: &str, n: u64) -> (r: String)
    ensures
        r@ == text@ + decimal(n as nat),
{
    format!("{}{}", text, n)
}

} // verus!
