//! The wire format, stated over byte sequences.
//!
//! An encoded value is one tag byte, for some tags a length prefix, and a
//! payload.  The functions here say which bytes stand for which value; the
//! write sink and the read cursor are verified against them.

use crate::endian::le_bytes;
use crate::endian::le_value;
use vstd::prelude::*;

verus! {

/// The tag of the null value.
pub const TAG_NIL: u8 = 0;

/// The tag of `false`.
pub const TAG_FALSE: u8 = 1;

/// The tag of `true`.
pub const TAG_TRUE: u8 = 2;

/// The tag of the floating-point number zero.
pub const TAG_ZERO: u8 = 3;

/// The tag of the floating-point number one.
pub const TAG_ONE: u8 = 4;

/// The tag of a single-precision number with its four bytes.
pub const TAG_BINARY32: u8 = 6;

/// The tag of a double-precision number with its eight bytes.
pub const TAG_BINARY64: u8 = 7;

/// The first of the six tags of a negative integer stored as its magnitude.
pub const TAG_NEGATIVE: u8 = 9;

/// The tag of the integer 0; the integers from -1 to 19 are the tags from
/// 15 to 35.
pub const TAG_SMALL: u8 = 16;

/// The first of the six tags of a non-negative integer with a payload.
pub const TAG_UNSIGNED: u8 = 36;

/// The tag of the empty string; a string of up to 64 bytes has its length
/// in its tag.
pub const TAG_STRING: u8 = 42;

/// The tag of the empty binary value.
pub const TAG_BINARY: u8 = 111;

/// The tag of a container of length 0.
pub const TAG_CONTAINER: u8 = 180;

/// The tag of a 32-byte unsigned integer.
pub const TAG_BIG: u8 = 249;

/// The longest payload whose length is written into the tag itself.
pub const INLINE_MAX: u8 = 64;

/// The first number that the dynamic length prefix cannot hold.
pub const LENGTHEN_LIMIT: u32 = 0x2000_0000;

/// The width class of a magnitude: the index of the narrowest of the six
/// payload widths that holds it.
pub open spec fn band(m: nat) -> nat {
    if m <= 0xFF {
        0
    } else if m <= 0xFFFF {
        1
    } else if m <= 0xFFFF_FFFF {
        2
    } else if m <= 0xFFFF_FFFF_FFFF {
        3
    } else if m <= 0xFFFF_FFFF_FFFF_FFFF {
        4
    } else {
        5
    }
}

/// The payload width of a width class, in bytes: 1, 2, 4, 6, 8 or 16.
pub open spec fn band_width(b: nat) -> nat {
    if b == 0 {
        1
    } else if b == 1 {
        2
    } else if b == 2 {
        4
    } else if b == 3 {
        6
    } else if b == 4 {
        8
    } else {
        16
    }
}

/// The encoding of an integer: one byte for -1 to 19, else a tag for sign
/// and width, and the magnitude at the narrowest width that holds it.
pub open spec fn int_encoding(v: int) -> Seq<u8> {
    if -1 <= v < 20 {
        seq![(TAG_SMALL + v) as u8]
    } else if v < 0 {
        seq![(TAG_NEGATIVE + band((-v) as nat)) as u8] + le_bytes(
            (-v) as nat,
            band_width(band((-v) as nat)),
        )
    } else {
        seq![(TAG_UNSIGNED + band(v as nat)) as u8] + le_bytes(
            v as nat,
            band_width(band(v as nat)),
        )
    }
}

/// The encoding of the null value.
pub open spec fn nil_encoding() -> Seq<u8> {
    seq![TAG_NIL]
}

/// The encoding of a boolean.
pub open spec fn bool_encoding(v: bool) -> Seq<u8> {
    seq![if v { TAG_TRUE } else { TAG_FALSE }]
}

/// The bit pattern of the single-precision number 1.
pub const BINARY32_ONE: u32 = 0x3F80_0000;

/// The bit pattern of the double-precision number 1.
pub const BINARY64_ONE: u64 = 0x3FF0_0000_0000_0000;

/// The encoding of a single-precision number, given by its bit pattern:
/// one byte for positive zero and for one, else the four bytes of the
/// pattern.
pub open spec fn binary32_encoding(bits: u32) -> Seq<u8> {
    if bits == 0 {
        seq![TAG_ZERO]
    } else if bits == BINARY32_ONE {
        seq![TAG_ONE]
    } else {
        seq![TAG_BINARY32] + le_bytes(bits as nat, 4)
    }
}

/// The encoding of a double-precision number, given by its bit pattern.
pub open spec fn binary64_encoding(bits: u64) -> Seq<u8> {
    if bits == 0 {
        seq![TAG_ZERO]
    } else if bits == BINARY64_ONE {
        seq![TAG_ONE]
    } else {
        seq![TAG_BINARY64] + le_bytes(bits as nat, 8)
    }
}

/// The dynamic length prefix of a count below [`LENGTHEN_LIMIT`]: the count
/// itself below `0x80`, else the count plus `0x8000` in two bytes below
/// `0x4000`, else the count plus `0xC000_0000` in four bytes.  The bytes
/// are in little-endian order on every machine, so the first byte of the
/// longer forms is the low byte of the count and not the byte that holds
/// the marker bits.
pub open spec fn lengthen_encoding(n: nat) -> Seq<u8> {
    if n < 0x80 {
        seq![n as u8]
    } else if n < 0x4000 {
        le_bytes(0x8000 + n, 2)
    } else {
        le_bytes(0xC000_0000 + n, 4)
    }
}

/// What stands before the payload of a string (`base` 42) or of a binary
/// value (`base` 111) of `len` bytes: the tag, and beyond 64 bytes the
/// length in 1, 2, 4, 6 or 8 bytes.
pub open spec fn data_header(base: u8, len: nat) -> Seq<u8> {
    if len <= 64 {
        seq![(base + len) as u8]
    } else if len <= 0xFF {
        seq![(base + 65) as u8] + le_bytes(len, 1)
    } else if len <= 0xFFFF {
        seq![(base + 66) as u8] + le_bytes(len, 2)
    } else if len <= 0xFFFF_FFFF {
        seq![(base + 67) as u8] + le_bytes(len, 4)
    } else if len <= 0xFFFF_FFFF_FFFF {
        seq![(base + 68) as u8] + le_bytes(len, 6)
    } else {
        seq![(base + 69) as u8] + le_bytes(len, 8)
    }
}

/// The encoding of a string or binary value with the given payload.
pub open spec fn data_encoding(base: u8, payload: Seq<u8>) -> Seq<u8> {
    data_header(base, payload.len()) + payload
}

/// The width class that a container reserves for a body of `len` bytes:
/// class 0 holds the length in the tag, classes 1 to 4 in a prefix of 1, 2,
/// 4 or 6 bytes, and class 5 stands for what no container tag can hold.
pub open spec fn frame_band(len: nat) -> nat {
    if len <= 64 {
        0
    } else if len <= 0xFF {
        1
    } else if len <= 0xFFFF {
        2
    } else if len <= 0xFFFF_FFFF {
        3
    } else if len <= 0xFFFF_FFFF_FFFF {
        4
    } else {
        5
    }
}

/// The number of bytes that the header of a container of class `b` takes.
pub open spec fn frame_width(b: nat) -> nat {
    if b == 0 {
        1
    } else if b == 1 {
        2
    } else if b == 2 {
        3
    } else if b == 3 {
        5
    } else if b == 4 {
        7
    } else {
        9
    }
}

/// The header of a container of class `b` from 0 to 4 whose body, type hash
/// included, is `len` bytes long.
pub open spec fn frame_header(b: nat, len: nat) -> Seq<u8> {
    if b == 0 {
        seq![(TAG_CONTAINER + len) as u8]
    } else if b == 1 {
        seq![245u8] + le_bytes(len, 1)
    } else if b == 2 {
        seq![246u8] + le_bytes(len, 2)
    } else if b == 3 {
        seq![247u8] + le_bytes(len, 4)
    } else {
        seq![248u8] + le_bytes(len, 6)
    }
}

/// The class that a container ends up with: the one reserved for the
/// estimate, or the one that the body needs where that is wider.
pub open spec fn final_band(estimate: nat, len: nat) -> nat {
    if frame_band(estimate) >= frame_band(len) {
        frame_band(estimate)
    } else {
        frame_band(len)
    }
}

/// The encoding of a container: its header and its body.  The body starts
/// with the four bytes of the type hash.
pub open spec fn container_encoding(estimate: nat, body: Seq<u8>) -> Seq<u8> {
    frame_header(final_band(estimate, body.len()), body.len()) + body
}

/// The four bytes of a type hash.
pub open spec fn hash_encoding(hash: u32) -> Seq<u8> {
    le_bytes(hash as nat, 4)
}

/// Whether a tag is that of an integer.
pub open spec fn is_int_tag(t: u8) -> bool {
    TAG_NEGATIVE <= t < TAG_STRING
}

/// The payload width of an integer tag: none for the integers that are
/// their own tag, else the width of the tag's class.
pub open spec fn int_width(t: u8) -> nat {
    if t < 15 {
        band_width((t - TAG_NEGATIVE) as nat)
    } else if t < TAG_UNSIGNED {
        0
    } else {
        band_width((t - TAG_UNSIGNED) as nat)
    }
}

/// The integer that an integer tag and its payload stand for.
pub open spec fn int_value(t: u8, payload: Seq<u8>) -> int {
    if t < 15 {
        -(le_value(payload) as int)
    } else if t < TAG_UNSIGNED {
        t - TAG_SMALL
    } else {
        le_value(payload) as int
    }
}

/// Whether `t` is one of the 69 tags of the kind that starts at `base`: a
/// string (42), a binary value (111) or a container (180).
pub open spec fn is_data_tag(base: u8, t: u8) -> bool {
    base <= t <= base + 68
}

/// The number of bytes in which the length follows the tag `t`: none up to
/// a length of 64, else 1, 2, 4 or 6.
pub open spec fn prefix_width(base: u8, t: u8) -> nat {
    if t <= base + 64 {
        0
    } else if t == base + 65 {
        1
    } else if t == base + 66 {
        2
    } else if t == base + 67 {
        4
    } else {
        6
    }
}

/// The length that the tag `t` and the length prefix behind it declare.
pub open spec fn declared_len(base: u8, t: u8, prefix: Seq<u8>) -> nat {
    if t <= base + 64 {
        (t - base) as nat
    } else {
        le_value(prefix)
    }
}

/// A header is as wide as its class says.
pub proof fn lemma_frame_header_len(b: nat, len: nat)
    requires
        b <= 4,
    ensures
        frame_header(b, len).len() == frame_width(b),
{
    crate::endian::lemma_le_bytes_len(len, 1);
    crate::endian::lemma_le_bytes_len(len, 2);
    crate::endian::lemma_le_bytes_len(len, 4);
    crate::endian::lemma_le_bytes_len(len, 6);
}

/// A number written at one byte is its low byte.
pub proof fn lemma_le_bytes_one(v: nat)
    ensures
        le_bytes(v, 1) == seq![(v % 256) as u8],
{
    assert(le_bytes(v / 256, 0) =~= Seq::<u8>::empty());
}

} // verus!
