//! The read cursor: typed reads from a borrowed byte slice.

use crate::endian::le_value;
use crate::endian::lemma_le_value_concat;
use crate::endian::lemma_radix_values;
use crate::error::mismatch;
use crate::error::ErrorView;
use crate::error::ReadBonErr;
use crate::ieee::binary32_from_integer;
use crate::ieee::binary32_of_integer;
use crate::ieee::binary64_from_binary32;
use crate::ieee::binary64_from_integer;
use crate::ieee::binary64_of_binary32;
use crate::ieee::binary64_of_integer;
use crate::integer::wrap;
use crate::integer::two_128;
use crate::integer::Integer;
use crate::outside::bytes_contents;
use crate::outside::bytes_to_vec;
use crate::outside::chunk;
use crate::outside::copy_to_bytes;
use crate::outside::from_utf8_lossy;
use crate::outside::get_u128_le;
use crate::outside::get_u16_le;
use crate::outside::get_u32_le;
use crate::outside::get_u64_le;
use crate::outside::get_u8;
use crate::outside::decimal;
use crate::outside::lossy_text;
use crate::outside::numbered;
use crate::value::EnumValue;
use crate::value::Scalar;
use crate::wire::BINARY32_ONE;
use crate::wire::BINARY64_ONE;
use crate::wire::TAG_BINARY32;
use crate::wire::TAG_BINARY64;
use crate::wire::TAG_ONE;
use crate::wire::TAG_ZERO;
use crate::wire::declared_len;
use crate::wire::int_value;
use crate::wire::int_width;
use crate::wire::is_data_tag;
use crate::wire::is_int_tag;
use crate::wire::prefix_width;
use crate::wire::TAG_BINARY;
use crate::wire::TAG_CONTAINER;
use crate::wire::TAG_FALSE;
use crate::wire::TAG_NEGATIVE;
use crate::wire::TAG_NIL;
use crate::wire::TAG_SMALL;
use crate::wire::TAG_STRING;
use crate::wire::TAG_TRUE;
use crate::wire::TAG_UNSIGNED;
use vstd::prelude::*;
use vstd::slice::slice_subrange;
use vstd::utf8::decode_utf8;
use vstd::utf8::valid_utf8;

verus! {

/// A cursor over encoded bytes.  Reads start at `head` and move it forward;
/// a read that fails leaves the cursor where it was.
#[derive(Debug)]
pub struct ReadBuffer<'a> {
    /// The bytes that are read from.
    pub bytes: &'a [u8],
    /// The position of the next read.
    pub head: usize,
}

impl<'a> Default for ReadBuffer<'a> {
    fn default() -> (r: ReadBuffer<'a>)
        ensures
            r.rest().len() == 0,
            r.head == 0,
    {
        let nothing: &'a [u8] = &[];
        ReadBuffer { bytes: nothing, head: 0 }
    }
}

impl<'a> Clone for ReadBuffer<'a> {
    fn clone(&self) -> (r: ReadBuffer<'a>)
        ensures
            r == *self,
    {
        ReadBuffer { bytes: self.bytes, head: self.head }
    }
}

/// The view of the failure of a read that asked for `wanted` bytes where
/// `left` remained.
pub open spec fn short(wanted: nat, left: nat) -> ErrorView {
    ErrorView::Overflow { try_index: wanted as usize, len: left as usize }
}

/// What a read of an integer finds in the bytes `s` at position `head`: the
/// integer and the number of bytes it takes, or the failure.
pub open spec fn integer_read(s: Seq<u8>, head: usize) -> Result<(int, nat), ErrorView> {
    if s.len() == 0 {
        Err(short(1, 0))
    } else if !is_int_tag(s[0]) {
        Err(mismatch("integer"@, s[0], head))
    } else if s.len() - 1 < int_width(s[0]) {
        Err(short(int_width(s[0]), (s.len() - 1) as nat))
    } else {
        Ok((int_value(s[0], s.subrange(1, 1 + int_width(s[0]) as int)), 1 + int_width(s[0])))
    }
}

/// What a read of a string (`base` 42, `kind` "string"), of a binary value
/// (111, "bin") or of a container's header (180, "container") finds in the
/// bytes `s` at position `head`: the number of bytes before the payload and
/// the length that is declared for it, or the failure.
pub open spec fn header_read(base: u8, kind: Seq<char>, s: Seq<u8>, head: usize) -> Result<
    (nat, nat),
    ErrorView,
> {
    if s.len() == 0 {
        Err(short(1, 0))
    } else if !is_data_tag(base, s[0]) {
        Err(mismatch(kind, s[0], head))
    } else if s.len() - 1 < prefix_width(base, s[0]) {
        Err(short(prefix_width(base, s[0]), (s.len() - 1) as nat))
    } else {
        Ok(
            (
                1 + prefix_width(base, s[0]),
                declared_len(base, s[0], s.subrange(1, 1 + prefix_width(base, s[0]) as int)),
            ),
        )
    }
}

/// The text that the payload of a string stands for: its decoding where
/// it is UTF-8, and else what the lossy conversion of the standard library
/// makes of it, with U+FFFD for what is malformed.
pub open spec fn text_of(payload: Seq<u8>) -> Seq<char> {
    if valid_utf8(payload) {
        decode_utf8(payload)
    } else {
        lossy_text(payload)
    }
}

/// The largest `usize`, for lengths that pass it.
pub open spec fn clamp(n: nat) -> nat {
    if n > usize::MAX {
        usize::MAX as nat
    } else {
        n
    }
}

/// What a read of a string or of a binary value finds in the bytes `s` at
/// position `head`: the payload and the number of bytes that the whole
/// value takes, or the failure.
pub open spec fn data_read(base: u8, kind: Seq<char>, s: Seq<u8>, head: usize) -> Result<
    (Seq<u8>, nat),
    ErrorView,
> {
    match header_read(base, kind, s, head) {
        Err(e) => Err(e),
        Ok((start, len)) => if s.len() - start < len {
            Err(short(clamp(len), (s.len() - start) as nat))
        } else {
            Ok((s.subrange(start as int, (start + len) as int), start + len))
        },
    }
}

/// What a read of a dynamic length prefix finds in the bytes `s` at
/// position `head`: the count and the number of bytes it takes, or the
/// failure.  The first byte tells the width; the count is the little-endian
/// number less its bias.
pub open spec fn lengthen_read(s: Seq<u8>, head: usize) -> Result<(nat, nat), ErrorView> {
    if s.len() == 0 {
        Err(short(1, 0))
    } else if s[0] < 0x80 {
        Ok((s[0] as nat, 1))
    } else if s[0] < 0xC0 {
        if s.len() < 2 {
            Err(short(2, s.len()))
        } else if le_value(s.take(2)) < 0x8000 {
            Err(mismatch("lengthen"@, s[0], head))
        } else {
            Ok(((le_value(s.take(2)) - 0x8000) as nat, 2))
        }
    } else if s[0] < 0xE0 {
        if s.len() < 4 {
            Err(short(4, s.len()))
        } else if le_value(s.take(4)) < 0xC000_0000 {
            Err(mismatch("lengthen"@, s[0], head))
        } else {
            Ok(((le_value(s.take(4)) - 0xC000_0000) as nat, 4))
        }
    } else {
        Err(mismatch("lengthen"@, s[0], head))
    }
}

/// What a read of a container's header finds in the bytes `s` at position
/// `head`: the type hash, the length that is declared for the body, and
/// the number of bytes up to and with the hash, or the failure.
pub open spec fn container_read(s: Seq<u8>, head: usize) -> Result<(u32, u64, nat), ErrorView> {
    match header_read(TAG_CONTAINER, "container"@, s, head) {
        Err(e) => Err(e),
        Ok((start, len)) => if s.len() - start < 4 {
            Err(short(4, (s.len() - start) as nat))
        } else {
            Ok((le_value(s.subrange(start as int, start + 4 as int)) as u32, len as u64, start + 4))
        },
    }
}

/// What a read of a single-precision number finds in the bytes `s` at
/// position `head`: its bit pattern and the number of bytes it takes, or
/// the failure.  An integer is read as the number nearest to its low 32
/// bits.
pub open spec fn binary32_read(s: Seq<u8>, head: usize) -> Result<(u32, nat), ErrorView> {
    if s.len() == 0 {
        Err(short(1, 0))
    } else if s[0] == TAG_ZERO {
        Ok((0, 1))
    } else if s[0] == TAG_ONE {
        Ok((BINARY32_ONE, 1))
    } else if s[0] == TAG_BINARY32 {
        if s.len() - 1 < 4 {
            Err(short(4, (s.len() - 1) as nat))
        } else {
            Ok((le_value(s.subrange(1, 5)) as u32, 5))
        }
    } else if is_int_tag(s[0]) {
        match integer_read(s, head) {
            Ok((v, n)) => Ok(
                (binary32_from_integer(wrap(v, 0x1_0000_0000, false) as u32) as u32, n),
            ),
            Err(e) => Err(e),
        }
    } else {
        Err(mismatch("f32"@, s[0], head))
    }
}

/// What a read of a double-precision number finds in the bytes `s` at
/// position `head`.  A single-precision number is widened, and an integer
/// is read as the number nearest to its low 64 bits.
pub open spec fn binary64_read(s: Seq<u8>, head: usize) -> Result<(u64, nat), ErrorView> {
    if s.len() == 0 {
        Err(short(1, 0))
    } else if s[0] == TAG_ZERO {
        Ok((0, 1))
    } else if s[0] == TAG_ONE {
        Ok((BINARY64_ONE, 1))
    } else if s[0] == TAG_BINARY32 {
        if s.len() - 1 < 4 {
            Err(short(4, (s.len() - 1) as nat))
        } else {
            Ok((binary64_from_binary32(le_value(s.subrange(1, 5)) as u32) as u64, 5))
        }
    } else if s[0] == TAG_BINARY64 {
        if s.len() - 1 < 8 {
            Err(short(8, (s.len() - 1) as nat))
        } else {
            Ok((le_value(s.subrange(1, 9)) as u64, 9))
        }
    } else if is_int_tag(s[0]) {
        match integer_read(s, head) {
            Ok((v, n)) => Ok(
                (
                    binary64_from_integer(false, wrap(v, 0x1_0000_0000_0000_0000, false) as u64)
                        as u64,
                    n,
                ),
            ),
            Err(e) => Err(e),
        }
    } else {
        Err(mismatch("f64"@, s[0], head))
    }
}

/// The variant that the generic read gives an integer of tag `t`: its
/// width in bits and whether it is signed.  The two 48-bit tags are not
/// among them; they come out as double-precision numbers.
pub open spec fn int_variant(t: u8) -> (nat, bool) {
    if t == 9 {
        (16, true)
    } else if t == 10 {
        (32, true)
    } else if t == 11 || t == 13 {
        (64, true)
    } else if t == 14 {
        (128, true)
    } else if t == 15 {
        (8, true)
    } else if t <= 36 {
        (8, false)
    } else if t == 37 {
        (16, false)
    } else if t == 38 {
        (32, false)
    } else if t == 40 {
        (64, false)
    } else {
        (128, false)
    }
}

/// `2^bits` for the widths of the integer variants.
pub open spec fn modulus(bits: nat) -> int {
    if bits == 8 {
        0x100
    } else if bits == 16 {
        0x1_0000
    } else if bits == 32 {
        0x1_0000_0000
    } else if bits == 64 {
        0x1_0000_0000_0000_0000
    } else {
        two_128()
    }
}

/// What the generic read finds in the bytes `s` at position `head`: the
/// value and the number of bytes it takes, or the failure.
pub open spec fn value_read(s: Seq<u8>, head: usize) -> Result<(Scalar, nat), ErrorView> {
    if s.len() == 0 {
        Err(short(1, 0))
    } else if s[0] == TAG_NIL {
        Ok((Scalar::Void, 1))
    } else if s[0] == TAG_FALSE || s[0] == TAG_TRUE {
        Ok((Scalar::Bool(s[0] == TAG_TRUE), 1))
    } else if s[0] == 5 {
        Err(ErrorView::Other("16-bit float unsupported"@))
    } else if s[0] == 8 {
        Err(ErrorView::Other("128-bit float unsupported"@))
    } else if s[0] == TAG_BINARY64 {
        match binary64_read(s, head) {
            Ok((b, n)) => Ok((Scalar::F64(b), n)),
            Err(e) => Err(e),
        }
    } else if s[0] < TAG_NEGATIVE {
        match binary32_read(s, head) {
            Ok((b, n)) => Ok((Scalar::F32(b), n)),
            Err(e) => Err(e),
        }
    } else if is_int_tag(s[0]) {
        match integer_read(s, head) {
            Ok((v, n)) => if s[0] == 12 || s[0] == 39 {
                Ok((Scalar::F64(binary64_from_integer(s[0] == 12, vstd::math::abs(v) as u64) as u64), n))
            } else {
                Ok(
                    (
                        Scalar::Int {
                            bits: int_variant(s[0]).0,
                            signed: int_variant(s[0]).1,
                            value: wrap(v, modulus(int_variant(s[0]).0), int_variant(s[0]).1),
                        },
                        n,
                    ),
                )
            },
            Err(e) => Err(e),
        }
    } else if s[0] < TAG_BINARY {
        match data_read(TAG_STRING, "string"@, s, head) {
            Ok((v, n)) => Ok((Scalar::Str(text_of(v)), n)),
            Err(e) => Err(e),
        }
    } else if s[0] < TAG_CONTAINER {
        match data_read(TAG_BINARY, "bin"@, s, head) {
            Ok((v, n)) => Ok((Scalar::Bin(v), n)),
            Err(e) => Err(e),
        }
    } else if 245 <= s[0] <= 248 {
        Err(ErrorView::IsContainer(s[0]))
    } else {
        Err(ErrorView::Other("Unexpected type: "@ + decimal(s[0] as nat)))
    }
}

/// Takes a little-endian number of `width` bytes, one of 1, 2, 4, 6, 8 and
/// 16, off the front of `rest`.  The six-byte form is read as its low 16
/// bits and then its high 32 bits.
pub fn take_le(rest: &mut &[u8], width: usize) -> (r: u128)
    requires
        width == 1 || width == 2 || width == 4 || width == 6 || width == 8 || width == 16,
        width <= old(rest)@.len(),
    ensures
        r == le_value(old(rest)@.take(width as int)),
        final(rest)@ == old(rest)@.skip(width as int),
{
    let ghost s = rest@;
    if width == 1 {
        let b = get_u8(rest);
        assert(le_value(s.take(1)) == s[0]) by {
            assert(le_value(s.take(1).skip(1)) == 0);
        }
        b as u128
    } else if width == 2 {
        get_u16_le(rest) as u128
    } else if width == 4 {
        get_u32_le(rest) as u128
    } else if width == 6 {
        let low = get_u16_le(rest);
        let high = get_u32_le(rest);
        proof {
            lemma_radix_values();
            lemma_le_value_concat(s.take(2), s.skip(2).take(4));
            assert(s.take(6) =~= s.take(2) + s.skip(2).take(4));
        }
        low as u128 + high as u128 * 0x1_0000
    } else if width == 8 {
        get_u64_le(rest) as u128
    } else {
        get_u128_le(rest)
    }
}

impl<'a> ReadBuffer<'a> {
    /// The bytes that are still to be read.
    pub open spec fn rest(&self) -> Seq<u8> {
        if self.head <= self.bytes@.len() {
            self.bytes@.skip(self.head as int)
        } else {
            Seq::<u8>::empty()
        }
    }

    /// This cursor is `before` moved forward by `n` bytes.
    pub open spec fn advanced(&self, before: ReadBuffer, n: nat) -> bool {
        &&& self.bytes == before.bytes
        &&& self.head == before.head + n
        &&& n <= before.rest().len()
    }

    /// A cursor over `buf` that reads from position `head` on.
    pub fn new(buf: &'a [u8], head: usize) -> (r: ReadBuffer<'a>)
        ensures
            r.bytes == buf,
            r.head == head,
    {
        ReadBuffer { bytes: buf, head }
    }

    /// The position of the next read.
    pub fn head(&self) -> (r: usize)
        ensures
            r == self.head,
    {
        self.head
    }

    /// The number of bytes that are still to be read.
    pub fn len(&self) -> (r: usize)
        ensures
            r == self.rest().len(),
    {
        let n = self.bytes.len();
        if self.head <= n {
            n - self.head
        } else {
            0
        }
    }

    /// The bytes that are still to be read.
    pub fn remaining(&self) -> (r: &'a [u8])
        ensures
            r@ == self.rest(),
    {
        let n = self.bytes.len();
        if self.head <= n {
            slice_subrange(self.bytes, self.head, n)
        } else {
            let r = slice_subrange(self.bytes, n, n);
            r
        }
    }

    /// Moves the cursor forward by `n` bytes that are there.
    pub fn advance(&mut self, n: usize)
        requires
            n <= old(self).rest().len(),
        ensures
            final(self).advanced(*old(self), n as nat),
            final(self).rest() == old(self).rest().skip(n as int),
    {
        assert(self.bytes.len() == self.bytes@.len());
        self.head = self.head + n;
    }

    /// Takes the tag under the cursor.
    pub fn get_type(&mut self) -> (r: Result<u8, ReadBonErr>)
        ensures
            old(self).rest().len() > 0 ==> r == Ok::<u8, ReadBonErr>(old(self).rest()[0])
                && final(self).advanced(*old(self), 1),
            old(self).rest().len() == 0 ==> r is Err && r->Err_0@ == short(1, 0) && *final(self)
                == *old(self),
    {
        self.probe_border(1)?;
        let mut rest = self.remaining();
        let t = get_u8(&mut rest);
        self.advance(1);
        Ok(t)
    }

    /// Looks at the tag under the cursor and leaves it there.
    pub fn get_type_chunk(&mut self) -> (r: Result<u8, ReadBonErr>)
        ensures
            *final(self) == *old(self),
            old(self).rest().len() > 0 ==> r == Ok::<u8, ReadBonErr>(old(self).rest()[0]),
            old(self).rest().len() == 0 ==> r is Err && r->Err_0@ == short(1, 0),
    {
        self.probe_border(1)?;
        let rest = self.remaining();
        Ok(chunk(&rest)[0])
    }

    /// Reads a boolean.
    pub fn read_bool(&mut self) -> (r: Result<bool, ReadBonErr>)
        ensures
            match bool_read(old(self).rest(), old(self).head) {
                Ok(v) => r == Ok::<bool, ReadBonErr>(v) && final(self).advanced(*old(self), 1),
                Err(e) => r is Err && r->Err_0@ == e && *final(self) == *old(self),
            },
    {
        let t = self.get_type_chunk()?;
        if t == TAG_FALSE {
            self.advance(1);
            Ok(false)
        } else if t == TAG_TRUE {
            self.advance(1);
            Ok(true)
        } else {
            Err(ReadBonErr::type_no_match("bool".to_owned(), t, self.head))
        }
    }

    /// Reads an integer and cuts it down to 8 bits.
    pub fn read_u8(&mut self) -> (r: Result<u8, ReadBonErr>)
        ensures
            match integer_read(old(self).rest(), old(self).head) {
                Ok((v, n)) => r is Ok && r->Ok_0 == wrap(v, 0x100, false) && final(self).advanced(
                    *old(self),
                    n,
                ),
                Err(e) => r is Err && r->Err_0@ == e && *final(self) == *old(self),
            },
    {
        let v = self.read_integer()?;
        Ok(v.to_u8())
    }

    /// Reads an integer and cuts it down to 16 bits.
    pub fn read_u16(&mut self) -> (r: Result<u16, ReadBonErr>)
        ensures
            match integer_read(old(self).rest(), old(self).head) {
                Ok((v, n)) => r is Ok && r->Ok_0 == wrap(v, 0x1_0000, false) && final(self).advanced(*old(self), n),
                Err(e) => r is Err && r->Err_0@ == e && *final(self) == *old(self),
            },
    {
        let v = self.read_integer()?;
        Ok(v.to_u16())
    }

    /// Reads an integer and cuts it down to 32 bits.
    pub fn read_u32(&mut self) -> (r: Result<u32, ReadBonErr>)
        ensures
            match integer_read(old(self).rest(), old(self).head) {
                Ok((v, n)) => r is Ok && r->Ok_0 == wrap(v, 0x1_0000_0000, false) && final(self).advanced(*old(self), n),
                Err(e) => r is Err && r->Err_0@ == e && *final(self) == *old(self),
            },
    {
        let v = self.read_integer()?;
        Ok(v.to_u32())
    }

    /// Reads an integer and cuts it down to 64 bits.
    pub fn read_u64(&mut self) -> (r: Result<u64, ReadBonErr>)
        ensures
            match integer_read(old(self).rest(), old(self).head) {
                Ok((v, n)) => r is Ok && r->Ok_0 == wrap(v, 0x1_0000_0000_0000_0000, false)
                    && final(self).advanced(*old(self), n),
                Err(e) => r is Err && r->Err_0@ == e && *final(self) == *old(self),
            },
    {
        let v = self.read_integer()?;
        Ok(v.to_u64())
    }

    /// Reads an integer and cuts it down to the width of `usize`.
    pub fn read_usize(&mut self) -> (r: Result<usize, ReadBonErr>)
        ensures
            match integer_read(old(self).rest(), old(self).head) {
                Ok((v, n)) => r is Ok && r->Ok_0 == wrap(v, usize::MAX + 1, false) && final(self).advanced(*old(self), n),
                Err(e) => r is Err && r->Err_0@ == e && *final(self) == *old(self),
            },
    {
        let v = self.read_integer()?;
        Ok(v.to_usize())
    }

    /// Reads an integer and cuts it down to 128 bits.
    pub fn read_u128(&mut self) -> (r: Result<u128, ReadBonErr>)
        ensures
            match integer_read(old(self).rest(), old(self).head) {
                Ok((v, n)) => r is Ok && r->Ok_0 == wrap(v, two_128(), false) && final(self).advanced(*old(self), n),
                Err(e) => r is Err && r->Err_0@ == e && *final(self) == *old(self),
            },
    {
        let v = self.read_integer()?;
        Ok(v.to_u128())
    }

    /// Reads an integer and cuts it down to 8 bits, two's complement.
    pub fn read_i8(&mut self) -> (r: Result<i8, ReadBonErr>)
        ensures
            match integer_read(old(self).rest(), old(self).head) {
                Ok((v, n)) => r is Ok && r->Ok_0 == wrap(v, 0x100, true) && final(self).advanced(
                    *old(self),
                    n,
                ),
                Err(e) => r is Err && r->Err_0@ == e && *final(self) == *old(self),
            },
    {
        let v = self.read_integer()?;
        Ok(v.to_i8())
    }

    /// Reads an integer and cuts it down to 16 bits, two's complement.
    pub fn read_i16(&mut self) -> (r: Result<i16, ReadBonErr>)
        ensures
            match integer_read(old(self).rest(), old(self).head) {
                Ok((v, n)) => r is Ok && r->Ok_0 == wrap(v, 0x1_0000, true) && final(self).advanced(*old(self), n),
                Err(e) => r is Err && r->Err_0@ == e && *final(self) == *old(self),
            },
    {
        let v = self.read_integer()?;
        Ok(v.to_i16())
    }

    /// Reads an integer and cuts it down to 32 bits, two's complement.
    pub fn read_i32(&mut self) -> (r: Result<i32, ReadBonErr>)
        ensures
            match integer_read(old(self).rest(), old(self).head) {
                Ok((v, n)) => r is Ok && r->Ok_0 == wrap(v, 0x1_0000_0000, true) && final(self).advanced(*old(self), n),
                Err(e) => r is Err && r->Err_0@ == e && *final(self) == *old(self),
            },
    {
        let v = self.read_integer()?;
        Ok(v.to_i32())
    }

    /// Reads an integer and cuts it down to 64 bits, two's complement.
    pub fn read_i64(&mut self) -> (r: Result<i64, ReadBonErr>)
        ensures
            match integer_read(old(self).rest(), old(self).head) {
                Ok((v, n)) => r is Ok && r->Ok_0 == wrap(v, 0x1_0000_0000_0000_0000, true)
                    && final(self).advanced(*old(self), n),
                Err(e) => r is Err && r->Err_0@ == e && *final(self) == *old(self),
            },
    {
        let v = self.read_integer()?;
        Ok(v.to_i64())
    }

    /// Reads an integer and cuts it down to the width of `isize`, two's
    /// complement.
    pub fn read_isize(&mut self) -> (r: Result<isize, ReadBonErr>)
        ensures
            match integer_read(old(self).rest(), old(self).head) {
                Ok((v, n)) => r is Ok && r->Ok_0 == wrap(v, usize::MAX + 1, true) && final(self).advanced(*old(self), n),
                Err(e) => r is Err && r->Err_0@ == e && *final(self) == *old(self),
            },
    {
        let v = self.read_integer()?;
        Ok(v.to_isize())
    }

    /// Reads an integer and cuts it down to 128 bits, two's complement.
    pub fn read_i128(&mut self) -> (r: Result<i128, ReadBonErr>)
        ensures
            match integer_read(old(self).rest(), old(self).head) {
                Ok((v, n)) => r is Ok && r->Ok_0 == wrap(v, two_128(), true) && final(self).advanced(*old(self), n),
                Err(e) => r is Err && r->Err_0@ == e && *final(self) == *old(self),
            },
    {
        let v = self.read_integer()?;
        Ok(v.to_i128())
    }

    /// Reads a dynamic length prefix.
    pub fn read_lengthen(&mut self) -> (r: Result<u32, ReadBonErr>)
        ensures
            match lengthen_read(old(self).rest(), old(self).head) {
                Ok((v, n)) => r is Ok && r->Ok_0 == v && final(self).advanced(*old(self), n),
                Err(e) => r is Err && r->Err_0@ == e && *final(self) == *old(self),
            },
    {
        let t = self.get_type_chunk()?;
        let mut rest = self.remaining();
        if t < 0x80 {
            self.advance(1);
            Ok(t as u32)
        } else if t < 0xC0 {
            self.probe_border(2)?;
            let v = get_u16_le(&mut rest);
            if v < 0x8000 {
                return Err(ReadBonErr::type_no_match("lengthen".to_owned(), t, self.head));
            }
            self.advance(2);
            Ok((v - 0x8000) as u32)
        } else if t < 0xE0 {
            self.probe_border(4)?;
            let v = get_u32_le(&mut rest);
            if v < 0xC000_0000 {
                return Err(ReadBonErr::type_no_match("lengthen".to_owned(), t, self.head));
            }
            self.advance(4);
            Ok(v - 0xC000_0000)
        } else {
            Err(ReadBonErr::type_no_match("lengthen".to_owned(), t, self.head))
        }
    }

    /// Reads a binary value.
    pub fn read_bin(&mut self) -> (r: Result<Vec<u8>, ReadBonErr>)
        ensures
            match data_read(TAG_BINARY, "bin"@, old(self).rest(), old(self).head) {
                Ok((v, n)) => r is Ok && r->Ok_0@ == v && final(self).advanced(*old(self), n),
                Err(e) => r is Err && r->Err_0@ == e && *final(self) == *old(self),
            },
    {
        let t = self.get_type_chunk()?;
        self.read_bin_inner(t)
    }

    /// Reads the binary value whose tag `t` is under the cursor.
    fn read_bin_inner(&mut self, t: u8) -> (r: Result<Vec<u8>, ReadBonErr>)
        requires
            old(self).rest().len() > 0,
            old(self).rest()[0] == t,
        ensures
            match data_read(TAG_BINARY, "bin"@, old(self).rest(), old(self).head) {
                Ok((v, n)) => r is Ok && r->Ok_0@ == v && final(self).advanced(*old(self), n),
                Err(e) => r is Err && r->Err_0@ == e && *final(self) == *old(self),
            },
    {
        let data = self.read_payload(TAG_BINARY, "bin")?;
        Ok(bytes_to_vec(&data))
    }

    /// Reads a string (`base` 42) or a binary value (111) and gives its
    /// payload as it stands in the buffer.
    pub fn read_payload(&mut self, base: u8, kind: &str) -> (r: Result<bytes::Bytes, ReadBonErr>)
        requires
            base == TAG_STRING || base == TAG_BINARY,
        ensures
            match data_read(base, kind@, old(self).rest(), old(self).head) {
                Ok((v, n)) => r is Ok && bytes_contents(r->Ok_0) == v && final(self).advanced(
                    *old(self),
                    n,
                ),
                Err(e) => r is Err && r->Err_0@ == e && *final(self) == *old(self),
            },
    {
        let (start, len) = self.read_header(base, kind)?;
        let mut rest = self.remaining();
        crate::outside::advance(&mut rest, start);
        if len > rest.len() as u64 {
            return Err(ReadBonErr::overflow(clamp_of(len), rest.len()));
        }
        let data = copy_to_bytes(&mut rest, len as usize);
        assert(start + len <= self.bytes.len());
        self.advance(start + len as usize);
        Ok(data)
    }

    /// Reads a string.  Bytes that are not UTF-8 come out as U+FFFD.
    pub fn read_utf8(&mut self) -> (r: Result<String, ReadBonErr>)
        ensures
            match data_read(TAG_STRING, "string"@, old(self).rest(), old(self).head) {
                Ok((v, n)) => r is Ok && r->Ok_0@ == text_of(v) && final(self).advanced(
                    *old(self),
                    n,
                ),
                Err(e) => r is Err && r->Err_0@ == e && *final(self) == *old(self),
            },
    {
        let t = self.get_type_chunk()?;
        self.read_utf8_inner(t)
    }

    /// Reads the string whose tag `t` is under the cursor.
    fn read_utf8_inner(&mut self, t: u8) -> (r: Result<String, ReadBonErr>)
        requires
            old(self).rest().len() > 0,
            old(self).rest()[0] == t,
        ensures
            match data_read(TAG_STRING, "string"@, old(self).rest(), old(self).head) {
                Ok((v, n)) => r is Ok && r->Ok_0@ == text_of(v) && final(self).advanced(
                    *old(self),
                    n,
                ),
                Err(e) => r is Err && r->Err_0@ == e && *final(self) == *old(self),
            },
    {
        let data = self.read_payload(TAG_STRING, "string")?;
        let owned = bytes_to_vec(&data);
        Ok(from_utf8_lossy(owned.as_slice()))
    }

    /// Looks at the header under the cursor: the tag of a string, a binary
    /// value or a container, and the length prefix behind it.  Gives the
    /// number of bytes of the header and the length it declares, and leaves
    /// the cursor where it is.
    pub fn read_header(&self, base: u8, kind: &str) -> (r: Result<(usize, u64), ReadBonErr>)
        requires
            base == TAG_STRING || base == TAG_BINARY || base == TAG_CONTAINER,
        ensures
            match header_read(base, kind@, self.rest(), self.head) {
                Ok((start, len)) => r == Ok::<(usize, u64), ReadBonErr>(
                    (start as usize, len as u64),
                ) && start <= 7 && len <= 0xFFFF_FFFF_FFFF,
                Err(e) => r is Err && r->Err_0@ == e,
            },
    {
        self.probe_border(1)?;
        let mut rest = self.remaining();
        let ghost s = rest@;
        let t = get_u8(&mut rest);
        if t < base || t > base + 68 {
            return Err(ReadBonErr::type_no_match(kind.to_owned(), t, self.head));
        }
        if t <= base + 64 {
            return Ok((1, (t - base) as u64));
        }
        let width: usize = if t == base + 65 {
            1
        } else if t == base + 66 {
            2
        } else if t == base + 67 {
            4
        } else {
            6
        };
        if rest.len() < width {
            return Err(ReadBonErr::overflow(width, rest.len()));
        }
        let len = take_le(&mut rest, width);
        proof {
            lemma_radix_values();
            crate::endian::lemma_le_value_bound(s.skip(1).take(width as int));
            assert(s.skip(1).take(width as int) =~= s.subrange(1, 1 + width));
        }
        Ok((1 + width, len as u64))
    }

    /// Reads the header of a container and its type hash, and hands over to
    /// `read_next` with the hash and the length that the header declares
    /// for the body, type hash included.  What `read_next` answers is the
    /// result, and the cursor is where `read_next` left it.  Where the
    /// header cannot be read, `read_next` is not called and the cursor
    /// stays.
    pub fn read_container<T, F>(&mut self, read_next: F) -> (r: Result<T, ReadBonErr>) where
        F: FnOnce(&mut ReadBuffer, u32, u64) -> Result<T, ReadBonErr>,

        requires
            forall|w: &mut ReadBuffer, hash: u32, len: u64| call_requires(read_next, (w, hash, len)),
        ensures
            container_read(old(self).rest(), old(self).head) matches Ok(found) ==> exists|
                w: &mut ReadBuffer,
            |
                {
                    &&& w.advanced(*old(self), found.2)
                    &&& #[trigger] call_ensures(read_next, (w, found.0, found.1), r)
                    &&& *final(self) == *final(w)
                },
            container_read(old(self).rest(), old(self).head) matches Err(e) ==> r is Err
                && r->Err_0@ == e && *final(self) == *old(self),
    {
        let (start, len) = self.read_header(TAG_CONTAINER, "container")?;
        let mut rest = self.remaining();
        let ghost s = rest@;
        crate::outside::advance(&mut rest, start);
        if rest.len() < 4 {
            return Err(ReadBonErr::overflow(4, rest.len()));
        }
        let hash = get_u32_le(&mut rest);
        assert(s.skip(start as int).take(4) =~= s.subrange(start as int, start + 4));
        self.advance(start + 4);
        let r = read_next(self, hash, len);
        let ghost found = container_read(old(self).rest(), old(self).head)->Ok_0;
        assert(found.0 == hash && found.1 == len && found.2 == start + 4);
        r
    }

    /// Reads a single-precision number and gives its bit pattern.
    pub fn read_f32_bits(&mut self) -> (r: Result<u32, ReadBonErr>)
        ensures
            match binary32_read(old(self).rest(), old(self).head) {
                Ok((v, n)) => r == Ok::<u32, ReadBonErr>(v) && final(self).advanced(*old(self), n),
                Err(e) => r is Err && r->Err_0@ == e && *final(self) == *old(self),
            },
    {
        let t = self.get_type_chunk()?;
        if t == TAG_ZERO {
            self.advance(1);
            Ok(0)
        } else if t == TAG_ONE {
            self.advance(1);
            Ok(BINARY32_ONE)
        } else if t == TAG_BINARY32 {
            let mut rest = self.remaining();
            let ghost s = rest@;
            crate::outside::advance(&mut rest, 1);
            if rest.len() < 4 {
                return Err(ReadBonErr::overflow(4, rest.len()));
            }
            let bits = get_u32_le(&mut rest);
            assert(s.skip(1).take(4) =~= s.subrange(1, 5));
            self.advance(5);
            Ok(bits)
        } else if t >= TAG_NEGATIVE && t < TAG_STRING {
            let v = self.read_integer()?;
            Ok(binary32_of_integer(v.to_u32()))
        } else {
            Err(ReadBonErr::type_no_match("f32".to_owned(), t, self.head))
        }
    }

    /// Reads a double-precision number and gives its bit pattern.
    pub fn read_f64_bits(&mut self) -> (r: Result<u64, ReadBonErr>)
        ensures
            match binary64_read(old(self).rest(), old(self).head) {
                Ok((v, n)) => r == Ok::<u64, ReadBonErr>(v) && final(self).advanced(*old(self), n),
                Err(e) => r is Err && r->Err_0@ == e && *final(self) == *old(self),
            },
    {
        let t = self.get_type_chunk()?;
        if t == TAG_ZERO {
            self.advance(1);
            Ok(0)
        } else if t == TAG_ONE {
            self.advance(1);
            Ok(BINARY64_ONE)
        } else if t == TAG_BINARY32 {
            let mut rest = self.remaining();
            let ghost s = rest@;
            crate::outside::advance(&mut rest, 1);
            if rest.len() < 4 {
                return Err(ReadBonErr::overflow(4, rest.len()));
            }
            let bits = get_u32_le(&mut rest);
            assert(s.skip(1).take(4) =~= s.subrange(1, 5));
            self.advance(5);
            Ok(binary64_of_binary32(bits))
        } else if t == TAG_BINARY64 {
            let mut rest = self.remaining();
            let ghost s = rest@;
            crate::outside::advance(&mut rest, 1);
            if rest.len() < 8 {
                return Err(ReadBonErr::overflow(8, rest.len()));
            }
            let bits = get_u64_le(&mut rest);
            assert(s.skip(1).take(8) =~= s.subrange(1, 9));
            self.advance(9);
            Ok(bits)
        } else if t >= TAG_NEGATIVE && t < TAG_STRING {
            let v = self.read_integer()?;
            Ok(binary64_of_integer(false, v.to_u64()))
        } else {
            Err(ReadBonErr::type_no_match("f64".to_owned(), t, self.head))
        }
    }

    /// Reads the next value, whatever it is.  A container is not read this
    /// way: one with a length prefix is reported as such, for the caller to
    /// go through [`read_container`](Self::read_container), and the tag of
    /// any other is unexpected.
    pub fn read(&mut self) -> (r: Result<EnumValue, ReadBonErr>)
        ensures
            match value_read(old(self).rest(), old(self).head) {
                Ok((v, n)) => r is Ok && r->Ok_0.scalar() == v && final(self).advanced(
                    *old(self),
                    n,
                ),
                Err(e) => r is Err && r->Err_0@ == e && *final(self) == *old(self),
            },
    {
        let first = self.get_type_chunk()?;
        if first == TAG_NIL {
            self.advance(1);
            Ok(EnumValue::Void)
        } else if first == TAG_FALSE || first == TAG_TRUE {
            self.advance(1);
            Ok(EnumValue::Bool(first == TAG_TRUE))
        } else if first == 5 {
            Err(ReadBonErr::other("16-bit float unsupported".to_owned()))
        } else if first == 8 {
            Err(ReadBonErr::other("128-bit float unsupported".to_owned()))
        } else if first == TAG_BINARY64 {
            let bits = self.read_f64_bits()?;
            Ok(EnumValue::F64(bits))
        } else if first < TAG_NEGATIVE {
            let bits = self.read_f32_bits()?;
            Ok(EnumValue::F32(bits))
        } else if first < TAG_STRING {
            let v = self.read_integer()?;
            Ok(
                if first == 9 {
                    EnumValue::I16(v.to_i16())
                } else if first == 10 {
                    EnumValue::I32(v.to_i32())
                } else if first == 11 || first == 13 {
                    EnumValue::I64(v.to_i64())
                } else if first == 12 || first == 39 {
                    EnumValue::F64(binary64_of_integer(first == 12, v.magnitude as u64))
                } else if first == 14 {
                    EnumValue::I128(v.to_i128())
                } else if first == 15 {
                    EnumValue::I8(v.to_i8())
                } else if first <= 36 {
                    EnumValue::U8(v.to_u8())
                } else if first == 37 {
                    EnumValue::U16(v.to_u16())
                } else if first == 38 {
                    EnumValue::U32(v.to_u32())
                } else if first == 40 {
                    EnumValue::U64(v.to_u64())
                } else {
                    EnumValue::U128(v.to_u128())
                },
            )
        } else if first < TAG_BINARY {
            let text = self.read_utf8_inner(first)?;
            Ok(EnumValue::Str(text))
        } else if first < TAG_CONTAINER {
            let data = self.read_bin_inner(first)?;
            Ok(EnumValue::Bin(data))
        } else if first >= 245 && first <= 248 {
            Err(ReadBonErr::IsContainer(first))
        } else {
            Err(ReadBonErr::other(numbered("Unexpected type: ", first as u64)))
        }
    }

    /// Tells whether the next value is null, and takes it if so.
    pub fn is_nil(&mut self) -> (r: Result<bool, ReadBonErr>)
        ensures
            old(self).rest().len() == 0 ==> r is Err && r->Err_0@ == short(1, 0) && *final(self)
                == *old(self),
            old(self).rest().len() > 0 && old(self).rest()[0] == TAG_NIL ==> r == Ok::<
                bool,
                ReadBonErr,
            >(true) && final(self).advanced(*old(self), 1),
            old(self).rest().len() > 0 && old(self).rest()[0] != TAG_NIL ==> r == Ok::<
                bool,
                ReadBonErr,
            >(false) && *final(self) == *old(self),
    {
        let first = self.get_type_chunk()?;
        if first == TAG_NIL {
            self.advance(1);
            Ok(true)
        } else {
            Ok(false)
        }
    }

    /// Reads an integer of any width and sign.
    pub fn read_integer(&mut self) -> (r: Result<Integer, ReadBonErr>)
        ensures
            match integer_read(old(self).rest(), old(self).head) {
                Ok((v, n)) => r is Ok && r->Ok_0.value() == v && final(self).advanced(
                    *old(self),
                    n,
                ),
                Err(e) => r is Err && r->Err_0@ == e && *final(self) == *old(self),
            },
    {
        self.probe_border(1)?;
        let mut rest = self.remaining();
        let ghost s = rest@;
        let t = get_u8(&mut rest);
        if t < TAG_NEGATIVE || t >= TAG_STRING {
            return Err(ReadBonErr::type_no_match("integer".to_owned(), t, self.head));
        }
        if t == 15 {
            self.advance(1);
            return Ok(Integer { negative: true, magnitude: 1 });
        }
        if t >= TAG_SMALL && t < TAG_UNSIGNED {
            self.advance(1);
            return Ok(Integer { negative: false, magnitude: (t - TAG_SMALL) as u128 });
        }
        let negative = t < 15;
        let class = if negative {
            t - TAG_NEGATIVE
        } else {
            t - TAG_UNSIGNED
        };
        let width: usize = if class == 0 {
            1
        } else if class == 1 {
            2
        } else if class == 2 {
            4
        } else if class == 3 {
            6
        } else if class == 4 {
            8
        } else {
            16
        };
        if rest.len() < width {
            return Err(ReadBonErr::overflow(width, rest.len()));
        }
        let magnitude = take_le(&mut rest, width);
        assert(s.skip(1).take(width as int) =~= s.subrange(1, 1 + width));
        self.advance(1 + width);
        Ok(Integer { negative, magnitude })
    }

    /// Checks that `len` bytes are still to be read.
    pub fn probe_border(&self, len: usize) -> (r: Result<(), ReadBonErr>)
        ensures
            len <= self.rest().len() ==> r is Ok,
            len > self.rest().len() ==> r is Err && r->Err_0@ == short(
                len as nat,
                self.rest().len(),
            ),
    {
        let left = self.len();
        if len > left {
            Err(ReadBonErr::overflow(len, left))
        } else {
            Ok(())
        }
    }
}

/// What a read of a boolean finds in the bytes `s` at position `head`.
pub open spec fn bool_read(s: Seq<u8>, head: usize) -> Result<bool, ErrorView> {
    if s.len() == 0 {
        Err(short(1, 0))
    } else if s[0] == TAG_FALSE {
        Ok(false)
    } else if s[0] == TAG_TRUE {
        Ok(true)
    } else {
        Err(mismatch("bool"@, s[0], head))
    }
}

/// A length as a `usize`, or the largest `usize` where it is longer.
pub fn clamp_of(len: u64) -> (r: usize)
    ensures
        r == clamp(len as nat),
{
    if len > usize::MAX as u64 {
        usize::MAX
    } else {
        len as usize
    }
}

} // verus!
