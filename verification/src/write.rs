//! The write sink: an append-only byte buffer with typed writes.

use crate::endian::le_bytes;
use crate::endian::lemma_le_bytes_split;
use crate::endian::lemma_radix_values;
use crate::error::ErrorView;
use crate::error::ReadBonErr;
use crate::outside::capacity;
use crate::outside::decimal;
use crate::outside::numbered;
use crate::outside::put;
use crate::outside::put_u128_le;
use crate::outside::put_u16_le;
use crate::outside::put_u32_le;
use crate::outside::put_u64_le;
use crate::outside::put_u8;
use crate::outside::reserve_exact;
use crate::wire::band;
use crate::wire::container_encoding;
use crate::wire::final_band;
use crate::wire::frame_band;
use crate::wire::frame_header;
use crate::wire::frame_width;
use crate::wire::TAG_CONTAINER;
use crate::wire::band_width;
use crate::wire::binary32_encoding;
use crate::wire::binary64_encoding;
use crate::wire::bool_encoding;
use crate::wire::data_encoding;
use crate::wire::int_encoding;
use crate::wire::lemma_le_bytes_one;
use crate::wire::lengthen_encoding;
use crate::wire::nil_encoding;
use crate::wire::BINARY32_ONE;
use crate::wire::BINARY64_ONE;
use crate::wire::LENGTHEN_LIMIT;
use crate::wire::TAG_BINARY;
use crate::wire::TAG_BINARY32;
use crate::wire::TAG_BINARY64;
use crate::wire::TAG_FALSE;
use crate::wire::TAG_NEGATIVE;
use crate::wire::TAG_NIL;
use crate::wire::TAG_ONE;
use crate::wire::TAG_STRING;
use crate::wire::TAG_TRUE;
use crate::wire::TAG_UNSIGNED;
use crate::wire::TAG_ZERO;
use std::ops::Range;
use vstd::prelude::*;
use vstd::utf8::encode_utf8;

verus! {

/// Above this capacity the buffer grows by just what a write needs.
pub const EXACT_GROWTH_ABOVE: usize = 4194304;

/// A growing byte buffer that values are encoded into.
///
/// Every write appends to `bytes` and adds the number of bytes it wrote to
/// the tail, the count of bytes written.
#[derive(Debug, Hash)]
pub struct WriteBuffer {
    /// Everything written so far.
    pub bytes: Vec<u8>,
    /// The count of bytes written.
    pub tail: usize,
}

/// The size that a container is reserved for where the caller names none.
pub open spec fn estimate_of(estimated_size: Option<usize>) -> nat {
    match estimated_size {
        Some(v) => v as nat,
        None => 0xffff,
    }
}

/// `n` zero bytes, which hold the place of a header.
pub open spec fn placeholder(n: nat) -> Seq<u8> {
    Seq::new(n, |i: int| 0u8)
}

/// How a container write ends, given the body that was written for it and
/// what its writer answered: `after` is `before` with the container
/// appended, or `before` again where the writer failed, whose error is
/// then the result, or where the estimate or the body passes the 48 bits
/// that a header holds.
pub open spec fn contained(
    before: WriteBuffer,
    after: WriteBuffer,
    estimate: nat,
    body: Seq<u8>,
    out: Result<(), ReadBonErr>,
    r: Result<(), ReadBonErr>,
) -> bool {
    if out is Err {
        &&& r == out
        &&& after.same(before)
    } else if final_band(estimate, body.len()) == 5 {
        &&& r is Err
        &&& r->Err_0@ == ErrorView::Other("Container overflow"@)
        &&& after.same(before)
    } else {
        &&& r is Ok
        &&& after.appended(before, container_encoding(estimate, body))
    }
}

/// The width class of a length, as a number from 0 to 5.
pub fn frame_band_of(len: u64) -> (b: u8)
    ensures
        b == frame_band(len as nat),
{
    if len <= 64 {
        0
    } else if len <= 0xFF {
        1
    } else if len <= 0xFFFF {
        2
    } else if len <= 0xFFFF_FFFF {
        3
    } else if len <= 0xFFFF_FFFF_FFFF {
        4
    } else {
        5
    }
}

/// The number of header bytes of a width class.
pub fn frame_width_of(b: u8) -> (w: usize)
    ensures
        w == frame_width(b as nat),
{
    if b == 0 {
        1
    } else if b == 1 {
        2
    } else if b == 2 {
        3
    } else if b == 3 {
        5
    } else if b == 4 {
        7
    } else {
        9
    }
}

/// Moves the bytes of `range` forward so that they start at `offset`, and
/// lengthens the vector where they would pass its end.  The bytes before
/// `offset` stay, and so do those behind the moved part.
pub fn move_part(bytes: &mut Vec<u8>, range: Range<usize>, offset: usize)
    requires
        range.start <= range.end <= old(bytes)@.len(),
        range.start <= offset <= old(bytes)@.len(),
    ensures
        final(bytes)@.len() == moved_len(old(bytes)@.len(), range.end - range.start, offset as int),
        forall|i: int|
            0 <= i < final(bytes)@.len() ==> #[trigger] final(bytes)@[i] == (if offset <= i < offset
                + (range.end - range.start) {
                old(bytes)@[range.start + (i - offset)]
            } else {
                old(bytes)@[i]
            }),
{
    let dl = range.end - range.start;
    let shift = offset - range.start;
    let slack = bytes.len() - range.end;
    let grow = if shift > slack {
        shift - slack
    } else {
        0
    };
    let mut g: usize = 0;
    while g < grow
        invariant
            g <= grow,
            bytes@.len() == old(bytes)@.len() + g,
            bytes@.take(old(bytes)@.len() as int) == old(bytes)@,
        decreases grow - g,
    {
        put_u8(bytes, 0);
        g = g + 1;
    }
    assert(bytes.len() == bytes@.len());
    let mut i: usize = dl;
    while i > 0
        invariant
            i <= dl,
            dl == range.end - range.start,
            range.start <= range.end <= old(bytes)@.len(),
            range.start <= offset <= old(bytes)@.len(),
            offset + dl <= bytes@.len() <= usize::MAX,
            bytes@.len() == moved_len(old(bytes)@.len(), dl as int, offset as int),
            forall|k: int|
                0 <= k < bytes@.len() ==> #[trigger] bytes@[k] == (if offset + i <= k < offset + dl {
                    old(bytes)@[range.start + (k - offset)]
                } else if k < old(bytes)@.len() {
                    old(bytes)@[k]
                } else {
                    bytes@[k]
                }),
        decreases i,
    {
        i = i - 1;
        let v = bytes[range.start + i];
        bytes.set(offset + i, v);
    }
}

/// The length of a vector after [`move_part`].
pub open spec fn moved_len(len: nat, moved: int, offset: int) -> int {
    if offset + moved > len {
        offset + moved
    } else {
        len as int
    }
}

/// Writes `src` over the bytes from `at` on.
pub fn overwrite(bytes: &mut Vec<u8>, at: usize, src: &Vec<u8>)
    requires
        at + src@.len() <= old(bytes)@.len(),
    ensures
        final(bytes)@ == old(bytes)@.take(at as int) + src@ + old(bytes)@.skip(at + src@.len()),
{
    assert(bytes.len() == bytes@.len());
    let mut i: usize = 0;
    while i < src.len()
        invariant
            i <= src@.len(),
            at + src@.len() <= bytes@.len() <= usize::MAX,
            bytes@.len() == old(bytes)@.len(),
            forall|k: int|
                0 <= k < bytes@.len() ==> #[trigger] bytes@[k] == (if at <= k < at + i {
                    src@[k - at]
                } else {
                    old(bytes)@[k]
                }),
        decreases src@.len() - i,
    {
        bytes.set(at + i, src[i]);
        i = i + 1;
    }
}

impl Default for WriteBuffer {
    fn default() -> (r: WriteBuffer)
        ensures
            r.bytes@.len() == 0,
            r.tail() == 0,
    {
        WriteBuffer::new()
    }
}

impl std::ops::Deref for WriteBuffer {
    type Target = Vec<u8>;

    fn deref(&self) -> (r: &Vec<u8>)
        ensures
            r@ == self.bytes@,
    {
        &self.bytes
    }
}

impl Clone for WriteBuffer {
    fn clone(&self) -> (r: WriteBuffer)
        ensures
            r.bytes@ == self.bytes@,
            r.tail() == self.tail(),
    {
        WriteBuffer { bytes: self.bytes.clone(), tail: self.tail }
    }
}

impl WriteBuffer {
    /// The count of bytes written.
    pub open spec fn spec_tail(&self) -> usize {
        self.tail
    }

    /// The tail never runs ahead of the buffer, so it cannot overflow.
    pub open spec fn wf(&self) -> bool {
        self.tail() <= self.bytes@.len()
    }

    /// This buffer is `before` with `enc` written to it.
    pub open spec fn appended(&self, before: WriteBuffer, enc: Seq<u8>) -> bool {
        &&& self.bytes@ == before.bytes@ + enc
        &&& self.tail() == before.tail() + enc.len()
    }

    /// This buffer holds what `before` holds.
    pub open spec fn same(&self, before: WriteBuffer) -> bool {
        &&& self.bytes@ == before.bytes@
        &&& self.tail() == before.tail()
    }

    /// This buffer is `before` with something written to it.
    pub open spec fn extends(&self, before: WriteBuffer) -> bool {
        &&& before.bytes@.len() <= self.bytes@.len()
        &&& self.bytes@.take(before.bytes@.len() as int) == before.bytes@
        &&& self.tail() - before.tail() == self.bytes@.len() - before.bytes@.len()
    }

    /// An empty buffer.
    pub fn new() -> (r: WriteBuffer)
        ensures
            r.bytes@.len() == 0,
            r.tail() == 0,
    {
        WriteBuffer { bytes: Vec::new(), tail: 0 }
    }

    /// A buffer that goes on after `buf`, of which `tail` bytes count as
    /// written.
    pub fn with_bytes(buf: Vec<u8>, tail: usize) -> (r: WriteBuffer)
        requires
            tail <= buf@.len(),
        ensures
            r.bytes == buf,
            r.tail() == tail,
    {
        WriteBuffer { bytes: buf, tail }
    }

    /// An empty buffer with room for `size` bytes.
    pub fn with_capacity(size: usize) -> (r: WriteBuffer)
        ensures
            r.bytes@.len() == 0,
            r.tail() == 0,
    {
        WriteBuffer { bytes: Vec::with_capacity(size), tail: 0 }
    }

    /// The count of bytes written.
    #[verifier::when_used_as_spec(spec_tail)]
    pub fn tail(&self) -> (r: usize)
        ensures
            r == self.tail(),
    {
        self.tail
    }

    /// The bytes of the buffer.
    pub fn get_byte(&self) -> (r: &Vec<u8>)
        ensures
            r@ == self.bytes@,
    {
        &self.bytes
    }

    /// Gives the bytes of the buffer away.
    pub fn unwrap(self) -> (r: Vec<u8>)
        ensures
            r@ == self.bytes@,
    {
        self.bytes
    }

    /// Starts the count of bytes written again at zero.  The bytes stay.
    pub fn clear(&mut self)
        ensures
            final(self).bytes@ == old(self).bytes@,
            final(self).tail() == 0,
    {
        self.tail = 0;
    }

    /// Writes an integer at the narrowest width.
    pub fn write_u8(&mut self, v: u8)
        requires
            old(self).wf(),
        ensures
            final(self).appended(*old(self), int_encoding(v as int)),
    {
        self.write_uint32(v as u32);
    }

    /// Writes an integer at the narrowest width.
    pub fn write_u16(&mut self, v: u16)
        requires
            old(self).wf(),
        ensures
            final(self).appended(*old(self), int_encoding(v as int)),
    {
        self.write_uint32(v as u32);
    }

    /// Writes an integer at the narrowest width.
    pub fn write_u32(&mut self, v: u32)
        requires
            old(self).wf(),
        ensures
            final(self).appended(*old(self), int_encoding(v as int)),
    {
        self.write_uint32(v);
    }

    /// Writes an integer at the narrowest width.
    pub fn write_u64(&mut self, v: u64)
        requires
            old(self).wf(),
        ensures
            final(self).appended(*old(self), int_encoding(v as int)),
    {
        self.write_uint64(v);
    }

    /// Writes an integer at the narrowest width.
    pub fn write_u128(&mut self, v: u128)
        requires
            old(self).wf(),
        ensures
            final(self).appended(*old(self), int_encoding(v as int)),
    {
        self.write_uint128(v);
    }

    /// Writes an integer at the narrowest width.
    pub fn write_i8(&mut self, v: i8)
        requires
            old(self).wf(),
        ensures
            final(self).appended(*old(self), int_encoding(v as int)),
    {
        self.write_int32(v as i32);
    }

    /// Writes an integer at the narrowest width.
    pub fn write_i16(&mut self, v: i16)
        requires
            old(self).wf(),
        ensures
            final(self).appended(*old(self), int_encoding(v as int)),
    {
        self.write_int32(v as i32);
    }

    /// Writes an integer at the narrowest width.
    pub fn write_i32(&mut self, v: i32)
        requires
            old(self).wf(),
        ensures
            final(self).appended(*old(self), int_encoding(v as int)),
    {
        self.write_int32(v);
    }

    /// Writes an integer at the narrowest width.
    pub fn write_i64(&mut self, v: i64)
        requires
            old(self).wf(),
        ensures
            final(self).appended(*old(self), int_encoding(v as int)),
    {
        self.write_int64(v);
    }

    /// Writes an integer at the narrowest width.
    pub fn write_i128(&mut self, v: i128)
        requires
            old(self).wf(),
        ensures
            final(self).appended(*old(self), int_encoding(v as int)),
    {
        self.write_int128(v);
    }

    /// Writes the null value.
    pub fn write_nil(&mut self)
        requires
            old(self).wf(),
        ensures
            final(self).appended(*old(self), nil_encoding()),
    {
        self.write_tag(TAG_NIL);
    }

    /// Writes a boolean.
    pub fn write_bool(&mut self, v: bool)
        requires
            old(self).wf(),
        ensures
            final(self).appended(*old(self), bool_encoding(v)),
    {
        self.write_tag(
            if v {
                TAG_TRUE
            } else {
                TAG_FALSE
            },
        );
    }

    /// Writes the single-precision number with the bit pattern `bits`.
    pub fn write_f32_bits(&mut self, bits: u32)
        requires
            old(self).wf(),
        ensures
            final(self).appended(*old(self), binary32_encoding(bits)),
    {
        if bits == 0 {
            self.write_tag(TAG_ZERO);
        } else if bits == BINARY32_ONE {
            self.write_tag(TAG_ONE);
        } else {
            self.write_32(bits, TAG_BINARY32);
        }
    }

    /// Writes the double-precision number with the bit pattern `bits`.
    pub fn write_f64_bits(&mut self, bits: u64)
        requires
            old(self).wf(),
        ensures
            final(self).appended(*old(self), binary64_encoding(bits)),
    {
        if bits == 0 {
            self.write_tag(TAG_ZERO);
        } else if bits == BINARY64_ONE {
            self.write_tag(TAG_ONE);
        } else {
            self.write_64(bits, TAG_BINARY64);
        }
    }

    /// Writes a count as a dynamic length prefix of 1, 2 or 4 bytes, the
    /// longer forms in little-endian order.  A count of `0x2000_0000` or
    /// more is refused and nothing is written.
    pub fn write_lengthen(&mut self, t: u32) -> (r: Result<(), ReadBonErr>)
        requires
            old(self).wf(),
        ensures
            t < LENGTHEN_LIMIT ==> r is Ok && final(self).appended(
                *old(self),
                lengthen_encoding(t as nat),
            ),
            t >= LENGTHEN_LIMIT ==> r is Err && r->Err_0@ == ErrorView::Other(
                "Invalid lengthen: "@ + decimal(t as nat),
            ) && final(self).same(*old(self)),
    {
        if t < 0x80 {
            self.try_extend_capity(1);
            put_u8(&mut self.bytes, t as u8);
            self.count(1);
            assert(self.bytes@ =~= old(self).bytes@ + lengthen_encoding(t as nat));
        } else if t < 0x4000 {
            self.try_extend_capity(2);
            put_u16_le(&mut self.bytes, (0x8000 + t) as u16);
            proof {
                crate::endian::lemma_le_bytes_len(0x8000 + t as nat, 2);
            }
            self.count(2);
        } else if t < LENGTHEN_LIMIT {
            self.try_extend_capity(4);
            put_u32_le(&mut self.bytes, 0xC000_0000 + t);
            proof {
                crate::endian::lemma_le_bytes_len(0xC000_0000 + t as nat, 4);
            }
            self.count(4);
        } else {
            return Err(ReadBonErr::other(numbered("Invalid lengthen: ", t as u64)));
        }
        Ok(())
    }

    /// Writes a string.
    pub fn write_utf8(&mut self, s: &str)
        requires
            old(self).wf(),
        ensures
            final(self).appended(*old(self), data_encoding(TAG_STRING, encode_utf8(s@))),
    {
        self.write_data(s.as_bytes(), TAG_STRING);
    }

    /// Writes the bytes of `arr` in `range` as a binary value.
    pub fn write_bin(&mut self, arr: &[u8], range: Range<usize>)
        requires
            old(self).wf(),
            range.start <= range.end <= arr@.len(),
        ensures
            final(self).appended(
                *old(self),
                data_encoding(TAG_BINARY, arr@.subrange(range.start as int, range.end as int)),
            ),
    {
        let part = vstd::slice::slice_subrange(arr, range.start, range.end);
        self.write_data(part, TAG_BINARY);
    }

    /// Writes a container: a header, and after it what `write_next` writes
    /// for `o`, which is the type hash in four bytes and then the children.
    ///
    /// The header is reserved before `write_next` runs, at the width that
    /// `estimated_size` (`0xFFFF` where there is none) calls for.  Where the
    /// body outgrows it, the body is moved forward and the header widened.
    /// The length in the header counts the body, type hash included.
    ///
    /// For every estimate the header is reserved and `write_next` runs.
    /// Where it fails, its error is the result.  Where it succeeds but the
    /// estimate or the body passes the 48 bits that a header holds, the
    /// result is the error "Container overflow".  Either way the buffer is
    /// then as it was before.
    pub fn write_container<T, F>(
        &mut self,
        o: &T,
        write_next: F,
        estimated_size: Option<usize>,
    ) -> (r: Result<(), ReadBonErr>) where F: Fn(&mut WriteBuffer, &T) -> Result<(), ReadBonErr>
        requires
            old(self).wf(),
            forall|w: &mut WriteBuffer| w.wf() ==> call_requires(write_next, (w, o)),
            forall|w: &mut WriteBuffer, out: Result<(), ReadBonErr>|
                w.wf() && call_ensures(write_next, (w, o), out) ==> final(w).extends(*w),
        ensures
            final(self).wf(),
            exists|w: &mut WriteBuffer, out: Result<(), ReadBonErr>|
                {
                    &&& w.appended(
                        *old(self),
                        placeholder(frame_width(frame_band(estimate_of(estimated_size)))),
                    )
                    &&& #[trigger] call_ensures(write_next, (w, o), out)
                    &&& contained(
                        *old(self),
                        *final(self),
                        estimate_of(estimated_size),
                        final(w).bytes@.skip(w.bytes@.len() as int),
                        out,
                        r,
                    )
                },
    {
        let estimate: usize = match estimated_size {
            Some(v) => v,
            None => 0xffff,
        };
        let reserved = frame_band_of(estimate as u64);
        let start = self.bytes.len();
        let tail = self.tail;
        let header = frame_width_of(reserved);
        if reserved < 5 {
            self.try_extend_capity(estimate.saturating_add(header + 4));
        }
        self.reserve_frame(header);
        let ghost entered = *self;
        assert(self.wf());
        let out = write_next(self, o);
        let ghost body = self.bytes@.skip(entered.bytes@.len() as int);
        assert(self.bytes@.take(start as int) =~= old(self).bytes@);
        match out {
            Ok(()) => {
                let r = self.close_frame(start, tail, reserved);
                proof {
                    if final_band(estimate as nat, body.len()) < 5 {
                        crate::wire::lemma_frame_header_len(
                            final_band(estimate as nat, body.len()),
                            body.len(),
                        );
                    }
                }
                assert(r is Ok ==> self.bytes@ =~= old(self).bytes@ + container_encoding(
                    estimate as nat,
                    body,
                ));
                r
            },
            Err(e) => {
                self.bytes.truncate(start);
                self.tail = tail;
                Err(e)
            },
        }
    }

    /// Appends `n` bytes that stand in for a header to come.
    fn reserve_frame(&mut self, n: usize)
        requires
            old(self).wf(),
            n <= 9,
        ensures
            final(self).appended(*old(self), placeholder(n as nat)),
    {
        let mut i: usize = 0;
        while i < n
            invariant
                i <= n <= 9,
                self.appended(*old(self), placeholder(i as nat)),
                old(self).wf(),
            decreases n - i,
        {
            put_u8(&mut self.bytes, 0);
            self.count(1);
            i = i + 1;
            assert(self.bytes@ =~= old(self).bytes@ + placeholder(i as nat));
        }
    }

    /// Turns the reserved header at `start` into the header of the body
    /// that follows it, as [`write_container`](Self::write_container) says.
    fn close_frame(&mut self, start: usize, tail: usize, reserved: u8) -> (r: Result<
        (),
        ReadBonErr,
    >)
        requires
            reserved <= 5,
            start + frame_width(reserved as nat) <= old(self).bytes@.len(),
            tail <= start,
            old(self).tail() == tail + (old(self).bytes@.len() - start),
        ensures
            final(self).wf(),
            ({
                let body = old(self).bytes@.skip(start + frame_width(reserved as nat));
                let b = if reserved >= frame_band(body.len()) {
                    reserved as nat
                } else {
                    frame_band(body.len())
                };
                if b == 5 {
                    &&& r is Err
                    &&& r->Err_0@ == ErrorView::Other("Container overflow"@)
                    &&& final(self).bytes@ == old(self).bytes@.take(start as int)
                    &&& final(self).tail() == tail
                } else {
                    &&& r is Ok
                    &&& final(self).bytes@ == old(self).bytes@.take(start as int) + frame_header(
                        b,
                        body.len(),
                    ) + body
                    &&& final(self).tail() == tail + frame_width(b) + body.len()
                }
            }),
    {
        let old_width = frame_width_of(reserved);
        let end = self.bytes.len();
        let len = end - (start + old_width);
        let needed = frame_band_of(len as u64);
        let b = if reserved >= needed {
            reserved
        } else {
            needed
        };
        if b == 5 {
            self.bytes.truncate(start);
            self.tail = tail;
            return Err(ReadBonErr::other("Container overflow".to_owned()));
        }
        let width = frame_width_of(b);
        if width > old_width {
            let offset = width - old_width;
            self.try_extend_capity(offset);
            move_part(&mut self.bytes, start + old_width..end, start + width);
            self.count(offset);
        }
        let mut head: Vec<u8> = Vec::new();
        proof {
            lemma_le_bytes_one(len as nat);
            crate::endian::lemma_le_bytes_len(len as nat, 2);
            crate::endian::lemma_le_bytes_len(len as nat, 4);
            crate::endian::lemma_le_bytes_len(len as nat, 6);
        }
        if b == 0 {
            put_u8(&mut head, TAG_CONTAINER + len as u8);
        } else if b == 1 {
            put_u8(&mut head, 245);
            put_u8(&mut head, len as u8);
        } else if b == 2 {
            put_u8(&mut head, 246);
            put_u16_le(&mut head, len as u16);
        } else if b == 3 {
            put_u8(&mut head, 247);
            put_u32_le(&mut head, len as u32);
        } else {
            put_u8(&mut head, 248);
            put_u16_le(&mut head, (len as u64 % 0x1_0000) as u16);
            put_u32_le(&mut head, (len as u64 / 0x1_0000) as u32);
            proof {
                lemma_radix_values();
                lemma_le_bytes_split(len as nat, 2, 4);
            }
        }
        overwrite(&mut self.bytes, start, &head);
        Ok(())
    }

    /// Counts `n` bytes, already appended, as written.
    fn count(&mut self, n: usize)
        requires
            old(self).tail() + n <= old(self).bytes@.len(),
        ensures
            final(self).bytes == old(self).bytes,
            final(self).tail() == old(self).tail() + n,
    {
        assert(self.bytes.len() == self.bytes@.len());
        self.tail = self.tail + n;
    }

    /// Makes room for `len` more bytes: with the vector's own growth while
    /// the buffer is small, and by just `len` above 4 MiB.
    fn extend_capity(&mut self, len: usize)
        ensures
            final(self).same(*old(self)),
    {
        let room = capacity(&self.bytes);
        let used = self.bytes.len();
        let how = growth_for(room, used, len);
        match how {
            Growth::Exact => {
                reserve_exact(&mut self.bytes, len);
            },
            Growth::Amortized => self.bytes.reserve(len),
            Growth::Unreserved => {},
        }
    }

    /// Makes room for `len` more bytes where there is not yet.
    fn try_extend_capity(&mut self, len: usize)
        ensures
            final(self).same(*old(self)),
    {
        let room = capacity(&self.bytes);
        let used = self.bytes.len();
        if lacks_room(room, used, len) {
            self.extend_capity(len);
        }
    }

    /// Writes a string or binary value: the header for `t`, 42 or 111, and
    /// the payload.
    fn write_data(&mut self, arr: &[u8], t: u8)
        requires
            old(self).wf(),
            t == TAG_STRING || t == TAG_BINARY,
        ensures
            final(self).appended(*old(self), data_encoding(t, arr@)),
    {
        let length = arr.len();
        let ghost before = self.bytes@;
        proof {
            lemma_le_bytes_one(length as nat);
            crate::endian::lemma_le_bytes_len(length as nat, 2);
            crate::endian::lemma_le_bytes_len(length as nat, 4);
            crate::endian::lemma_le_bytes_len(length as nat, 6);
            crate::endian::lemma_le_bytes_len(length as nat, 8);
        }
        if length <= 64 {
            self.try_extend_capity(1 + length);
            put_u8(&mut self.bytes, t + length as u8);
            self.count(1);
        } else if length <= 0xff {
            self.try_extend_capity(2 + length);
            put_u8(&mut self.bytes, t + 65);
            put_u8(&mut self.bytes, length as u8);
            self.count(2);
        } else if length <= 0xffff {
            self.try_extend_capity(3 + length);
            put_u8(&mut self.bytes, t + 66);
            put_u16_le(&mut self.bytes, length as u16);
            self.count(3);
        } else if length as u64 <= 0xffff_ffff {
            self.try_extend_capity(length.saturating_add(5));
            put_u8(&mut self.bytes, t + 67);
            put_u32_le(&mut self.bytes, length as u32);
            self.count(5);
        } else if length as u64 <= 0xffff_ffff_ffff {
            self.try_extend_capity(length.saturating_add(7));
            put_u8(&mut self.bytes, t + 68);
            put_u16_le(&mut self.bytes, (length as u64 % 0x1_0000) as u16);
            put_u32_le(&mut self.bytes, (length as u64 / 0x1_0000) as u32);
            proof {
                lemma_radix_values();
                lemma_le_bytes_split(length as nat, 2, 4);
            }
            self.count(7);
        } else {
            self.try_extend_capity(length.saturating_add(9));
            put_u8(&mut self.bytes, t + 69);
            put_u64_le(&mut self.bytes, length as u64);
            self.count(9);
        }
        put(&mut self.bytes, arr);
        self.count(length);
        assert(self.bytes@ =~= before + data_encoding(t, arr@));
    }

    /// Writes a signed integer of up to 32 bits.
    fn write_int32(&mut self, v: i32)
        requires
            old(self).wf(),
        ensures
            final(self).appended(*old(self), int_encoding(v as int)),
    {
        if v >= -1 && v < 20 {
            self.write_common(v as i8);
        } else if v < 0 {
            self.writei_32((-(v as i64)) as u32, TAG_NEGATIVE);
        } else {
            self.writei_32(v as u32, TAG_UNSIGNED);
        }
    }

    /// Writes a signed integer of up to 64 bits.
    fn write_int64(&mut self, v: i64)
        requires
            old(self).wf(),
        ensures
            final(self).appended(*old(self), int_encoding(v as int)),
    {
        if v >= -1 && v < 20 {
            self.write_common(v as i8);
            return ;
        }
        let negative = v < 0;
        let t = if negative {
            TAG_NEGATIVE
        } else {
            TAG_UNSIGNED
        };
        let magnitude: u64 = if negative {
            (-(v as i128)) as u64
        } else {
            v as u64
        };
        if magnitude <= 0xFFFF_FFFF {
            self.writei_32(magnitude as u32, t);
        } else {
            self.writei_64(magnitude, t);
        }
    }

    /// Writes a signed integer of up to 128 bits.
    fn write_int128(&mut self, v: i128)
        requires
            old(self).wf(),
        ensures
            final(self).appended(*old(self), int_encoding(v as int)),
    {
        if v >= -1 && v < 20 {
            self.write_common(v as i8);
            return ;
        }
        let negative = v < 0;
        let t = if negative {
            TAG_NEGATIVE
        } else {
            TAG_UNSIGNED
        };
        let magnitude: u128 = if !negative {
            v as u128
        } else if v == i128::MIN {
            0x8000_0000_0000_0000_0000_0000_0000_0000
        } else {
            (-v) as u128
        };
        if magnitude <= 0xFFFF_FFFF {
            self.writei_32(magnitude as u32, t);
        } else if magnitude <= 0xFFFF_FFFF_FFFF_FFFF {
            self.writei_64(magnitude as u64, t);
        } else {
            self.write_128(magnitude, t + 5);
        }
    }

    /// Writes an unsigned integer of up to 32 bits.
    fn write_uint32(&mut self, v: u32)
        requires
            old(self).wf(),
        ensures
            final(self).appended(*old(self), int_encoding(v as int)),
    {
        if v < 20 {
            self.write_common(v as i8);
        } else {
            self.writeu_32(v);
        }
    }

    /// Writes an unsigned integer of up to 64 bits.
    fn write_uint64(&mut self, v: u64)
        requires
            old(self).wf(),
        ensures
            final(self).appended(*old(self), int_encoding(v as int)),
    {
        if v < 20 {
            self.write_common(v as i8);
        } else if v <= 0xFFFF_FFFF {
            self.writeu_32(v as u32);
        } else {
            self.writeu_64(v);
        }
    }

    /// Writes an unsigned integer of up to 128 bits.
    fn write_uint128(&mut self, v: u128)
        requires
            old(self).wf(),
        ensures
            final(self).appended(*old(self), int_encoding(v as int)),
    {
        if v < 20 {
            self.write_common(v as i8);
        } else if v <= 0xFFFF_FFFF {
            self.writeu_32(v as u32);
        } else if v <= 0xFFFF_FFFF_FFFF_FFFF {
            self.writeu_64(v as u64);
        } else {
            self.write_128(v, TAG_UNSIGNED + 5);
        }
    }

    /// Writes a magnitude of up to 32 bits under the first tag `t` of its
    /// sign, 9 or 36.
    fn writei_32(&mut self, v: u32, t: u8)
        requires
            old(self).wf(),
            t == TAG_NEGATIVE || t == TAG_UNSIGNED,
        ensures
            final(self).appended(
                *old(self),
                seq![(t + band(v as nat)) as u8] + le_bytes(v as nat, band_width(band(v as nat))),
            ),
    {
        if v <= 0xFF {
            self.write_8(v as u8, t);
        } else if v <= 0xFFFF {
            self.write_16(v as u16, t + 1);
        } else {
            self.write_32(v, t + 2);
        }
    }

    /// Writes a magnitude beyond 32 bits under the first tag `t` of its
    /// sign.
    fn writei_64(&mut self, v: u64, t: u8)
        requires
            old(self).wf(),
            t == TAG_NEGATIVE || t == TAG_UNSIGNED,
            v > 0xFFFF_FFFF,
        ensures
            final(self).appended(
                *old(self),
                seq![(t + band(v as nat)) as u8] + le_bytes(v as nat, band_width(band(v as nat))),
            ),
    {
        if v <= 0xFFFF_FFFF_FFFF {
            self.write_48(v, t + 3);
        } else {
            self.write_64(v, t + 4);
        }
    }

    /// Writes a non-negative integer of up to 32 bits that has no tag of
    /// its own.
    fn writeu_32(&mut self, v: u32)
        requires
            old(self).wf(),
            v >= 20,
        ensures
            final(self).appended(*old(self), int_encoding(v as int)),
    {
        if v <= 0xFF {
            self.write_8(v as u8, TAG_UNSIGNED);
        } else if v <= 0xFFFF {
            self.write_16(v as u16, TAG_UNSIGNED + 1);
        } else {
            self.write_32(v, TAG_UNSIGNED + 2);
        }
    }

    /// Writes a non-negative integer beyond 32 bits.
    fn writeu_64(&mut self, v: u64)
        requires
            old(self).wf(),
            v > 0xFFFF_FFFF,
        ensures
            final(self).appended(*old(self), int_encoding(v as int)),
    {
        if v <= 0xFFFF_FFFF_FFFF {
            self.write_48(v, TAG_UNSIGNED + 3);
        } else {
            self.write_64(v, TAG_UNSIGNED + 4);
        }
    }

    /// Writes one of the integers from -1 to 19, which are their own tags.
    fn write_common(&mut self, v: i8)
        requires
            old(self).wf(),
            -1 <= v < 20,
        ensures
            final(self).appended(*old(self), int_encoding(v as int)),
    {
        self.write_tag((v + 16) as u8);
    }

    /// Writes a value that is all tag.
    fn write_tag(&mut self, t: u8)
        requires
            old(self).wf(),
        ensures
            final(self).appended(*old(self), seq![t]),
    {
        self.try_extend_capity(1);
        put_u8(&mut self.bytes, t);
        self.count(1);
        assert(self.bytes@ =~= old(self).bytes@ + seq![t]);
    }

    /// Writes the tag `t` and one byte of payload.
    fn write_8(&mut self, v: u8, t: u8)
        requires
            old(self).wf(),
        ensures
            final(self).appended(*old(self), seq![t] + le_bytes(v as nat, 1)),
    {
        self.try_extend_capity(2);
        put_u8(&mut self.bytes, t);
        put_u8(&mut self.bytes, v);
        proof {
            lemma_le_bytes_one(v as nat);
            assert(self.bytes@ =~= old(self).bytes@ + (seq![t] + le_bytes(v as nat, 1)));
        }
        self.count(2);
    }

    /// Writes the tag `t` and two bytes of payload.
    fn write_16(&mut self, v: u16, t: u8)
        requires
            old(self).wf(),
        ensures
            final(self).appended(*old(self), seq![t] + le_bytes(v as nat, 2)),
    {
        self.try_extend_capity(3);
        put_u8(&mut self.bytes, t);
        put_u16_le(&mut self.bytes, v);
        proof {
            crate::endian::lemma_le_bytes_len(v as nat, 2);
            assert(self.bytes@ =~= old(self).bytes@ + (seq![t] + le_bytes(v as nat, 2)));
        }
        self.count(3);
    }

    /// Writes the tag `t` and four bytes of payload.
    fn write_32(&mut self, v: u32, t: u8)
        requires
            old(self).wf(),
        ensures
            final(self).appended(*old(self), seq![t] + le_bytes(v as nat, 4)),
    {
        self.try_extend_capity(5);
        put_u8(&mut self.bytes, t);
        put_u32_le(&mut self.bytes, v);
        proof {
            crate::endian::lemma_le_bytes_len(v as nat, 4);
            assert(self.bytes@ =~= old(self).bytes@ + (seq![t] + le_bytes(v as nat, 4)));
        }
        self.count(5);
    }

    /// Writes the tag `t` and six bytes of payload: the low 16 bits, then
    /// the high 32 bits, which together are the six bytes in little-endian
    /// order.
    fn write_48(&mut self, v: u64, t: u8)
        requires
            old(self).wf(),
            v <= 0xFFFF_FFFF_FFFF,
        ensures
            final(self).appended(*old(self), seq![t] + le_bytes(v as nat, 6)),
    {
        self.try_extend_capity(7);
        put_u8(&mut self.bytes, t);
        put_u16_le(&mut self.bytes, (v % 0x1_0000) as u16);
        put_u32_le(&mut self.bytes, (v / 0x1_0000) as u32);
        proof {
            lemma_radix_values();
            lemma_le_bytes_split(v as nat, 2, 4);
            crate::endian::lemma_le_bytes_len(v as nat, 6);
            assert(self.bytes@ =~= old(self).bytes@ + (seq![t] + le_bytes(v as nat, 6)));
        }
        self.count(7);
    }

    /// Writes the tag `t` and eight bytes of payload.
    fn write_64(&mut self, v: u64, t: u8)
        requires
            old(self).wf(),
        ensures
            final(self).appended(*old(self), seq![t] + le_bytes(v as nat, 8)),
    {
        self.try_extend_capity(9);
        put_u8(&mut self.bytes, t);
        put_u64_le(&mut self.bytes, v);
        proof {
            crate::endian::lemma_le_bytes_len(v as nat, 8);
            assert(self.bytes@ =~= old(self).bytes@ + (seq![t] + le_bytes(v as nat, 8)));
        }
        self.count(9);
    }

    /// Writes the tag `t` and sixteen bytes of payload.
    fn write_128(&mut self, v: u128, t: u8)
        requires
            old(self).wf(),
        ensures
            final(self).appended(*old(self), seq![t] + le_bytes(v as nat, 16)),
    {
        self.try_extend_capity(17);
        put_u8(&mut self.bytes, t);
        put_u128_le(&mut self.bytes, v);
        proof {
            crate::endian::lemma_le_bytes_len(v as nat, 16);
            assert(self.bytes@ =~= old(self).bytes@ + (seq![t] + le_bytes(v as nat, 16)));
        }
        self.count(17);
    }
}

/// How a buffer makes room for more bytes.
#[derive(Clone, Copy, Debug, PartialEq, Eq, Structural)]
pub enum Growth {
    /// With the vector's own growth, which reserves ahead so that appending
    /// stays cheap on average.
    Amortized,
    /// By just the bytes that are asked for.
    Exact,
    /// Not at all: with the bytes asked for the vector would pass the
    /// longest that a vector can be, and no reservation is tried.
    Unreserved,
}

/// How a buffer of the given capacity that holds `used` bytes makes room
/// for `len` more: by just `len` once its capacity is above 4 MiB, and with
/// the vector's own growth up to there.
pub open spec fn growth_rule(capacity: nat, used: nat, len: nat) -> Growth {
    if used + len > isize::MAX {
        Growth::Unreserved
    } else if capacity > EXACT_GROWTH_ABOVE {
        Growth::Exact
    } else {
        Growth::Amortized
    }
}

/// How a buffer of the given capacity that holds `used` bytes makes room
/// for `len` more.
pub fn growth_for(capacity: usize, used: usize, len: usize) -> (how: Growth)
    ensures
        how == growth_rule(capacity as nat, used as nat, len as nat),
{
    let limit = isize::MAX as usize;
    if used > limit || len > limit - used {
        Growth::Unreserved
    } else if capacity > EXACT_GROWTH_ABOVE {
        Growth::Exact
    } else {
        Growth::Amortized
    }
}

/// Whether a buffer of the given capacity that holds `used` bytes has no
/// room for `len` more.
pub fn lacks_room(capacity: usize, used: usize, len: usize) -> (r: bool)
    ensures
        r == (used + len > capacity),
{
    capacity < used || len > capacity - used
}

} // verus!
