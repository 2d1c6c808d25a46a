//! Values that know how to write and read themselves.

use crate::error::ErrorView;
use crate::error::ReadBonErr;
use crate::integer::two_128;
use crate::integer::wrap;
use crate::read::bool_read;
use crate::read::data_read;
use crate::read::integer_read;
use crate::read::short;
use crate::read::text_of;
use crate::read::ReadBuffer;
use crate::wire::bool_encoding;
use crate::wire::data_encoding;
use crate::wire::int_encoding;
use crate::wire::nil_encoding;
use crate::wire::TAG_NIL;
use crate::wire::TAG_STRING;
use crate::write::WriteBuffer;
use vstd::prelude::*;
use vstd::utf8::encode_utf8;

verus! {

/// A value that can be written to a [`WriteBuffer`].
pub trait Encode: Sized {
    /// The bytes that stand for the value.
    spec fn encoding(&self) -> Seq<u8>;

    /// Appends the bytes that stand for the value.
    fn encode(&self, bb: &mut WriteBuffer)
        requires
            old(bb).wf(),
        ensures
            final(bb).appended(*old(bb), self.encoding()),
    ;
}

/// A value that can be read from a [`ReadBuffer`].
pub trait Decode: Sized {
    /// What a value of the type is, mathematically.
    type Model;

    /// What this value is, mathematically.
    spec fn model(&self) -> Self::Model;

    /// What a read finds in the bytes `s` at position `head`: the value and
    /// the number of bytes it takes, or the failure.
    spec fn decoding(s: Seq<u8>, head: usize) -> Result<(Self::Model, nat), ErrorView>;

    /// Reads a value and moves the cursor past it.  A read that fails
    /// leaves the cursor where it was.
    fn decode(bb: &mut ReadBuffer) -> (r: Result<Self, ReadBonErr>)
        ensures
            match Self::decoding(old(bb).rest(), old(bb).head) {
                Ok((v, n)) => r is Ok && r->Ok_0.model() == v && final(bb).advanced(*old(bb), n),
                Err(e) => r is Err && r->Err_0@ == e && *final(bb) == *old(bb),
            },
    ;
}

/// What a read of an integer that is cut down to the residue modulo `m`
/// finds.
pub open spec fn wrapped_read(s: Seq<u8>, head: usize, m: int, signed: bool) -> Result<
    (int, nat),
    ErrorView,
> {
    match integer_read(s, head) {
        Ok((v, n)) => Ok((wrap(v, m, signed), n)),
        Err(e) => Err(e),
    }
}

impl Encode for u8 {
    open spec fn encoding(&self) -> Seq<u8> {
        int_encoding(*self as int)
    }

    fn encode(&self, bb: &mut WriteBuffer) {
        bb.write_u8(*self);
    }
}

impl Decode for u8 {
    type Model = int;

    open spec fn model(&self) -> int {
        *self as int
    }

    open spec fn decoding(s: Seq<u8>, head: usize) -> Result<(int, nat), ErrorView> {
        wrapped_read(s, head, 0x100, false)
    }

    fn decode(bb: &mut ReadBuffer) -> (r: Result<u8, ReadBonErr>) {
        bb.read_u8()
    }
}

impl Encode for u16 {
    open spec fn encoding(&self) -> Seq<u8> {
        int_encoding(*self as int)
    }

    fn encode(&self, bb: &mut WriteBuffer) {
        bb.write_u16(*self);
    }
}

impl Decode for u16 {
    type Model = int;

    open spec fn model(&self) -> int {
        *self as int
    }

    open spec fn decoding(s: Seq<u8>, head: usize) -> Result<(int, nat), ErrorView> {
        wrapped_read(s, head, 0x1_0000, false)
    }

    fn decode(bb: &mut ReadBuffer) -> (r: Result<u16, ReadBonErr>) {
        bb.read_u16()
    }
}

impl Encode for u32 {
    open spec fn encoding(&self) -> Seq<u8> {
        int_encoding(*self as int)
    }

    fn encode(&self, bb: &mut WriteBuffer) {
        bb.write_u32(*self);
    }
}

impl Decode for u32 {
    type Model = int;

    open spec fn model(&self) -> int {
        *self as int
    }

    open spec fn decoding(s: Seq<u8>, head: usize) -> Result<(int, nat), ErrorView> {
        wrapped_read(s, head, 0x1_0000_0000, false)
    }

    fn decode(bb: &mut ReadBuffer) -> (r: Result<u32, ReadBonErr>) {
        bb.read_u32()
    }
}

impl Encode for u64 {
    open spec fn encoding(&self) -> Seq<u8> {
        int_encoding(*self as int)
    }

    fn encode(&self, bb: &mut WriteBuffer) {
        bb.write_u64(*self);
    }
}

impl Decode for u64 {
    type Model = int;

    open spec fn model(&self) -> int {
        *self as int
    }

    open spec fn decoding(s: Seq<u8>, head: usize) -> Result<(int, nat), ErrorView> {
        wrapped_read(s, head, 0x1_0000_0000_0000_0000, false)
    }

    fn decode(bb: &mut ReadBuffer) -> (r: Result<u64, ReadBonErr>) {
        bb.read_u64()
    }
}

impl Encode for u128 {
    open spec fn encoding(&self) -> Seq<u8> {
        int_encoding(*self as int)
    }

    fn encode(&self, bb: &mut WriteBuffer) {
        bb.write_u128(*self);
    }
}

impl Decode for u128 {
    type Model = int;

    open spec fn model(&self) -> int {
        *self as int
    }

    open spec fn decoding(s: Seq<u8>, head: usize) -> Result<(int, nat), ErrorView> {
        wrapped_read(s, head, two_128(), false)
    }

    fn decode(bb: &mut ReadBuffer) -> (r: Result<u128, ReadBonErr>) {
        bb.read_u128()
    }
}

impl Encode for i8 {
    open spec fn encoding(&self) -> Seq<u8> {
        int_encoding(*self as int)
    }

    fn encode(&self, bb: &mut WriteBuffer) {
        bb.write_i8(*self);
    }
}

impl Decode for i8 {
    type Model = int;

    open spec fn model(&self) -> int {
        *self as int
    }

    open spec fn decoding(s: Seq<u8>, head: usize) -> Result<(int, nat), ErrorView> {
        wrapped_read(s, head, 0x100, true)
    }

    fn decode(bb: &mut ReadBuffer) -> (r: Result<i8, ReadBonErr>) {
        bb.read_i8()
    }
}

impl Encode for i16 {
    open spec fn encoding(&self) -> Seq<u8> {
        int_encoding(*self as int)
    }

    fn encode(&self, bb: &mut WriteBuffer) {
        bb.write_i16(*self);
    }
}

impl Decode for i16 {
    type Model = int;

    open spec fn model(&self) -> int {
        *self as int
    }

    open spec fn decoding(s: Seq<u8>, head: usize) -> Result<(int, nat), ErrorView> {
        wrapped_read(s, head, 0x1_0000, true)
    }

    fn decode(bb: &mut ReadBuffer) -> (r: Result<i16, ReadBonErr>) {
        bb.read_i16()
    }
}

impl Encode for i32 {
    open spec fn encoding(&self) -> Seq<u8> {
        int_encoding(*self as int)
    }

    fn encode(&self, bb: &mut WriteBuffer) {
        bb.write_i32(*self);
    }
}

impl Decode for i32 {
    type Model = int;

    open spec fn model(&self) -> int {
        *self as int
    }

    open spec fn decoding(s: Seq<u8>, head: usize) -> Result<(int, nat), ErrorView> {
        wrapped_read(s, head, 0x1_0000_0000, true)
    }

    fn decode(bb: &mut ReadBuffer) -> (r: Result<i32, ReadBonErr>) {
        bb.read_i32()
    }
}

impl Encode for i64 {
    open spec fn encoding(&self) -> Seq<u8> {
        int_encoding(*self as int)
    }

    fn encode(&self, bb: &mut WriteBuffer) {
        bb.write_i64(*self);
    }
}

impl Decode for i64 {
    type Model = int;

    open spec fn model(&self) -> int {
        *self as int
    }

    open spec fn decoding(s: Seq<u8>, head: usize) -> Result<(int, nat), ErrorView> {
        wrapped_read(s, head, 0x1_0000_0000_0000_0000, true)
    }

    fn decode(bb: &mut ReadBuffer) -> (r: Result<i64, ReadBonErr>) {
        bb.read_i64()
    }
}

impl Encode for i128 {
    open spec fn encoding(&self) -> Seq<u8> {
        int_encoding(*self as int)
    }

    fn encode(&self, bb: &mut WriteBuffer) {
        bb.write_i128(*self);
    }
}

impl Decode for i128 {
    type Model = int;

    open spec fn model(&self) -> int {
        *self as int
    }

    open spec fn decoding(s: Seq<u8>, head: usize) -> Result<(int, nat), ErrorView> {
        wrapped_read(s, head, two_128(), true)
    }

    fn decode(bb: &mut ReadBuffer) -> (r: Result<i128, ReadBonErr>) {
        bb.read_i128()
    }
}

impl Encode for usize {
    open spec fn encoding(&self) -> Seq<u8> {
        int_encoding(*self as int)
    }

    fn encode(&self, bb: &mut WriteBuffer) {
        bb.write_u64(*self as u64);
    }
}

impl Decode for usize {
    type Model = int;

    open spec fn model(&self) -> int {
        *self as int
    }

    open spec fn decoding(s: Seq<u8>, head: usize) -> Result<(int, nat), ErrorView> {
        wrapped_read(s, head, usize::MAX + 1, false)
    }

    fn decode(bb: &mut ReadBuffer) -> (r: Result<usize, ReadBonErr>) {
        bb.read_usize()
    }
}

impl Encode for isize {
    open spec fn encoding(&self) -> Seq<u8> {
        int_encoding(*self as int)
    }

    fn encode(&self, bb: &mut WriteBuffer) {
        bb.write_i64(*self as i64);
    }
}

impl Decode for isize {
    type Model = int;

    open spec fn model(&self) -> int {
        *self as int
    }

    open spec fn decoding(s: Seq<u8>, head: usize) -> Result<(int, nat), ErrorView> {
        wrapped_read(s, head, usize::MAX + 1, true)
    }

    fn decode(bb: &mut ReadBuffer) -> (r: Result<isize, ReadBonErr>) {
        bb.read_isize()
    }
}

impl Encode for bool {
    open spec fn encoding(&self) -> Seq<u8> {
        bool_encoding(*self)
    }

    fn encode(&self, bb: &mut WriteBuffer) {
        bb.write_bool(*self);
    }
}

impl Decode for bool {
    type Model = bool;

    open spec fn model(&self) -> bool {
        *self
    }

    open spec fn decoding(s: Seq<u8>, head: usize) -> Result<(bool, nat), ErrorView> {
        match bool_read(s, head) {
            Ok(v) => Ok((v, 1)),
            Err(e) => Err(e),
        }
    }

    fn decode(bb: &mut ReadBuffer) -> (r: Result<bool, ReadBonErr>) {
        bb.read_bool()
    }
}

impl Encode for String {
    open spec fn encoding(&self) -> Seq<u8> {
        data_encoding(TAG_STRING, encode_utf8(self@))
    }

    fn encode(&self, bb: &mut WriteBuffer) {
        bb.write_utf8(self.as_str());
    }
}

impl Decode for String {
    type Model = Seq<char>;

    open spec fn model(&self) -> Seq<char> {
        self@
    }

    open spec fn decoding(s: Seq<u8>, head: usize) -> Result<(Seq<char>, nat), ErrorView> {
        match data_read(TAG_STRING, "string"@, s, head) {
            Ok((v, n)) => Ok((text_of(v), n)),
            Err(e) => Err(e),
        }
    }

    fn decode(bb: &mut ReadBuffer) -> (r: Result<String, ReadBonErr>) {
        bb.read_utf8()
    }
}

impl<T: Encode> Encode for Option<T> {
    open spec fn encoding(&self) -> Seq<u8> {
        match self {
            Some(v) => v.encoding(),
            None => nil_encoding(),
        }
    }

    fn encode(&self, bb: &mut WriteBuffer) {
        match self {
            Some(v) => {
                v.encode(bb);
            },
            None => {
                bb.write_nil();
            },
        }
    }
}

impl<T: Decode> Decode for Option<T> {
    type Model = Option<T::Model>;

    open spec fn model(&self) -> Option<T::Model> {
        match self {
            Some(v) => Some(v.model()),
            None => None,
        }
    }

    open spec fn decoding(s: Seq<u8>, head: usize) -> Result<(Option<T::Model>, nat), ErrorView> {
        if s.len() == 0 {
            Err(short(1, 0))
        } else if s[0] == TAG_NIL {
            Ok((None, 1))
        } else {
            match T::decoding(s, head) {
                Ok((v, n)) => Ok((Some(v), n)),
                Err(e) => Err(e),
            }
        }
    }

    fn decode(bb: &mut ReadBuffer) -> (r: Result<Option<T>, ReadBonErr>) {
        if bb.is_nil()? {
            Ok(None)
        } else {
            let v = T::decode(bb)?;
            Ok(Some(v))
        }
    }
}

impl<'a, T: Encode> Encode for &'a T {
    /// A borrowed value is written as the value.
    open spec fn encoding(&self) -> Seq<u8> {
        (**self).encoding()
    }

    fn encode(&self, bb: &mut WriteBuffer) {
        (**self).encode(bb);
    }
}

impl<K: Encode, V: Encode> Encode for (K, V) {
    /// The first of the pair, then the second: an entry of a mapping.
    open spec fn encoding(&self) -> Seq<u8> {
        self.0.encoding() + self.1.encoding()
    }

    fn encode(&self, bb: &mut WriteBuffer) {
        self.0.encode(bb);
        self.1.encode(bb);
        assert(bb.bytes@ =~= old(bb).bytes@ + (self.0.encoding() + self.1.encoding()));
    }
}

impl<K: Decode, V: Decode> Decode for (K, V) {
    type Model = (K::Model, V::Model);

    open spec fn model(&self) -> (K::Model, V::Model) {
        (self.0.model(), self.1.model())
    }

    open spec fn decoding(s: Seq<u8>, head: usize) -> Result<((K::Model, V::Model), nat), ErrorView> {
        match K::decoding(s, head) {
            Err(e) => Err(e),
            Ok((k, n)) => match V::decoding(s.skip(n as int), (head + n) as usize) {
                Err(e) => Err(e),
                Ok((v, m)) => Ok(((k, v), n + m)),
            },
        }
    }

    fn decode(bb: &mut ReadBuffer) -> (r: Result<(K, V), ReadBonErr>) {
        let start = bb.head;
        let k = K::decode(bb)?;
        proof {
            let n = K::decoding(old(bb).rest(), old(bb).head)->Ok_0.1;
            assert(bb.rest() =~= old(bb).rest().skip(n as int));
        }
        match V::decode(bb) {
            Ok(v) => Ok((k, v)),
            Err(e) => {
                bb.head = start;
                Err(e)
            },
        }
    }
}

/// The encodings of the values of `v`, one after the other.
pub open spec fn seq_encoding<T: Encode>(v: Seq<T>) -> Seq<u8>
    decreases v.len(),
{
    if v.len() == 0 {
        Seq::<u8>::empty()
    } else {
        seq_encoding(v.drop_last()) + v.last().encoding()
    }
}

/// What a read of `count` values in a row finds in the bytes `s` at
/// position `head`: the values and the number of bytes they take together,
/// or the first failure.
pub open spec fn seq_decoding<T: Decode>(s: Seq<u8>, head: usize, count: nat) -> Result<
    (Seq<T::Model>, nat),
    ErrorView,
>
    decreases count,
{
    if count == 0 {
        Ok((Seq::<T::Model>::empty(), 0))
    } else {
        match T::decoding(s, head) {
            Err(e) => Err(e),
            Ok((x, n)) => match seq_decoding::<T>(
                s.skip(n as int),
                (head + n) as usize,
                (count - 1) as nat,
            ) {
                Err(e) => Err(e),
                Ok((xs, m)) => Ok((seq![x] + xs, n + m)),
            },
        }
    }
}

/// The models of the values of `v`.
pub open spec fn seq_model<T: Decode>(v: Seq<T>) -> Seq<T::Model> {
    Seq::new(v.len(), |i: int| v[i].model())
}

/// What is found once `acc` has been read in `c` bytes and `rest` is still
/// to come.
pub open spec fn seq_after<M>(acc: Seq<M>, c: nat, rest: Result<(Seq<M>, nat), ErrorView>) -> Result<
    (Seq<M>, nat),
    ErrorView,
> {
    match rest {
        Err(e) => Err(e),
        Ok((xs, m)) => Ok((acc + xs, c + m)),
    }
}

impl<T: Encode> Encode for Vec<T> {
    /// The count of the values, and the values in order.
    open spec fn encoding(&self) -> Seq<u8> {
        int_encoding(self@.len() as int) + seq_encoding(self@)
    }

    fn encode(&self, bb: &mut WriteBuffer) {
        let n = self.len();
        n.encode(bb);
        let mut i: usize = 0;
        while i < n
            invariant
                i <= n,
                n == self@.len(),
                bb.wf(),
                bb.appended(*old(bb), int_encoding(n as int) + seq_encoding(self@.take(i as int))),
            decreases n - i,
        {
            self[i].encode(bb);
            proof {
                let next = self@.take(i + 1);
                assert(next.drop_last() =~= self@.take(i as int));
                assert(bb.bytes@ =~= old(bb).bytes@ + (int_encoding(n as int) + seq_encoding(next)));
            }
            i = i + 1;
        }
        assert(self@.take(n as int) =~= self@);
    }
}

impl<T: Decode> Decode for Vec<T> {
    type Model = Seq<T::Model>;

    open spec fn model(&self) -> Seq<T::Model> {
        seq_model(self@)
    }

    /// A count, and that many values.
    open spec fn decoding(s: Seq<u8>, head: usize) -> Result<(Seq<T::Model>, nat), ErrorView> {
        match usize::decoding(s, head) {
            Err(e) => Err(e),
            Ok((count, n)) => match seq_decoding::<T>(
                s.skip(n as int),
                (head + n) as usize,
                count as nat,
            ) {
                Err(e) => Err(e),
                Ok((xs, m)) => Ok((xs, n + m)),
            },
        }
    }

    fn decode(bb: &mut ReadBuffer) -> (r: Result<Vec<T>, ReadBonErr>) {
        let start = bb.head;
        let count = usize::decode(bb)?;
        let ghost first = *bb;
        let ghost taken: nat = 0;
        let ghost n0 = usize::decoding(old(bb).rest(), old(bb).head)->Ok_0.1;
        let mut vec: Vec<T> = Vec::new();
        let mut i: usize = 0;
        while i < count
            invariant
                i <= count,
                vec@.len() == i,
                bb.advanced(first, taken),
                start == old(bb).head,
                first.advanced(*old(bb), n0),
                first.rest() == old(bb).rest().skip(n0 as int),
                usize::decoding(old(bb).rest(), old(bb).head) == Ok::<(int, nat), ErrorView>(
                    (count as int, n0),
                ),
                seq_decoding::<T>(first.rest(), first.head, count as nat) == seq_after(
                    seq_model(vec@),
                    taken,
                    seq_decoding::<T>(bb.rest(), bb.head, (count - i) as nat),
                ),
            decreases count - i,
        {
            let ghost s = bb.rest();
            let ghost h = bb.head;
            match T::decode(bb) {
                Err(e) => {
                    bb.head = start;
                    return Err(e);
                },
                Ok(v) => {
                    proof {
                        let n = T::decoding(s, h)->Ok_0.1;
                        assert(bb.rest() =~= s.skip(n as int));
                        let next = seq_decoding::<T>(bb.rest(), bb.head, (count - i - 1) as nat);
                        if next is Ok {
                            assert(seq_model(vec@.push(v)) + next->Ok_0.0 =~= seq_model(vec@) + (
                            seq![v.model()] + next->Ok_0.0));
                        }
                        taken = taken + n;
                    }
                    vec.push(v);
                    i = i + 1;
                },
            }
        }
        Ok(vec)
    }
}

} // verus!
