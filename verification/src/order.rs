//! The order of encoded values, decided on the bytes.
//!
//! Values fall into six categories, which stand in this order: null and
//! the booleans, numbers, strings, binary values, containers, big integers.
//! Two values of different categories compare as their categories do.
//! Within a category the values themselves decide.

use crate::endian::le_value;
use crate::error::mismatch;
use crate::error::ErrorView;
use crate::error::ReadBonErr;
use crate::ieee::binary64_from_integer;
use crate::ieee::binary64_of_integer;
use crate::ieee::binary64_order;
use crate::ieee::binary64_rank;
use crate::integer::Integer;
use crate::outside::advance;
use crate::outside::bigint_from_bytes_le;
use crate::outside::bigint_partial_cmp;
use crate::outside::bigint_value;
use crate::outside::bytes_partial_cmp;
use crate::outside::decimal;
use crate::outside::numbered;
use crate::rank::int_rank;
use crate::rank::lex_rank;
use crate::rank::ordering_of;
use crate::rank::rank_of;
use crate::rank::Rank;
use crate::read::binary64_read;
use crate::read::clamp;
use crate::read::clamp_of;
use crate::read::container_read;
use crate::read::data_read;
use crate::read::integer_read;
use crate::read::short;
use crate::read::take_le;
use crate::read::ReadBuffer;
use crate::wire::int_width;
use crate::write::WriteBuffer;
use crate::wire::is_int_tag;
use crate::wire::prefix_width;
use crate::wire::TAG_BIG;
use crate::wire::TAG_BINARY;
use crate::wire::TAG_BINARY32;
use crate::wire::TAG_BINARY64;
use crate::wire::TAG_CONTAINER;
use crate::wire::TAG_NEGATIVE;
use crate::wire::TAG_STRING;
use crate::wire::TAG_UNSIGNED;
use std::cmp::Ordering;
use vstd::prelude::*;

verus! {

/// The category of a tag, from 0 for null and the booleans to 5 for big
/// integers.
pub open spec fn category(t: u8) -> nat {
    if t <= 2 {
        0
    } else if t < TAG_STRING {
        1
    } else if t < TAG_BINARY {
        2
    } else if t < TAG_CONTAINER {
        3
    } else if t < TAG_BIG {
        4
    } else {
        5
    }
}

/// The category of a tag.
pub fn category_of(t: u8) -> (c: u8)
    ensures
        c == category(t),
{
    if t <= 2 {
        0
    } else if t < TAG_STRING {
        1
    } else if t < TAG_BINARY {
        2
    } else if t < TAG_CONTAINER {
        3
    } else if t < TAG_BIG {
        4
    } else {
        5
    }
}

/// What is wrong with a tag that stands for no value: the two reserved
/// widths of floating-point numbers, and the tags above 249.
pub open spec fn tag_fault(t: u8) -> Option<ErrorView> {
    if t == 5 {
        Some(ErrorView::Other("16-bit float unsupported"@))
    } else if t == 8 {
        Some(ErrorView::Other("128-bit float unsupported"@))
    } else if t > TAG_BIG {
        Some(ErrorView::Other("Unknown type code: "@ + decimal(t as nat)))
    } else {
        None
    }
}

/// Refuses a tag that stands for no value.
pub fn check_tag(t: u8) -> (r: Result<(), ReadBonErr>)
    ensures
        match tag_fault(t) {
            Some(e) => r is Err && r->Err_0@ == e,
            None => r is Ok,
        },
{
    if t == 5 {
        Err(ReadBonErr::other("16-bit float unsupported".to_owned()))
    } else if t == 8 {
        Err(ReadBonErr::other("128-bit float unsupported".to_owned()))
    } else if t > TAG_BIG {
        Err(ReadBonErr::other(numbered("Unknown type code: ", t as u64)))
    } else {
        Ok(())
    }
}

/// The first tag of the kind that the tag `t` of a string, a binary value
/// or a container belongs to.
pub open spec fn base_of(t: u8) -> u8 {
    if t < TAG_BINARY {
        TAG_STRING
    } else if t < TAG_CONTAINER {
        TAG_BINARY
    } else {
        TAG_CONTAINER
    }
}

/// The number of bytes that a value of tag `t` takes, tag and length
/// prefix included, where `s` holds the value from its tag on.  For a
/// container this is the header and the whole body.  Only a length prefix
/// is looked at in `s`.
pub open spec fn value_width(t: u8, s: Seq<u8>) -> Result<nat, ErrorView> {
    if tag_fault(t) is Some {
        Err(tag_fault(t)->Some_0)
    } else if t < TAG_NEGATIVE {
        Ok(
            if t == TAG_BINARY32 {
                5
            } else if t == TAG_BINARY64 {
                9
            } else {
                1
            },
        )
    } else if t < TAG_STRING {
        Ok(1 + int_width(t))
    } else if t == TAG_BIG {
        Ok(33)
    } else if t <= base_of(t) + 64 {
        Ok((1 + (t - base_of(t))) as nat)
    } else {
        let pw = prefix_width(base_of(t), t);
        let left = if s.len() >= 1 {
            (s.len() - 1) as nat
        } else {
            0
        };
        if left < pw {
            Err(short(pw, left))
        } else if 1 + pw + le_value(s.subrange(1, 1 + pw as int)) > usize::MAX {
            Err(short(clamp(le_value(s.subrange(1, 1 + pw as int))), (left - pw) as nat))
        } else {
            Ok(1 + pw + le_value(s.subrange(1, 1 + pw as int)))
        }
    }
}

/// The number of bytes that the value of tag `t` under the cursor takes,
/// tag and length prefix included.  The cursor stays where it is.
pub fn base_type_len(bb: &mut ReadBuffer, t: u8) -> (r: Result<usize, ReadBonErr>)
    ensures
        *final(bb) == *old(bb),
        match value_width(t, old(bb).rest()) {
            Ok(w) => r == Ok::<usize, ReadBonErr>(w as usize) && w <= usize::MAX,
            Err(e) => r is Err && r->Err_0@ == e,
        },
{
    check_tag(t)?;
    if t < TAG_NEGATIVE {
        return Ok(
            if t == TAG_BINARY32 {
                5
            } else if t == TAG_BINARY64 {
                9
            } else {
                1
            },
        );
    }
    if t < TAG_STRING {
        let class = if t < 15 {
            t - TAG_NEGATIVE
        } else if t < TAG_UNSIGNED {
            return Ok(1);
        } else {
            t - TAG_UNSIGNED
        };
        return Ok(
            if class == 0 {
                2
            } else if class == 1 {
                3
            } else if class == 2 {
                5
            } else if class == 3 {
                7
            } else if class == 4 {
                9
            } else {
                17
            },
        );
    }
    if t == TAG_BIG {
        return Ok(33);
    }
    let base = if t < TAG_BINARY {
        TAG_STRING
    } else if t < TAG_CONTAINER {
        TAG_BINARY
    } else {
        TAG_CONTAINER
    };
    if t <= base + 64 {
        return Ok(1 + (t - base) as usize);
    }
    let width: usize = if t == base + 65 {
        1
    } else if t == base + 66 {
        2
    } else if t == base + 67 {
        4
    } else {
        6
    };
    let mut rest = bb.remaining();
    let ghost s = rest@;
    if rest.len() >= 1 {
        advance(&mut rest, 1);
    }
    if rest.len() < width {
        return Err(ReadBonErr::overflow(width, rest.len()));
    }
    let left = rest.len() - width;
    let len = take_le(&mut rest, width);
    proof {
        crate::endian::lemma_radix_values();
        crate::endian::lemma_le_value_bound(s.skip(1).take(width as int));
        assert(s.skip(1).take(width as int) =~= s.subrange(1, 1 + width));
    }
    if len > (usize::MAX - 1 - width) as u128 {
        return Err(ReadBonErr::overflow(clamp_of(len as u64), left));
    }
    Ok(1 + width + len as usize)
}

/// What skipping the value at the front of `s` comes to: the number of
/// bytes it takes, all of which must be there, or the failure.
pub open spec fn skip_read(s: Seq<u8>) -> Result<nat, ErrorView> {
    if s.len() == 0 {
        Err(short(1, 0))
    } else {
        match value_width(s[0], s) {
            Err(e) => Err(e),
            Ok(w) => if w > s.len() {
                Err(short((w - 1) as nat, (s.len() - 1) as nat))
            } else {
                Ok(w)
            },
        }
    }
}

/// Moves the cursor past the value under it.
pub fn skip_value(bb: &mut ReadBuffer) -> (r: Result<(), ReadBonErr>)
    ensures
        match skip_read(old(bb).rest()) {
            Ok(w) => r is Ok && final(bb).advanced(*old(bb), w),
            Err(e) => r is Err && r->Err_0@ == e && *final(bb) == *old(bb),
        },
{
    let t = bb.get_type_chunk()?;
    let w = base_type_len(bb, t)?;
    let left = bb.len();
    if w > left {
        return Err(ReadBonErr::overflow(w - 1, left - 1));
    }
    bb.advance(w);
    Ok(())
}

/// A number as the order sees it: a double-precision bit pattern, or an
/// integer with the tag it was written under.
pub enum Number {
    Float(u64),
    Int { tag: u8, value: Integer },
}

/// The mathematical content of a [`Number`].
pub enum NumberView {
    Float(u64),
    Int { tag: u8, value: int },
}

impl View for Number {
    type V = NumberView;

    open spec fn view(&self) -> NumberView {
        match self {
            Number::Float(bits) => NumberView::Float(*bits),
            Number::Int { tag, value } => NumberView::Int { tag: *tag, value: value.value() },
        }
    }
}

impl Number {
    /// An integer below 128 bits of width has a magnitude of at most 64
    /// bits.
    pub open spec fn wf(&self) -> bool {
        match self {
            Number::Float(_) => true,
            Number::Int { tag, value } => *tag != 14 && *tag != 41 ==> value.magnitude
                <= u64::MAX,
        }
    }
}

/// What a read of a number finds in the bytes `s` at position `head`: an
/// integer under an integer tag, else a floating-point number, widened to
/// double precision.
pub open spec fn number_read(s: Seq<u8>, head: usize) -> Result<(NumberView, nat), ErrorView> {
    if s.len() > 0 && tag_fault(s[0]) is Some {
        Err(tag_fault(s[0])->Some_0)
    } else if s.len() > 0 && is_int_tag(s[0]) {
        match integer_read(s, head) {
            Ok((v, n)) => Ok((NumberView::Int { tag: s[0], value: v }, n)),
            Err(e) => Err(e),
        }
    } else {
        match binary64_read(s, head) {
            Ok((b, n)) => Ok((NumberView::Float(b), n)),
            Err(e) => Err(e),
        }
    }
}

/// Reads the number under the cursor.
pub fn read_number(bb: &mut ReadBuffer) -> (r: Result<Number, ReadBonErr>)
    ensures
        match number_read(old(bb).rest(), old(bb).head) {
            Ok((v, n)) => r is Ok && r->Ok_0@ == v && r->Ok_0.wf() && final(bb).advanced(
                *old(bb),
                n,
            ),
            Err(e) => r is Err && r->Err_0@ == e && *final(bb) == *old(bb),
        },
{
    let t = bb.get_type_chunk()?;
    check_tag(t)?;
    if t >= TAG_NEGATIVE && t < TAG_STRING {
        let value = bb.read_integer()?;
        proof {
            crate::endian::lemma_radix_values();
            let s = old(bb).rest();
            if s.len() - 1 >= int_width(t) {
                crate::endian::lemma_le_value_bound(s.subrange(1, 1 + int_width(t) as int));
            }
        }
        Ok(Number::Int { tag: t, value })
    } else {
        let bits = bb.read_f64_bits()?;
        Ok(Number::Float(bits))
    }
}

/// The double-precision pattern that an integer is compared as.
pub open spec fn as_binary64(v: int) -> u64 {
    binary64_from_integer(v < 0, vstd::math::abs(v) as u64) as u64
}

/// The order of two numbers.  Floating-point numbers compare as such, and
/// an integer stands against one as the double-precision number nearest to
/// it, but that an integer of 128 bits is below every floating-point
/// number where it is negative and above every one where it is not.  Two
/// integers compare as the integers they are, at whatever widths they were
/// written.
pub open spec fn number_rank(a: NumberView, b: NumberView) -> Rank {
    match (a, b) {
        (NumberView::Float(x), NumberView::Float(y)) => binary64_rank(x, y),
        (NumberView::Float(x), NumberView::Int { tag, value }) => if tag == 14 {
            Rank::Greater
        } else if tag == 41 {
            Rank::Less
        } else {
            binary64_rank(x, as_binary64(value))
        },
        (NumberView::Int { tag, value }, NumberView::Float(y)) => if tag == 14 {
            Rank::Less
        } else if tag == 41 {
            Rank::Greater
        } else {
            binary64_rank(as_binary64(value), y)
        },
        (NumberView::Int { tag: _, value: v1 }, NumberView::Int { tag: _, value: v2 }) => int_rank(
            v1,
            v2,
        ),
    }
}

/// The order of two integers given by sign and magnitude.
pub fn integer_order(a: &Integer, b: &Integer) -> (r: Rank)
    ensures
        r == int_rank(a.value(), b.value()),
{
    if a.negative && !b.negative {
        if a.magnitude == 0 && b.magnitude == 0 {
            Rank::Equal
        } else {
            Rank::Less
        }
    } else if !a.negative && b.negative {
        if a.magnitude == 0 && b.magnitude == 0 {
            Rank::Equal
        } else {
            Rank::Greater
        }
    } else if a.negative {
        order_u128(b.magnitude, a.magnitude)
    } else {
        order_u128(a.magnitude, b.magnitude)
    }
}

/// The order of two numbers.
pub fn order_u128(a: u128, b: u128) -> (r: Rank)
    ensures
        r == int_rank(a as int, b as int),
{
    if a < b {
        Rank::Less
    } else if a == b {
        Rank::Equal
    } else {
        Rank::Greater
    }
}

/// The double-precision pattern that an integer below 128 bits of width is
/// compared as.
pub fn integer_bits(v: &Integer) -> (r: u64)
    requires
        v.magnitude <= u64::MAX,
    ensures
        r == as_binary64(v.value()),
{
    binary64_of_integer(v.negative, v.magnitude as u64)
}

/// The order of two numbers.
pub fn number_order(a: &Number, b: &Number) -> (r: Rank)
    requires
        a.wf(),
        b.wf(),
    ensures
        r == number_rank(a@, b@),
{
    match (a, b) {
        (Number::Float(x), Number::Float(y)) => binary64_order(*x, *y),
        (Number::Float(x), Number::Int { tag, value }) => {
            if *tag == 14 {
                Rank::Greater
            } else if *tag == 41 {
                Rank::Less
            } else {
                binary64_order(*x, integer_bits(value))
            }
        },
        (Number::Int { tag, value }, Number::Float(y)) => {
            if *tag == 14 {
                Rank::Less
            } else if *tag == 41 {
                Rank::Greater
            } else {
                binary64_order(integer_bits(value), *y)
            }
        },
        (Number::Int { tag: _, value: v1 }, Number::Int { tag: _, value: v2 }) => integer_order(
            v1,
            v2,
        ),
    }
}

/// What a read of a big integer finds in the bytes `s`: the number that
/// its 32 bytes spell, least significant first, and the 33 bytes it takes.
pub open spec fn big_read(s: Seq<u8>) -> Result<(nat, nat), ErrorView> {
    if s.len() == 0 {
        Err(short(1, 0))
    } else if s[0] != TAG_BIG || s.len() < 33 {
        Err(ErrorView::Other("Invalid big integer"@))
    } else {
        Ok((le_value(s.subrange(1, 33)), 33))
    }
}

/// Reads the big integer under the cursor.
pub fn to_bigint(bb: &mut ReadBuffer) -> (r: Result<num_bigint::BigInt, ReadBonErr>)
    ensures
        match big_read(old(bb).rest()) {
            Ok((v, n)) => r is Ok && bigint_value(r->Ok_0) == v && final(bb).advanced(*old(bb), n),
            Err(e) => r is Err && r->Err_0@ == e && *final(bb) == *old(bb),
        },
{
    let t = bb.get_type_chunk()?;
    let rest = bb.remaining();
    if t != TAG_BIG || rest.len() < 33 {
        return Err(ReadBonErr::other("Invalid big integer".to_owned()));
    }
    let payload = vstd::slice::slice_subrange(rest, 1, 33);
    let n = bigint_from_bytes_le(payload);
    bb.advance(33);
    Ok(n)
}

/// Moves the cursor into the container under it: past the header and the
/// type hash, to the first child.
pub fn enter(bb: &mut ReadBuffer) -> (r: Result<(), ReadBonErr>)
    ensures
        match container_read(old(bb).rest(), old(bb).head) {
            Ok(found) => r is Ok && final(bb).advanced(*old(bb), found.2),
            Err(e) => r is Err && r->Err_0@ == e && *final(bb) == *old(bb),
        },
{
    let (start, len) = bb.read_header(TAG_CONTAINER, "container")?;
    let left = bb.len();
    if left - start < 4 {
        return Err(ReadBonErr::overflow(4, left - start));
    }
    bb.advance(start + 4);
    Ok(())
}

/// How two integers under the cursors at `s1` and `s2` compare, and the
/// bytes that each takes.
pub open spec fn int_pair_read(s1: Seq<u8>, h1: usize, s2: Seq<u8>, h2: usize) -> Result<
    (Rank, nat, nat),
    ErrorView,
> {
    match integer_read(s1, h1) {
        Err(e) => Err(e),
        Ok((v1, n1)) => match integer_read(s2, h2) {
            Err(e) => Err(e),
            Ok((v2, n2)) => Ok((int_rank(v1, v2), n1, n2)),
        },
    }
}

/// How two strings (`base` 42) or two binary values (111) compare: as
/// their payloads do, byte by byte.
pub open spec fn data_pair_read(
    base: u8,
    kind: Seq<char>,
    s1: Seq<u8>,
    h1: usize,
    s2: Seq<u8>,
    h2: usize,
) -> Result<(Rank, nat, nat), ErrorView> {
    match data_read(base, kind, s1, h1) {
        Err(e) => Err(e),
        Ok((v1, n1)) => match data_read(base, kind, s2, h2) {
            Err(e) => Err(e),
            Ok((v2, n2)) => Ok((lex_rank(v1, v2), n1, n2)),
        },
    }
}

/// How a double-precision number `v1` compares with the number at `s`.
pub open spec fn float_pair_read(v1: u64, s: Seq<u8>, head: usize) -> Result<(Rank, nat), ErrorView> {
    match number_read(s, head) {
        Err(e) => Err(e),
        Ok((v2, n)) => Ok((number_rank(NumberView::Float(v1), v2), n)),
    }
}

/// How two numbers compare.
pub open spec fn number_pair_read(s1: Seq<u8>, h1: usize, s2: Seq<u8>, h2: usize) -> Result<
    (Rank, nat, nat),
    ErrorView,
> {
    match number_read(s1, h1) {
        Err(e) => Err(e),
        Ok((v1, n1)) => match number_read(s2, h2) {
            Err(e) => Err(e),
            Ok((v2, n2)) => Ok((number_rank(v1, v2), n1, n2)),
        },
    }
}

/// How two big integers compare.
pub open spec fn big_pair_read(s1: Seq<u8>, s2: Seq<u8>) -> Result<(Rank, nat, nat), ErrorView> {
    match big_read(s1) {
        Err(e) => Err(e),
        Ok((v1, n1)) => match big_read(s2) {
            Err(e) => Err(e),
            Ok((v2, n2)) => Ok((int_rank(v1 as int, v2 as int), n1, n2)),
        },
    }
}

/// How two values of different categories compare: both are skipped, and
/// the categories decide.
pub open spec fn skip_pair_read(s1: Seq<u8>, s2: Seq<u8>) -> Result<(Rank, nat, nat), ErrorView> {
    match skip_read(s1) {
        Err(e) => Err(e),
        Ok(n1) => match skip_read(s2) {
            Err(e) => Err(e),
            Ok(n2) => Ok((int_rank(category(s1[0]) as int, category(s2[0]) as int), n1, n2)),
        },
    }
}

/// The bytes of `s` from the `n`th on, and none where `s` has fewer.
pub open spec fn beyond(s: Seq<u8>, n: nat) -> Seq<u8> {
    if n <= s.len() {
        s.skip(n as int)
    } else {
        Seq::<u8>::empty()
    }
}

/// How the values at the front of `s1` and `s2` compare, and the bytes
/// that the comparison takes from each, or the failure.
///
/// Two containers compare as what follows their headers does, to the end
/// of the bytes: the type hashes are passed over, and the children are
/// compared in turn as [`run_read`] says.
pub open spec fn pair_read(s1: Seq<u8>, h1: usize, s2: Seq<u8>, h2: usize) -> Result<
    (Rank, nat, nat),
    ErrorView,
>
    decreases s1.len(), 1nat,
{
    if s1.len() == 0 || s2.len() == 0 {
        Err(short(1, 0))
    } else if tag_fault(s1[0]) is Some {
        Err(tag_fault(s1[0])->Some_0)
    } else if tag_fault(s2[0]) is Some {
        Err(tag_fault(s2[0])->Some_0)
    } else if category(s1[0]) != category(s2[0]) {
        skip_pair_read(s1, s2)
    } else if category(s1[0]) == 0 {
        Ok((int_rank(s1[0] as int, s2[0] as int), 1, 1))
    } else if category(s1[0]) == 1 {
        number_pair_read(s1, h1, s2, h2)
    } else if category(s1[0]) == 2 {
        data_pair_read(TAG_STRING, "string"@, s1, h1, s2, h2)
    } else if category(s1[0]) == 3 {
        data_pair_read(TAG_BINARY, "bin"@, s1, h1, s2, h2)
    } else if category(s1[0]) == 4 {
        frame_pair_read(s1, h1, s2, h2)
    } else {
        big_pair_read(s1, s2)
    }
}

/// How two containers compare: as the values that follow their headers
/// and type hashes.
pub open spec fn frame_pair_read(s1: Seq<u8>, h1: usize, s2: Seq<u8>, h2: usize) -> Result<
    (Rank, nat, nat),
    ErrorView,
>
    decreases s1.len(), 0nat,
{
    match container_read(s1, h1) {
        Err(e) => Err(e),
        Ok(f1) => match container_read(s2, h2) {
            Err(e) => Err(e),
            Ok(f2) => {
                match run_read(
                    beyond(s1, f1.2),
                    (h1 + f1.2) as usize,
                    beyond(s2, f2.2),
                    (h2 + f2.2) as usize,
                ) {
                    Err(e) => Err(e),
                    Ok((r, m1, m2)) => Ok((r, f1.2 + m1, f2.2 + m2)),
                }
            },
        },
    }
}

/// How two runs of values compare: pair by pair until two differ, which
/// decides, or until one of the runs ends, which makes them equal: a run
/// and a longer one that starts with it do not differ.  (A pair that took
/// no byte would end the run as well; [`lemma_pair_takes`] shows that there
/// is none.)
pub open spec fn run_read(s1: Seq<u8>, h1: usize, s2: Seq<u8>, h2: usize) -> Result<
    (Rank, nat, nat),
    ErrorView,
>
    decreases s1.len(), 2nat,
{
    if s1.len() == 0 || s2.len() == 0 {
        Ok((Rank::Equal, 0, 0))
    } else {
        match pair_read(s1, h1, s2, h2) {
            Err(e) => Err(e),
            Ok((r, n1, n2)) => if r != Rank::Equal || n1 == 0 {
                Ok((r, n1, n2))
            } else {
                match run_read(
                    beyond(s1, n1),
                    (h1 + n1) as usize,
                    beyond(s2, n2),
                    (h2 + n2) as usize,
                ) {
                    Err(e) => Err(e),
                    Ok((r2, m1, m2)) => Ok((r2, n1 + m1, n2 + m2)),
                }
            },
        }
    }
}

/// A comparison takes at least one byte from each side, and no more than
/// there is.
pub proof fn lemma_pair_takes(s1: Seq<u8>, h1: usize, s2: Seq<u8>, h2: usize)
    ensures
        pair_read(s1, h1, s2, h2) matches Ok(found) ==> 1 <= found.1 <= s1.len() && 1 <= found.2
            <= s2.len(),
        frame_pair_read(s1, h1, s2, h2) matches Ok(found) ==> 1 <= found.1 <= s1.len() && 1
            <= found.2 <= s2.len(),
        run_read(s1, h1, s2, h2) matches Ok(found) ==> found.1 <= s1.len() && found.2 <= s2.len(),
    decreases s1.len(),
{
    if let Ok(f1) = container_read(s1, h1) {
        if let Ok(f2) = container_read(s2, h2) {
            lemma_pair_takes(
                beyond(s1, f1.2),
                (h1 + f1.2) as usize,
                beyond(s2, f2.2),
                (h2 + f2.2) as usize,
            );
        }
    }
    if s1.len() > 0 {
        if let Ok((r, n1, n2)) = pair_read(s1, h1, s2, h2) {
            if r == Rank::Equal && n1 > 0 {
                lemma_pair_takes(
                    beyond(s1, n1),
                    (h1 + n1) as usize,
                    beyond(s2, n2),
                    (h2 + n2) as usize,
                );
            }
        }
    }
}

/// Whether two cursors and a result are what a comparison with the outcome
/// `expect` leaves: the order and both cursors moved on, or the failure and
/// both cursors where they were.
pub open spec fn outcome(
    before1: ReadBuffer,
    before2: ReadBuffer,
    after1: ReadBuffer,
    after2: ReadBuffer,
    r: Result<Option<Ordering>, ReadBonErr>,
    expect: Result<(Rank, nat, nat), ErrorView>,
) -> bool {
    match expect {
        Ok((rank, n1, n2)) => {
            &&& r is Ok
            &&& r->Ok_0 is Some
            &&& rank_of(r->Ok_0->Some_0) == rank
            &&& after1.advanced(before1, n1)
            &&& after2.advanced(before2, n2)
        },
        Err(e) => {
            &&& r is Err
            &&& r->Err_0@ == e
            &&& after1 == before1
            &&& after2 == before2
        },
    }
}

/// How two integers compare that are to stand under the tag `t`, one of the
/// twelve tags of an integer with a payload.
pub open spec fn tagged_int_pair_read(t: u8, s1: Seq<u8>, h1: usize, s2: Seq<u8>, h2: usize) -> Result<
    (Rank, nat, nat),
    ErrorView,
> {
    if !is_int_tag(t) || (15 <= t < TAG_UNSIGNED) {
        Err(mismatch("integer"@, t, h1))
    } else {
        int_pair_read(s1, h1, s2, h2)
    }
}

/// Compares the double-precision number `v1` with the number under the
/// cursor, and moves the cursor past it.
pub fn compare_number(rb: &mut ReadBuffer, v1: u64) -> (r: Result<Option<Ordering>, ReadBonErr>)
    ensures
        match float_pair_read(v1, old(rb).rest(), old(rb).head) {
            Ok((rank, n)) => r is Ok && r->Ok_0 is Some && rank_of(r->Ok_0->Some_0) == rank
                && final(rb).advanced(*old(rb), n),
            Err(e) => r is Err && r->Err_0@ == e && *final(rb) == *old(rb),
        },
{
    let v2 = read_number(rb)?;
    let first = Number::Float(v1);
    Ok(Some(ordering_of(number_order(&first, &v2))))
}

/// Compares the integers under the two cursors, which stand under the tag
/// `t`, by their values.
pub fn compare_int<'a>(rb1: &mut ReadBuffer<'a>, rb2: &mut ReadBuffer<'a>, t: u8) -> (r: Result<
    Option<Ordering>,
    ReadBonErr,
>)
    ensures
        outcome(
            *old(rb1),
            *old(rb2),
            *final(rb1),
            *final(rb2),
            r,
            tagged_int_pair_read(t, old(rb1).rest(), old(rb1).head, old(rb2).rest(), old(rb2).head),
        ),
{
    if t < TAG_NEGATIVE || t >= TAG_STRING || (t >= 15 && t < TAG_UNSIGNED) {
        return Err(ReadBonErr::type_no_match("integer".to_owned(), t, rb1.head));
    }
    let h1 = rb1.head;
    let v1 = rb1.read_integer()?;
    match rb2.read_integer() {
        Ok(v2) => Ok(Some(ordering_of(integer_order(&v1, &v2)))),
        Err(e) => {
            rb1.head = h1;
            Err(e)
        },
    }
}

/// Compares the strings under the two cursors, byte by byte.
pub fn compare_str<'a>(rb1: &mut ReadBuffer<'a>, rb2: &mut ReadBuffer<'a>) -> (r: Result<
    Option<Ordering>,
    ReadBonErr,
>)
    ensures
        outcome(
            *old(rb1),
            *old(rb2),
            *final(rb1),
            *final(rb2),
            r,
            data_pair_read(
                TAG_STRING,
                "string"@,
                old(rb1).rest(),
                old(rb1).head,
                old(rb2).rest(),
                old(rb2).head,
            ),
        ),
{
    let h1 = rb1.head;
    let d1 = rb1.read_payload(TAG_STRING, "string")?;
    match rb2.read_payload(TAG_STRING, "string") {
        Ok(d2) => Ok(bytes_partial_cmp(&d1, &d2)),
        Err(e) => {
            rb1.head = h1;
            Err(e)
        },
    }
}

/// Compares the binary values under the two cursors, byte by byte.
pub fn compare_bin<'a>(rb1: &mut ReadBuffer<'a>, rb2: &mut ReadBuffer<'a>) -> (r: Result<
    Option<Ordering>,
    ReadBonErr,
>)
    ensures
        outcome(
            *old(rb1),
            *old(rb2),
            *final(rb1),
            *final(rb2),
            r,
            data_pair_read(
                TAG_BINARY,
                "bin"@,
                old(rb1).rest(),
                old(rb1).head,
                old(rb2).rest(),
                old(rb2).head,
            ),
        ),
{
    let h1 = rb1.head;
    let d1 = rb1.read_payload(TAG_BINARY, "bin")?;
    match rb2.read_payload(TAG_BINARY, "bin") {
        Ok(d2) => Ok(bytes_partial_cmp(&d1, &d2)),
        Err(e) => {
            rb1.head = h1;
            Err(e)
        },
    }
}

/// Compares the big integers under the two cursors.
pub fn compare_big<'a>(rb1: &mut ReadBuffer<'a>, rb2: &mut ReadBuffer<'a>) -> (r: Result<
    Option<Ordering>,
    ReadBonErr,
>)
    ensures
        outcome(
            *old(rb1),
            *old(rb2),
            *final(rb1),
            *final(rb2),
            r,
            big_pair_read(old(rb1).rest(), old(rb2).rest()),
        ),
{
    let h1 = rb1.head;
    let n1 = to_bigint(rb1)?;
    match to_bigint(rb2) {
        Ok(n2) => Ok(bigint_partial_cmp(&n1, &n2)),
        Err(e) => {
            rb1.head = h1;
            Err(e)
        },
    }
}

/// Compares the containers under the two cursors: enters both, and
/// compares what follows as [`compare_run`] does.
pub fn compare_contain<'a>(rb1: &mut ReadBuffer<'a>, rb2: &mut ReadBuffer<'a>) -> (r: Result<
    Option<Ordering>,
    ReadBonErr,
>)
    ensures
        outcome(
            *old(rb1),
            *old(rb2),
            *final(rb1),
            *final(rb2),
            r,
            frame_pair_read(old(rb1).rest(), old(rb1).head, old(rb2).rest(), old(rb2).head),
        ),
    decreases old(rb1).rest().len(), 0nat,
{
    let h1 = rb1.head;
    let h2 = rb2.head;
    enter(rb1)?;
    match enter(rb2) {
        Ok(()) => {},
        Err(e) => {
            rb1.head = h1;
            return Err(e);
        },
    }
    proof {
        let f1 = container_read(old(rb1).rest(), old(rb1).head)->Ok_0;
        let f2 = container_read(old(rb2).rest(), old(rb2).head)->Ok_0;
        assert(rb1.rest() =~= beyond(old(rb1).rest(), f1.2));
        assert(rb2.rest() =~= beyond(old(rb2).rest(), f2.2));
    }
    match compare_run(rb1, rb2) {
        Ok(o) => Ok(o),
        Err(e) => {
            rb1.head = h1;
            rb2.head = h2;
            Err(e)
        },
    }
}

/// The outcome of a run that has gone `c1` and `c2` bytes into its two
/// sides and has `rest` to come.
pub open spec fn after(c1: nat, c2: nat, rest: Result<(Rank, nat, nat), ErrorView>) -> Result<
    (Rank, nat, nat),
    ErrorView,
> {
    match rest {
        Err(e) => Err(e),
        Ok((r, m1, m2)) => Ok((r, c1 + m1, c2 + m2)),
    }
}

/// Compares the values under the two cursors pair by pair, until two
/// differ or one of the cursors is at its end.
pub fn compare_run<'a>(rb1: &mut ReadBuffer<'a>, rb2: &mut ReadBuffer<'a>) -> (r: Result<
    Option<Ordering>,
    ReadBonErr,
>)
    ensures
        outcome(
            *old(rb1),
            *old(rb2),
            *final(rb1),
            *final(rb2),
            r,
            run_read(old(rb1).rest(), old(rb1).head, old(rb2).rest(), old(rb2).head),
        ),
    decreases old(rb1).rest().len(), 2nat,
{
    let h1 = rb1.head;
    let h2 = rb2.head;
    let ghost c1: nat = 0;
    let ghost c2: nat = 0;
    loop
        invariant
            rb1.advanced(*old(rb1), c1),
            rb2.advanced(*old(rb2), c2),
            h1 == old(rb1).head,
            h2 == old(rb2).head,
            run_read(old(rb1).rest(), old(rb1).head, old(rb2).rest(), old(rb2).head) == after(
                c1,
                c2,
                run_read(rb1.rest(), rb1.head, rb2.rest(), rb2.head),
            ),
        decreases rb1.rest().len(),
    {
        if rb1.len() == 0 || rb2.len() == 0 {
            return Ok(Some(Ordering::Equal));
        }
        let ghost s1 = rb1.rest();
        let ghost s2 = rb2.rest();
        let ghost m1 = *rb1;
        let ghost m2 = *rb2;
        match partial_cmp(rb1, rb2) {
            Err(e) => {
                rb1.head = h1;
                rb2.head = h2;
                return Err(e);
            },
            Ok(o) => {
                match o {
                    Some(Ordering::Equal) => {
                        proof {
                            let n1 = pair_read(s1, m1.head, s2, m2.head)->Ok_0.1;
                            let n2 = pair_read(s1, m1.head, s2, m2.head)->Ok_0.2;
                            assert(rb1.rest() =~= beyond(s1, n1));
                            assert(rb2.rest() =~= beyond(s2, n2));
                            c1 = c1 + n1;
                            c2 = c2 + n2;
                        }
                    },
                    _ => {
                        return Ok(o);
                    },
                }
            },
        }
    }
}

/// Compares the values under the two cursors and moves both cursors on:
/// past the two values, and for two containers as far as their comparison
/// went.  The outcome is that of [`pair_read`]; where that is a failure,
/// both cursors stay.
pub fn partial_cmp<'a>(b1: &mut ReadBuffer<'a>, b2: &mut ReadBuffer<'a>) -> (r: Result<
    Option<Ordering>,
    ReadBonErr,
>)
    ensures
        outcome(
            *old(b1),
            *old(b2),
            *final(b1),
            *final(b2),
            r,
            pair_read(old(b1).rest(), old(b1).head, old(b2).rest(), old(b2).head),
        ),
        r is Ok ==> final(b1).head > old(b1).head,
    decreases old(b1).rest().len(), 1nat,
{
    let t1 = b1.get_type_chunk()?;
    let t2 = b2.get_type_chunk()?;
    check_tag(t1)?;
    check_tag(t2)?;
    let c1 = category_of(t1);
    let c2 = category_of(t2);
    let h1 = b1.head;
    if c1 != c2 {
        skip_value(b1)?;
        match skip_value(b2) {
            Ok(()) => Ok(Some(ordering_of(order_u8(c1, c2)))),
            Err(e) => {
                b1.head = h1;
                Err(e)
            },
        }
    } else if c1 == 0 {
        b1.advance(1);
        b2.advance(1);
        Ok(Some(ordering_of(order_u8(t1, t2))))
    } else if c1 == 1 {
        if t1 < TAG_NEGATIVE {
            let v1 = b1.read_f64_bits()?;
            match compare_number(b2, v1) {
                Ok(o) => Ok(o),
                Err(e) => {
                    b1.head = h1;
                    Err(e)
                },
            }
        } else if t1 == t2 && (t1 < 15 || t1 >= TAG_UNSIGNED) {
            compare_int(b1, b2, t1)
        } else {
            let v1 = read_number(b1)?;
            match read_number(b2) {
                Ok(v2) => Ok(Some(ordering_of(number_order(&v1, &v2)))),
                Err(e) => {
                    b1.head = h1;
                    Err(e)
                },
            }
        }
    } else if c1 == 2 {
        compare_str(b1, b2)
    } else if c1 == 3 {
        compare_bin(b1, b2)
    } else if c1 == 4 {
        compare_contain(b1, b2)
    } else {
        compare_big(b1, b2)
    }
}

/// The order of two small numbers.
pub fn order_u8(a: u8, b: u8) -> (r: Rank)
    ensures
        r == int_rank(a as int, b as int),
{
    if a < b {
        Rank::Less
    } else if a == b {
        Rank::Equal
    } else {
        Rank::Greater
    }
}

/// The standard `Ordering` for an outcome.
pub open spec fn to_ordering(r: Rank) -> Ordering {
    match r {
        Rank::Less => Ordering::Less,
        Rank::Equal => Ordering::Equal,
        Rank::Greater => Ordering::Greater,
    }
}

/// How two encoded byte strings stand to each other: as their values do,
/// compared in turn from the front as [`run_read`] says.  There is no order
/// where one of the two is empty or the comparison fails.
pub open spec fn whole_rank(s1: Seq<u8>, s2: Seq<u8>) -> Option<Rank> {
    if s1.len() == 0 || s2.len() == 0 {
        None
    } else {
        match run_read(s1, 0, s2, 0) {
            Ok((r, _, _)) => Some(r),
            Err(_) => None,
        }
    }
}

/// [`whole_rank`] as a standard `Ordering`.
pub open spec fn whole_order(s1: Seq<u8>, s2: Seq<u8>) -> Option<Ordering> {
    match whole_rank(s1, s2) {
        Some(r) => Some(to_ordering(r)),
        None => None,
    }
}

/// Compares two encoded byte strings.
pub fn compare_bytes(s1: &[u8], s2: &[u8]) -> (r: Option<Ordering>)
    ensures
        r == whole_order(s1@, s2@),
{
    let mut b1 = ReadBuffer::new(s1, 0);
    let mut b2 = ReadBuffer::new(s2, 0);
    assert(b1.rest() =~= s1@ && b2.rest() =~= s2@);
    if b1.len() == 0 || b2.len() == 0 {
        return None;
    }
    match compare_run(&mut b1, &mut b2) {
        Ok(o) => o,
        Err(_) => None,
    }
}

impl<'a> PartialEq for ReadBuffer<'a> {
    /// Whether what is left of the two buffers compares as equal.
    fn eq(&self, other: &ReadBuffer<'a>) -> (r: bool) {
        match compare_bytes(self.remaining(), other.remaining()) {
            Some(Ordering::Equal) => true,
            _ => false,
        }
    }
}

impl<'a> vstd::std_specs::cmp::PartialEqSpecImpl for ReadBuffer<'a> {
    open spec fn obeys_eq_spec() -> bool {
        true
    }

    open spec fn eq_spec(&self, other: &ReadBuffer<'a>) -> bool {
        whole_order(self.rest(), other.rest()) == Some(Ordering::Equal)
    }
}

impl<'a> Eq for ReadBuffer<'a> {

}

impl<'a> PartialOrd for ReadBuffer<'a> {
    /// Compares what is left of the two buffers.
    fn partial_cmp(&self, other: &ReadBuffer<'a>) -> (r: Option<Ordering>) {
        compare_bytes(self.remaining(), other.remaining())
    }
}

impl<'a> vstd::std_specs::cmp::PartialOrdSpecImpl for ReadBuffer<'a> {
    open spec fn obeys_partial_cmp_spec() -> bool {
        true
    }

    open spec fn partial_cmp_spec(&self, other: &ReadBuffer<'a>) -> Option<Ordering> {
        whole_order(self.rest(), other.rest())
    }
}

impl PartialEq for WriteBuffer {
    /// Whether the bytes of the two buffers compare as equal.
    fn eq(&self, other: &WriteBuffer) -> (r: bool) {
        match compare_bytes(self.bytes.as_slice(), other.bytes.as_slice()) {
            Some(Ordering::Equal) => true,
            _ => false,
        }
    }
}

impl vstd::std_specs::cmp::PartialEqSpecImpl for WriteBuffer {
    open spec fn obeys_eq_spec() -> bool {
        true
    }

    open spec fn eq_spec(&self, other: &WriteBuffer) -> bool {
        whole_order(self.bytes@, other.bytes@) == Some(Ordering::Equal)
    }
}

impl Eq for WriteBuffer {

}

impl PartialOrd for WriteBuffer {
    /// Compares the bytes of the two buffers.
    fn partial_cmp(&self, other: &WriteBuffer) -> (r: Option<Ordering>) {
        compare_bytes(self.bytes.as_slice(), other.bytes.as_slice())
    }
}

impl vstd::std_specs::cmp::PartialOrdSpecImpl for WriteBuffer {
    open spec fn obeys_partial_cmp_spec() -> bool {
        true
    }

    open spec fn partial_cmp_spec(&self, other: &WriteBuffer) -> Option<Ordering> {
        whole_order(self.bytes@, other.bytes@)
    }
}

} // verus!
