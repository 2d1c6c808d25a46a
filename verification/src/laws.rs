//! What holds of writing, reading and comparing together.

use crate::codec::seq_decoding;
use crate::codec::seq_encoding;
use crate::codec::seq_model;
use crate::codec::wrapped_read;
use crate::codec::Decode;
use crate::codec::Encode;
use crate::order::category;
use crate::order::skip_read;
use crate::endian::le_bytes;
use crate::endian::le_value;
use crate::endian::lemma_le_bytes_len;
use crate::endian::lemma_le_value_of_bytes;
use crate::endian::lemma_radix_values;
use crate::error::ErrorView;
use crate::ieee::binary64_is_nan;
use crate::ieee::binary64_rank;
use crate::ieee::binary64_value;
use crate::integer::two_128;
use crate::order::beyond;
use crate::order::big_pair_read;
use crate::order::data_pair_read;
use crate::order::number_pair_read;
use crate::order::number_rank;
use crate::order::number_read;
use crate::order::skip_pair_read;
use crate::order::tag_fault;
use crate::order::NumberView;
use crate::order::frame_pair_read;
use crate::order::lemma_pair_takes;
use crate::order::pair_read;
use crate::order::run_read;
use crate::order::whole_rank;
use crate::read::container_read;
use crate::write::WriteBuffer;
use crate::rank::int_rank;
use crate::rank::lex_rank;
use crate::rank::Rank;
use crate::read::binary32_read;
use crate::read::binary64_read;
use crate::read::bool_read;
use crate::read::data_read;
use crate::read::header_read;
use crate::read::integer_read;
use crate::read::lengthen_read;
use crate::read::text_of;
use crate::wire::band;
use crate::wire::band_width;
use crate::wire::binary32_encoding;
use crate::wire::binary64_encoding;
use crate::wire::bool_encoding;
use crate::wire::container_encoding;
use crate::wire::data_encoding;
use crate::wire::data_header;
use crate::wire::final_band;
use crate::wire::frame_band;
use crate::wire::frame_width;
use crate::wire::int_encoding;
use crate::wire::lengthen_encoding;
use crate::wire::BINARY32_ONE;
use crate::wire::BINARY64_ONE;
use crate::wire::LENGTHEN_LIMIT;
use crate::wire::TAG_BINARY;
use crate::wire::TAG_CONTAINER;
use crate::wire::TAG_STRING;
use vstd::prelude::*;
use vstd::utf8::encode_utf8;

verus! {

/// The payload of an integer is as wide as its width class says, and spells
/// the magnitude.
pub proof fn lemma_payload(m: nat)
    requires
        m < two_128(),
    ensures
        le_bytes(m, band_width(band(m))).len() == band_width(band(m)),
        le_value(le_bytes(m, band_width(band(m)))) == m,
{
    lemma_radix_values();
    lemma_le_bytes_len(m, band_width(band(m)));
    lemma_le_value_of_bytes(m, band_width(band(m)));
}

/// Round trip of integers: an integer of up to 128 bits that is written
/// and read back, whatever follows it, is the same integer, and the read
/// takes just the bytes that were written.
pub proof fn law_integer_round_trip(v: int, rest: Seq<u8>, head: usize)
    requires
        -two_128() < v < two_128(),
    ensures
        integer_read(int_encoding(v) + rest, head) == Ok::<(int, nat), ErrorView>(
            (v, int_encoding(v).len()),
        ),
{
    let enc = int_encoding(v);
    let s = enc + rest;
    if -1 <= v < 20 {
        assert(s.subrange(1, 1) =~= Seq::<u8>::empty());
    } else {
        let m = vstd::math::abs(v) as nat;
        lemma_payload(m);
        let w = band_width(band(m));
        assert(s.subrange(1, 1 + w as int) =~= le_bytes(m, w));
    }
}

/// Round trip of the typed integer reads: an integer that lies in the
/// range of a type of `m` values, signed or not, comes back from the read
/// that cuts down to that type as it was written.
pub proof fn law_typed_round_trip(v: int, m: int, signed: bool, rest: Seq<u8>, head: usize)
    requires
        0 < m <= two_128(),
        m % 2 == 0,
        signed ==> -(m / 2) <= v < m / 2,
        !signed ==> 0 <= v < m,
    ensures
        wrapped_read(int_encoding(v) + rest, head, m, signed) == Ok::<(int, nat), ErrorView>(
            (v, int_encoding(v).len()),
        ),
{
    law_integer_round_trip(v, rest, head);
    if v >= 0 {
        vstd::arithmetic::div_mod::lemma_small_mod(v as nat, m as nat);
    } else {
        vstd::arithmetic::div_mod::lemma_fundamental_div_mod_converse(v, m, -1, v + m);
    }
}

/// Round trip of booleans.
pub proof fn law_bool_round_trip(v: bool, rest: Seq<u8>, head: usize)
    ensures
        bool_read(bool_encoding(v) + rest, head) == Ok::<bool, ErrorView>(v),
        bool_encoding(v).len() == 1,
{
}

/// Round trip of floating-point numbers: the bit pattern that is written
/// is the one that is read.
pub proof fn law_binary_round_trip(single: u32, double: u64, rest: Seq<u8>, head: usize)
    ensures
        binary32_read(binary32_encoding(single) + rest, head) == Ok::<(u32, nat), ErrorView>(
            (single, binary32_encoding(single).len()),
        ),
        binary64_read(binary64_encoding(double) + rest, head) == Ok::<(u64, nat), ErrorView>(
            (double, binary64_encoding(double).len()),
        ),
{
    lemma_radix_values();
    let e32 = binary32_encoding(single);
    let s32 = e32 + rest;
    if single != 0 && single != BINARY32_ONE {
        lemma_le_bytes_len(single as nat, 4);
        lemma_le_value_of_bytes(single as nat, 4);
        assert(s32.subrange(1, 5) =~= le_bytes(single as nat, 4));
    }
    let e64 = binary64_encoding(double);
    let s64 = e64 + rest;
    if double != 0 && double != BINARY64_ONE {
        lemma_le_bytes_len(double as nat, 8);
        lemma_le_value_of_bytes(double as nat, 8);
        assert(s64.subrange(1, 9) =~= le_bytes(double as nat, 8));
    }
}

/// A header of a string, a binary value or a container is read back as the
/// length it was written for, up to the 48 bits that a length prefix holds.
pub proof fn lemma_header_round_trip(base: u8, kind: Seq<char>, len: nat, rest: Seq<u8>, head: usize)
    requires
        base == TAG_STRING || base == TAG_BINARY || base == TAG_CONTAINER,
        len <= 0xFFFF_FFFF_FFFF,
    ensures
        header_read(base, kind, data_header(base, len) + rest, head) == Ok::<
            (nat, nat),
            ErrorView,
        >((data_header(base, len).len(), len)),
{
    lemma_radix_values();
    let h = data_header(base, len);
    let s = h + rest;
    if len <= 64 {
    } else if len <= 0xFF {
        lemma_le_bytes_len(len, 1);
        lemma_le_value_of_bytes(len, 1);
        assert(s.subrange(1, 2) =~= le_bytes(len, 1));
    } else if len <= 0xFFFF {
        lemma_le_bytes_len(len, 2);
        lemma_le_value_of_bytes(len, 2);
        assert(s.subrange(1, 3) =~= le_bytes(len, 2));
    } else if len <= 0xFFFF_FFFF {
        lemma_le_bytes_len(len, 4);
        lemma_le_value_of_bytes(len, 4);
        assert(s.subrange(1, 5) =~= le_bytes(len, 4));
    } else {
        lemma_le_bytes_len(len, 6);
        lemma_le_value_of_bytes(len, 6);
        assert(s.subrange(1, 7) =~= le_bytes(len, 6));
    }
}

/// Round trip of strings and binary values: a payload of up to `2^48 - 1`
/// bytes that is written and read back, whatever follows it, is the same
/// payload.
pub proof fn law_data_round_trip(base: u8, kind: Seq<char>, payload: Seq<u8>, rest: Seq<u8>, head: usize)
    requires
        base == TAG_STRING || base == TAG_BINARY,
        payload.len() <= 0xFFFF_FFFF_FFFF,
    ensures
        data_read(base, kind, data_encoding(base, payload) + rest, head) == Ok::<
            (Seq<u8>, nat),
            ErrorView,
        >((payload, data_encoding(base, payload).len())),
{
    let h = data_header(base, payload.len());
    let s = data_encoding(base, payload) + rest;
    assert(s =~= h + (payload + rest));
    lemma_header_round_trip(base, kind, payload.len(), payload + rest, head);
    assert(s.subrange(h.len() as int, (h.len() + payload.len()) as int) =~= payload);
}

/// Round trip of text: the string that is read back from the encoding of
/// a text of up to `2^48 - 1` bytes of UTF-8 is that text.
pub proof fn law_text_round_trip(text: Seq<char>, rest: Seq<u8>, head: usize)
    requires
        encode_utf8(text).len() <= 0xFFFF_FFFF_FFFF,
    ensures
        data_read(TAG_STRING, "string"@, data_encoding(TAG_STRING, encode_utf8(text)) + rest, head)
            == Ok::<(Seq<u8>, nat), ErrorView>(
            (encode_utf8(text), data_encoding(TAG_STRING, encode_utf8(text)).len()),
        ),
        text_of(encode_utf8(text)) == text,
{
    law_data_round_trip(TAG_STRING, "string"@, encode_utf8(text), rest, head);
    vstd::utf8::encode_utf8_valid_utf8(text);
    vstd::utf8::encode_utf8_decode_utf8(text);
}

/// Narrowest tags: the integers from -1 to 19 take one byte, and so do the
/// floating-point numbers zero and one; every other integer of eight bits
/// takes two; and no integer would fit a payload narrower than its own.
pub proof fn law_narrowest(v: int)
    requires
        -two_128() < v < two_128(),
    ensures
        -1 <= v <= 19 ==> int_encoding(v).len() == 1,
        -128 <= v <= 255 && !(-1 <= v <= 19) ==> int_encoding(v).len() == 2,
        !(-1 <= v <= 19) ==> int_encoding(v).len() == 1 + band_width(band(vstd::math::abs(v) as nat)),
        forall|b: nat| b < band(vstd::math::abs(v) as nat) ==> vstd::math::abs(v) >= crate::endian::radix(
            #[trigger] band_width(b),
        ),
        binary32_encoding(0).len() == 1,
        binary32_encoding(BINARY32_ONE).len() == 1,
        binary64_encoding(0).len() == 1,
        binary64_encoding(BINARY64_ONE).len() == 1,
{
    lemma_radix_values();
    if !(-1 <= v <= 19) {
        lemma_payload(vstd::math::abs(v) as nat);
    }
}

/// The length of a container: the length that the header of a container
/// declares is that of its body, type hash included, so that the header
/// and the declared length together are the whole container.
pub proof fn law_container_length(estimate: nat, body: Seq<u8>, rest: Seq<u8>, head: usize)
    requires
        frame_band(estimate) < 5,
        frame_band(body.len()) < 5,
    ensures
        header_read(TAG_CONTAINER, "container"@, container_encoding(estimate, body) + rest, head)
            == Ok::<(nat, nat), ErrorView>(
            (frame_width(final_band(estimate, body.len())), body.len()),
        ),
        frame_width(final_band(estimate, body.len())) + body.len() == container_encoding(
            estimate,
            body,
        ).len(),
{
    lemma_radix_values();
    let b = final_band(estimate, body.len());
    let len = body.len();
    crate::wire::lemma_frame_header_len(b, len);
    let s = container_encoding(estimate, body) + rest;
    if b == 0 {
    } else if b == 1 {
        lemma_le_value_of_bytes(len, 1);
        assert(s.subrange(1, 2) =~= le_bytes(len, 1));
    } else if b == 2 {
        lemma_le_value_of_bytes(len, 2);
        assert(s.subrange(1, 3) =~= le_bytes(len, 2));
    } else if b == 3 {
        lemma_le_value_of_bytes(len, 4);
        assert(s.subrange(1, 5) =~= le_bytes(len, 4));
    } else {
        lemma_le_value_of_bytes(len, 6);
        assert(s.subrange(1, 7) =~= le_bytes(len, 6));
    }
}

/// The counts that survive the dynamic length prefix.  The prefix is
/// written in little-endian order, so its first byte is the low byte of the
/// count, and the read tells the width from that byte.
pub open spec fn lengthen_survives(n: nat) -> bool {
    ||| n < 0x80
    ||| n < 0x4000 && 0x80 <= n % 256 < 0xC0
    ||| 0x4000 <= n && 0xC0 <= n % 256 < 0xE0
}

/// Round trip of the dynamic length prefix: a count below `0x2000_0000`
/// that is written and read back is the same count, read from the bytes
/// that were written, if and only if it is below `0x80` or its low byte
/// marks the width it was written at.
pub proof fn law_lengthen_round_trip(n: nat, rest: Seq<u8>, head: usize)
    requires
        n < LENGTHEN_LIMIT,
    ensures
        lengthen_read(lengthen_encoding(n) + rest, head) == Ok::<(nat, nat), ErrorView>(
            (n, lengthen_encoding(n).len()),
        ) <==> lengthen_survives(n),
{
    lemma_radix_values();
    let enc = lengthen_encoding(n);
    let s = enc + rest;
    if n < 0x80 {
    } else if n < 0x4000 {
        let v = (0x8000 + n) as nat;
        lemma_le_bytes_len(v, 2);
        lemma_le_value_of_bytes(v, 2);
        assert(s.take(2) =~= enc);
    } else {
        let v = (0xC000_0000 + n) as nat;
        lemma_le_bytes_len(v, 4);
        lemma_le_value_of_bytes(v, 4);
        assert(s.take(4) =~= enc);
    }
}

/// Order of integers: two encoded integers compare as the integers do,
/// whatever follows them.
pub proof fn law_integer_order(a: int, b: int, r1: Seq<u8>, h1: usize, r2: Seq<u8>, h2: usize)
    requires
        -two_128() < a < two_128(),
        -two_128() < b < two_128(),
    ensures
        pair_read(int_encoding(a) + r1, h1, int_encoding(b) + r2, h2) == Ok::<
            (Rank, nat, nat),
            ErrorView,
        >((int_rank(a, b), int_encoding(a).len(), int_encoding(b).len())),
{
    law_integer_round_trip(a, r1, h1);
    law_integer_round_trip(b, r2, h2);
    lemma_radix_values();
}

/// Order of integers at any width: two integers that can be read compare as
/// the integers do, at whatever widths they stand in the bytes.
pub proof fn law_integer_order_at_any_width(s1: Seq<u8>, h1: usize, s2: Seq<u8>, h2: usize)
    requires
        integer_read(s1, h1) is Ok,
        integer_read(s2, h2) is Ok,
    ensures
        pair_read(s1, h1, s2, h2) == Ok::<(Rank, nat, nat), ErrorView>(
            (
                int_rank(integer_read(s1, h1)->Ok_0.0, integer_read(s2, h2)->Ok_0.0),
                integer_read(s1, h1)->Ok_0.1,
                integer_read(s2, h2)->Ok_0.1,
            ),
        ),
{
}

/// Order of floating-point numbers: two encoded double-precision numbers
/// compare as their bit patterns do, which for numbers is the order of the
/// numbers and puts every NaN below them.
pub proof fn law_binary_order(a: u64, b: u64, r1: Seq<u8>, h1: usize, r2: Seq<u8>, h2: usize)
    ensures
        pair_read(binary64_encoding(a) + r1, h1, binary64_encoding(b) + r2, h2) == Ok::<
            (Rank, nat, nat),
            ErrorView,
        >((binary64_rank(a, b), binary64_encoding(a).len(), binary64_encoding(b).len())),
        !binary64_is_nan(a) && !binary64_is_nan(b) ==> binary64_rank(a, b) == int_rank(
            binary64_value(a),
            binary64_value(b),
        ),
{
    law_binary_round_trip(0, a, r1, h1);
    law_binary_round_trip(0, b, r2, h2);
    if !binary64_is_nan(a) && !binary64_is_nan(b) {
        crate::ieee::law_binary64_order(a, b);
    }
}

/// Order of strings and of binary values: two encoded payloads of the same
/// kind compare byte by byte.
pub proof fn law_data_order(
    base: u8,
    p1: Seq<u8>,
    p2: Seq<u8>,
    r1: Seq<u8>,
    h1: usize,
    r2: Seq<u8>,
    h2: usize,
)
    requires
        base == TAG_STRING || base == TAG_BINARY,
        p1.len() <= 0xFFFF_FFFF_FFFF,
        p2.len() <= 0xFFFF_FFFF_FFFF,
    ensures
        pair_read(data_encoding(base, p1) + r1, h1, data_encoding(base, p2) + r2, h2) == Ok::<
            (Rank, nat, nat),
            ErrorView,
        >((lex_rank(p1, p2), data_encoding(base, p1).len(), data_encoding(base, p2).len())),
{
    let kind = if base == TAG_STRING {
        "string"@
    } else {
        "bin"@
    };
    law_data_round_trip(base, kind, p1, r1, h1);
    law_data_round_trip(base, kind, p2, r2, h2);
}

/// Order of categories: two values of different categories that are both
/// there in full compare as their categories do, whatever the values are.
pub proof fn law_category_order(s1: Seq<u8>, h1: usize, s2: Seq<u8>, h2: usize)
    requires
        skip_read(s1) is Ok,
        skip_read(s2) is Ok,
        category(s1[0]) != category(s2[0]),
    ensures
        pair_read(s1, h1, s2, h2) == Ok::<(Rank, nat, nat), ErrorView>(
            (
                int_rank(category(s1[0]) as int, category(s2[0]) as int),
                skip_read(s1)->Ok_0,
                skip_read(s2)->Ok_0,
            ),
        ),
{
}

/// Round trip of every integer type, of booleans and of strings, as the
/// values write and read themselves.
pub proof fn law_value_round_trip(
    a: u8,
    b: u16,
    c: u32,
    d: u64,
    e: u128,
    f: i8,
    g: i16,
    h: i32,
    i: i64,
    j: i128,
    k: usize,
    l: isize,
    m: bool,
    n: String,
    rest: Seq<u8>,
    head: usize,
)
    requires
        encode_utf8(n@).len() <= 0xFFFF_FFFF_FFFF,
    ensures
        u8::decoding(a.encoding() + rest, head) == Ok::<(int, nat), ErrorView>(
            (a.model(), a.encoding().len()),
        ),
        u16::decoding(b.encoding() + rest, head) == Ok::<(int, nat), ErrorView>(
            (b.model(), b.encoding().len()),
        ),
        u32::decoding(c.encoding() + rest, head) == Ok::<(int, nat), ErrorView>(
            (c.model(), c.encoding().len()),
        ),
        u64::decoding(d.encoding() + rest, head) == Ok::<(int, nat), ErrorView>(
            (d.model(), d.encoding().len()),
        ),
        u128::decoding(e.encoding() + rest, head) == Ok::<(int, nat), ErrorView>(
            (e.model(), e.encoding().len()),
        ),
        i8::decoding(f.encoding() + rest, head) == Ok::<(int, nat), ErrorView>(
            (f.model(), f.encoding().len()),
        ),
        i16::decoding(g.encoding() + rest, head) == Ok::<(int, nat), ErrorView>(
            (g.model(), g.encoding().len()),
        ),
        i32::decoding(h.encoding() + rest, head) == Ok::<(int, nat), ErrorView>(
            (h.model(), h.encoding().len()),
        ),
        i64::decoding(i.encoding() + rest, head) == Ok::<(int, nat), ErrorView>(
            (i.model(), i.encoding().len()),
        ),
        i128::decoding(j.encoding() + rest, head) == Ok::<(int, nat), ErrorView>(
            (j.model(), j.encoding().len()),
        ),
        usize::decoding(k.encoding() + rest, head) == Ok::<(int, nat), ErrorView>(
            (k.model(), k.encoding().len()),
        ),
        isize::decoding(l.encoding() + rest, head) == Ok::<(int, nat), ErrorView>(
            (l.model(), l.encoding().len()),
        ),
        bool::decoding(m.encoding() + rest, head) == Ok::<(bool, nat), ErrorView>(
            (m.model(), m.encoding().len()),
        ),
        String::decoding(n.encoding() + rest, head) == Ok::<(Seq<char>, nat), ErrorView>(
            (n.model(), n.encoding().len()),
        ),
{
    law_typed_round_trip(a as int, 0x100, false, rest, head);
    law_typed_round_trip(b as int, 0x1_0000, false, rest, head);
    law_typed_round_trip(c as int, 0x1_0000_0000, false, rest, head);
    law_typed_round_trip(d as int, 0x1_0000_0000_0000_0000, false, rest, head);
    law_typed_round_trip(e as int, two_128(), false, rest, head);
    law_typed_round_trip(f as int, 0x100, true, rest, head);
    law_typed_round_trip(g as int, 0x1_0000, true, rest, head);
    law_typed_round_trip(h as int, 0x1_0000_0000, true, rest, head);
    law_typed_round_trip(i as int, 0x1_0000_0000_0000_0000, true, rest, head);
    law_typed_round_trip(j as int, two_128(), true, rest, head);
    assert(usize::MAX + 1 == 0x1_0000_0000 || usize::MAX + 1 == 0x1_0000_0000_0000_0000);
    assert(isize::MAX == (usize::MAX + 1) / 2 - 1 && isize::MIN == -((usize::MAX + 1) / 2));
    law_typed_round_trip(k as int, usize::MAX + 1, false, rest, head);
    law_typed_round_trip(l as int, usize::MAX + 1, true, rest, head);
    law_text_round_trip(n@, rest, head);
}

/// Round trip of an optional value: where a value comes back from its own
/// encoding, which does not start with the tag of null, it comes back as
/// `Some` of it; and `None` comes back as `None`.
pub proof fn law_option_round_trip<T: Encode + Decode>(v: Option<T>, rest: Seq<u8>, head: usize)
    requires
        v matches Some(x) ==> x.encoding().len() > 0 && x.encoding()[0] != 0 && T::decoding(
            x.encoding() + rest,
            head,
        ) == Ok::<(T::Model, nat), ErrorView>((x.model(), x.encoding().len())),
    ensures
        Option::<T>::decoding(v.encoding() + rest, head) == Ok::<(Option<T::Model>, nat), ErrorView>(
            (v.model(), v.encoding().len()),
        ),
{
}

/// The encoding of a sequence starts with that of its first value.
pub proof fn lemma_seq_encoding_front<T: Encode>(v: Seq<T>)
    requires
        v.len() > 0,
    ensures
        seq_encoding(v) == v[0].encoding() + seq_encoding(v.drop_first()),
    decreases v.len(),
{
    if v.len() == 1 {
        assert(v.drop_last() =~= Seq::<T>::empty());
        assert(v.drop_first() =~= Seq::<T>::empty());
    } else {
        lemma_seq_encoding_front(v.drop_last());
        assert(v.drop_last().drop_first() =~= v.drop_first().drop_last());
    }
}

/// Round trip of values in a row: where each value of a sequence comes back
/// from its own encoding, whatever follows and wherever it stands, the
/// values come back in order from their encodings in a row.
pub proof fn law_seq_round_trip<T: Encode + Decode>(v: Seq<T>, rest: Seq<u8>, head: usize)
    requires
        forall|i: int, after: Seq<u8>, at: usize|
            0 <= i < v.len() ==> #[trigger] T::decoding(v[i].encoding() + after, at) == Ok::<
                (T::Model, nat),
                ErrorView,
            >((v[i].model(), v[i].encoding().len())),
    ensures
        seq_decoding::<T>(seq_encoding(v) + rest, head, v.len()) == Ok::<
            (Seq<T::Model>, nat),
            ErrorView,
        >((seq_model(v), seq_encoding(v).len())),
    decreases v.len(),
{
    if v.len() == 0 {
        assert(seq_model(v) =~= Seq::<T::Model>::empty());
    } else {
        lemma_seq_encoding_front(v);
        let first = v[0].encoding();
        let tail = v.drop_first();
        let s = seq_encoding(v) + rest;
        assert(s =~= first + (seq_encoding(tail) + rest));
        assert(s.skip(first.len() as int) =~= seq_encoding(tail) + rest);
        assert forall|i: int, after: Seq<u8>, at: usize| 0 <= i < tail.len() implies #[trigger] T::decoding(
            tail[i].encoding() + after,
            at,
        ) == Ok::<(T::Model, nat), ErrorView>((tail[i].model(), tail[i].encoding().len())) by {
            assert(tail[i] == v[i + 1]);
        }
        law_seq_round_trip::<T>(tail, rest, (head + first.len()) as usize);
        assert(seq![v[0].model()] + seq_model(tail) =~= seq_model(v));
    }
}

/// Round trip of a vector: where each of its values comes back from its own
/// encoding, the vector comes back from its own.
pub proof fn law_vec_round_trip<T: Encode + Decode>(v: Vec<T>, rest: Seq<u8>, head: usize)
    requires
        forall|i: int, after: Seq<u8>, at: usize|
            0 <= i < v@.len() ==> #[trigger] T::decoding(v@[i].encoding() + after, at) == Ok::<
                (T::Model, nat),
                ErrorView,
            >((v@[i].model(), v@[i].encoding().len())),
    ensures
        Vec::<T>::decoding(v.encoding() + rest, head) == Ok::<(Seq<T::Model>, nat), ErrorView>(
            (v.model(), v.encoding().len()),
        ),
{
    let count = int_encoding(v@.len() as int);
    let s = v.encoding() + rest;
    assert(v.len() == v@.len());
    assert(s =~= count + (seq_encoding(v@) + rest));
    assert(usize::MAX + 1 == 0x1_0000_0000 || usize::MAX + 1 == 0x1_0000_0000_0000_0000);
    law_typed_round_trip(v@.len() as int, usize::MAX + 1, false, seq_encoding(v@) + rest, head);
    assert(s.skip(count.len() as int) =~= seq_encoding(v@) + rest);
    law_seq_round_trip::<T>(v@, rest, (head + count.len()) as usize);
}

/// The tail counts the bytes: a buffer whose tail is the number of its
/// bytes, as that of a new buffer is, keeps it so through every write,
/// which appends to it or leaves it as it was.
pub proof fn law_tail_counts(before: WriteBuffer, after: WriteBuffer, written: Seq<u8>)
    requires
        before.tail() == before.bytes@.len(),
        after.appended(before, written) || after.same(before),
    ensures
        after.tail() == after.bytes@.len(),
{
}

/// The byte-wise order of two byte strings turns with the two sides.
pub proof fn lemma_lex_reverses(a: Seq<u8>, b: Seq<u8>)
    ensures
        lex_rank(b, a) == lex_rank(a, b).reverse(),
    decreases a.len(),
{
    if a.len() > 0 && b.len() > 0 && a[0] == b[0] {
        lemma_lex_reverses(a.skip(1), b.skip(1));
    }
}

/// Whether two outcomes of a comparison are those of the same comparison
/// with its sides exchanged: both fail, or the orders are the reverse of
/// each other and each side takes the same bytes.
pub open spec fn mirrored(
    a: Result<(Rank, nat, nat), ErrorView>,
    b: Result<(Rank, nat, nat), ErrorView>,
) -> bool {
    match (a, b) {
        (Ok((r, n1, n2)), Ok((q, m2, m1))) => q == r.reverse() && m1 == n1 && m2 == n2,
        (Err(_), Err(_)) => true,
        _ => false,
    }
}

/// The order of two numbers turns with the two sides.
pub proof fn lemma_number_rank_reverses(a: NumberView, b: NumberView)
    ensures
        number_rank(b, a) == number_rank(a, b).reverse(),
{
}

/// Two values of different categories compare the other way round with
/// their sides exchanged.
pub proof fn lemma_skip_pair_reverses(s1: Seq<u8>, s2: Seq<u8>)
    ensures
        mirrored(skip_pair_read(s1, s2), skip_pair_read(s2, s1)),
{
}

/// Two numbers compare the other way round with their sides exchanged.
pub proof fn lemma_number_pair_reverses(s1: Seq<u8>, h1: usize, s2: Seq<u8>, h2: usize)
    ensures
        mirrored(number_pair_read(s1, h1, s2, h2), number_pair_read(s2, h2, s1, h1)),
{
    if let Ok((a, _)) = number_read(s1, h1) {
        if let Ok((b, _)) = number_read(s2, h2) {
            lemma_number_rank_reverses(a, b);
        }
    }
}

/// Two strings, or two binary values, compare the other way round with
/// their sides exchanged.
pub proof fn lemma_data_pair_reverses(
    base: u8,
    kind: Seq<char>,
    s1: Seq<u8>,
    h1: usize,
    s2: Seq<u8>,
    h2: usize,
)
    ensures
        mirrored(
            data_pair_read(base, kind, s1, h1, s2, h2),
            data_pair_read(base, kind, s2, h2, s1, h1),
        ),
{
    if let Ok((p1, _)) = data_read(base, kind, s1, h1) {
        if let Ok((p2, _)) = data_read(base, kind, s2, h2) {
            lemma_lex_reverses(p1, p2);
        }
    }
}

/// Two big integers compare the other way round with their sides
/// exchanged.
pub proof fn lemma_big_pair_reverses(s1: Seq<u8>, s2: Seq<u8>)
    ensures
        mirrored(big_pair_read(s1, s2), big_pair_read(s2, s1)),
{
}

/// Two values that are not both containers compare the other way round
/// with their sides exchanged.
pub proof fn lemma_plain_pair_reverses(s1: Seq<u8>, h1: usize, s2: Seq<u8>, h2: usize)
    requires
        s1.len() > 0 && s2.len() > 0 ==> !(category(s1[0]) == 4 && category(s2[0]) == 4),
    ensures
        mirrored(pair_read(s1, h1, s2, h2), pair_read(s2, h2, s1, h1)),
{
    lemma_skip_pair_reverses(s1, s2);
    lemma_number_pair_reverses(s1, h1, s2, h2);
    lemma_data_pair_reverses(TAG_STRING, "string"@, s1, h1, s2, h2);
    lemma_data_pair_reverses(TAG_BINARY, "bin"@, s1, h1, s2, h2);
    lemma_big_pair_reverses(s1, s2);
}

/// A comparison turns with its sides: with the two sides exchanged, two
/// values, two containers and two runs compare the other way round, take
/// the same bytes, and fail where they failed.
pub proof fn law_pair_reverses(s1: Seq<u8>, h1: usize, s2: Seq<u8>, h2: usize)
    ensures
        mirrored(pair_read(s1, h1, s2, h2), pair_read(s2, h2, s1, h1)),
        mirrored(frame_pair_read(s1, h1, s2, h2), frame_pair_read(s2, h2, s1, h1)),
        mirrored(run_read(s1, h1, s2, h2), run_read(s2, h2, s1, h1)),
    decreases s1.len(),
{
    let frames = frame_pair_read(s1, h1, s2, h2);
    let turned = frame_pair_read(s2, h2, s1, h1);
    assert(mirrored(frames, turned)) by {
        if let Ok(f1) = container_read(s1, h1) {
            if let Ok(f2) = container_read(s2, h2) {
                law_pair_reverses(
                    beyond(s1, f1.2),
                    (h1 + f1.2) as usize,
                    beyond(s2, f2.2),
                    (h2 + f2.2) as usize,
                );
            }
        }
    }
    assert(mirrored(pair_read(s1, h1, s2, h2), pair_read(s2, h2, s1, h1))) by {
        if s1.len() > 0 && s2.len() > 0 && category(s1[0]) == 4 && category(s2[0]) == 4 {
            assert(pair_read(s1, h1, s2, h2) == (if tag_fault(s1[0]) is Some {
                Err::<(Rank, nat, nat), ErrorView>(tag_fault(s1[0])->Some_0)
            } else if tag_fault(s2[0]) is Some {
                Err(tag_fault(s2[0])->Some_0)
            } else {
                frames
            }));
            assert(pair_read(s2, h2, s1, h1) == (if tag_fault(s2[0]) is Some {
                Err::<(Rank, nat, nat), ErrorView>(tag_fault(s2[0])->Some_0)
            } else if tag_fault(s1[0]) is Some {
                Err(tag_fault(s1[0])->Some_0)
            } else {
                turned
            }));
        } else {
            lemma_plain_pair_reverses(s1, h1, s2, h2);
        }
    }
    assert(mirrored(run_read(s1, h1, s2, h2), run_read(s2, h2, s1, h1))) by {
        lemma_pair_takes(s1, h1, s2, h2);
        lemma_pair_takes(s2, h2, s1, h1);
        if s1.len() > 0 && s2.len() > 0 {
            if let Ok((r, n1, n2)) = pair_read(s1, h1, s2, h2) {
                if r == Rank::Equal {
                    law_pair_reverses(
                        beyond(s1, n1),
                        (h1 + n1) as usize,
                        beyond(s2, n2),
                        (h2 + n2) as usize,
                    );
                }
            }
        }
    }
}

/// The order of two encoded byte strings turns with the two sides: where
/// one stands before the other, the other stands behind it; where they are
/// equal one way, they are equal the other way; and where there is no order
/// one way, there is none the other way.
pub proof fn law_order_reverses(s1: Seq<u8>, s2: Seq<u8>)
    ensures
        whole_rank(s2, s1) == match whole_rank(s1, s2) {
            Some(r) => Some(r.reverse()),
            None => None::<Rank>,
        },
{
    law_pair_reverses(s1, 0, s2, 0);
}

/// Every encoded byte string that has an order against itself is equal to
/// itself.
pub proof fn law_order_reflexive(s: Seq<u8>)
    ensures
        whole_rank(s, s) is Some ==> whole_rank(s, s) == Some(Rank::Equal),
{
    law_order_reverses(s, s);
}

} // verus!
