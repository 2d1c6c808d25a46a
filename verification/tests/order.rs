use bon::codec::Decode;
use bon::codec::Encode;
use bon::ReadBonErr;
use bon::ieee::binary32_of_integer;
use bon::ieee::binary64_of_binary32;
use bon::ieee::binary64_of_integer;
use bon::ieee::binary64_order;
use bon::integer::Integer;
use bon::base_type_len;
use bon::order::compare_bytes;
use bon::order::compare_int;
use bon::order::compare_str;
use bon::partial_cmp;
use bon::order::skip_value;
use bon::rank::Rank;
use bon::ReadBuffer;
use bon::write::move_part;
use bon::WriteBuffer;
use rand::thread_rng;
use rand::Rng;
use std::cmp::Ordering;

#[test]
fn test_ord() {
    let mut buf1 = WriteBuffer::with_bytes(Vec::new(), 0);
    let mut buf2 = WriteBuffer::with_bytes(Vec::new(), 0);
    let mut buf3 = WriteBuffer::with_bytes(Vec::new(), 0);
    let mut buf4 = WriteBuffer::with_bytes(Vec::new(), 0);
    let mut buf5 = WriteBuffer::with_bytes(Vec::new(), 0);
    let mut buf6 = WriteBuffer::with_bytes(Vec::new(), 0);
    let mut buf7 = WriteBuffer::with_bytes(Vec::new(), 0);
    let mut buf8 = WriteBuffer::with_bytes(Vec::new(), 0);
    let mut buf9 = WriteBuffer::with_bytes(Vec::new(), 0);
    let mut buf10 = WriteBuffer::with_bytes(Vec::new(), 0);
    let mut buf11 = WriteBuffer::with_bytes(Vec::new(), 0);
    let mut buf12 = WriteBuffer::with_bytes(Vec::new(), 0);
    let mut buf13 = WriteBuffer::with_bytes(Vec::new(), 0);
    let mut buf14 = WriteBuffer::with_bytes(Vec::new(), 0);
    let mut buf15 = WriteBuffer::with_bytes(Vec::new(), 0);
    let mut buf16 = WriteBuffer::with_bytes(Vec::new(), 0);
    let mut buf17 = WriteBuffer::with_bytes(Vec::new(), 0);
    let mut buf18 = WriteBuffer::with_bytes(Vec::new(), 0);
    let mut buf19 = WriteBuffer::with_bytes(Vec::new(), 0);
    let mut buf20 = WriteBuffer::with_bytes(Vec::new(), 0);
    buf1.write_nil();
    buf2.write_bool(false);
    buf3.write_bool(true);
    buf4.write_f32_bits(0.0f32.to_bits());
    buf5.write_f32_bits(1.0f32.to_bits());
    buf6.write_f32_bits(5.1f32.to_bits());
    buf7.write_f32_bits(5.6f32.to_bits());
    buf8.write_f64_bits(7.5f64.to_bits());
    buf9.write_f64_bits(3.4f64.to_bits());
    buf10.write_i8(-1);
    buf11.write_i8(-1);
    buf12.write_i8(120);
    buf13.write_u32(10);
    buf14.write_i32(5);
    buf15.write_utf8("abcdefg");
    buf16.write_utf8("abcdefgh");
    buf17.write_utf8("abcddfgh");
    buf18.write_bin(&[5; 10], 0..10);
    buf19.write_bin(&[6; 5], 0..5);
    buf20.write_bin(&[6; 5], 0..5);
    let read_buf1 = ReadBuffer::new(buf1.get_byte(), 0);
    let read_buf2 = ReadBuffer::new(buf2.get_byte(), 0);
    let read_buf3 = ReadBuffer::new(buf3.get_byte(), 0);
    let read_buf4 = ReadBuffer::new(buf4.get_byte(), 0);
    let read_buf5 = ReadBuffer::new(buf5.get_byte(), 0);
    let read_buf6 = ReadBuffer::new(buf6.get_byte(), 0);
    let read_buf7 = ReadBuffer::new(buf7.get_byte(), 0);
    let read_buf8 = ReadBuffer::new(buf8.get_byte(), 0);
    let read_buf9 = ReadBuffer::new(buf9.get_byte(), 0);
    let read_buf10 = ReadBuffer::new(buf10.get_byte(), 0);
    let read_buf11 = ReadBuffer::new(buf11.get_byte(), 0);
    let read_buf12 = ReadBuffer::new(buf12.get_byte(), 0);
    let read_buf13 = ReadBuffer::new(buf13.get_byte(), 0);
    let read_buf14 = ReadBuffer::new(buf14.get_byte(), 0);
    let read_buf15 = ReadBuffer::new(buf15.get_byte(), 0);
    let read_buf16 = ReadBuffer::new(buf16.get_byte(), 0);
    let read_buf17 = ReadBuffer::new(buf17.get_byte(), 0);
    let read_buf18 = ReadBuffer::new(buf18.get_byte(), 0);
    let read_buf19 = ReadBuffer::new(buf19.get_byte(), 0);
    let read_buf20 = ReadBuffer::new(buf20.get_byte(), 0);
    assert_eq!(read_buf1 < read_buf2, true);
    assert_eq!(read_buf2 < read_buf3, true);
    assert_eq!(read_buf2 < read_buf4, true);
    assert_eq!(read_buf4 < read_buf5, true);
    assert_eq!(read_buf9 < read_buf7, true);
    assert_eq!(read_buf6 < read_buf7, true);
    assert_eq!(read_buf7 < read_buf8, true);
    assert_eq!(read_buf10 < read_buf6, true);
    assert_eq!(read_buf10 == read_buf11, true);
    assert_eq!(read_buf11 < read_buf12, true);
    assert_eq!(read_buf12 > read_buf13, true);
    assert_eq!(read_buf13 > read_buf14, true);
    assert_eq!(read_buf1 < read_buf15, true);
    assert_eq!(read_buf4 < read_buf15, true);
    assert_eq!(read_buf6 < read_buf15, true);
    assert_eq!(read_buf12 < read_buf15, true);
    assert_eq!(read_buf13 < read_buf15, true);
    assert_eq!(read_buf15 < read_buf16, true);
    assert_eq!(read_buf15 > read_buf17, true);
    assert_eq!(read_buf13 < read_buf18, true);
    assert_eq!(read_buf6 < read_buf18, true);
    assert_eq!(read_buf3 < read_buf18, true);
    assert_eq!(read_buf15 < read_buf18, true);
    assert_eq!(read_buf18 < read_buf19, true);
    assert_eq!(read_buf19 == read_buf20, true);
    let mut buf1 = WriteBuffer::with_bytes(Vec::new(), 0);
    buf1.write_nil();
    buf1.write_bool(false);
    buf1.write_bool(true);
    buf1.write_f32_bits(0.0f32.to_bits());
    buf1.write_f32_bits(1.0f32.to_bits());
    buf1.write_f32_bits(5.0f32.to_bits());
    buf1.write_u8(5);
    buf1.write_utf8("abc");
    let mut buf2 = WriteBuffer::with_bytes(Vec::new(), 0);
    buf2.write_utf8("acc");
    buf2.write_u8(5);
    assert_eq!(
        ReadBuffer::new(buf1.get_byte(), 0) < ReadBuffer::new(buf2.get_byte(), 0),
        true
    );
}

#[test]
fn test_container_cmp() {
    let mut w1 = WriteBuffer::new();
    let v = vec![1, 2, 3, 4, 100];
    w1.write_container(
        &v,
        |w1, e| {
            let hash = 0x12345678u32.to_le_bytes();
            w1.bytes.extend_from_slice(&hash);
            w1.tail += 4;
            w1.write_bool(true);
            for elem in e {
                w1.write_i32(elem.clone());
            }
            Ok(())
        },
        None,
    )
    .unwrap();

    let mut w2 = WriteBuffer::new();
    let v2 = vec![1, 2, 3, 4, 99];
    w2.write_container(
        &v2,
        |w2, e| {
            let hash = 0x12345678u32.to_le_bytes();
            w2.bytes.extend_from_slice(&hash);
            w2.tail += 4;
            w2.write_bool(false);
            for elem in e {
                w2.write_i32(elem.clone());
            }
            Ok(())
        },
        None,
    )
    .unwrap();

    assert!(w1 > w2);
}

fn bytes_of(f: impl Fn(&mut WriteBuffer)) -> Vec<u8> {
    let mut buf = WriteBuffer::new();
    f(&mut buf);
    buf.unwrap()
}

fn order(a: &[u8], b: &[u8]) -> Option<Ordering> {
    ReadBuffer::new(a, 0).partial_cmp(&ReadBuffer::new(b, 0))
}

#[test]
fn strings_compare_before_what_follows_them() {
    let first = bytes_of(|b| {
        b.write_utf8("abc");
        b.write_u8(5);
    });
    let second = bytes_of(|b| {
        b.write_utf8("acc");
        b.write_u8(5);
    });
    assert_eq!(order(&first, &second), Some(Ordering::Less));
    assert_eq!(order(&second, &first), Some(Ordering::Greater));
    assert_eq!(compare_bytes(&first, &second), Some(Ordering::Less));
}

#[test]
fn a_number_is_below_a_string() {
    let number = bytes_of(|b| b.write_u8(200));
    let text = bytes_of(|b| b.write_utf8("abcdefg"));
    assert_eq!(order(&number, &text), Some(Ordering::Less));
    assert_eq!(order(&text, &number), Some(Ordering::Greater));
}

fn container(children: impl Fn(&mut WriteBuffer)) -> Vec<u8> {
    let mut buf = WriteBuffer::new();
    buf.write_container(
        &(),
        |w, _| {
            w.bytes.extend_from_slice(&3u32.to_le_bytes());
            w.tail += 4;
            children(w);
            Ok(())
        },
        Some(0),
    )
    .unwrap();
    buf.unwrap()
}

#[test]
fn categories_stand_in_order() {
    let mut big = vec![249u8];
    big.extend_from_slice(&[0u8; 32]);
    let chain: Vec<Vec<u8>> = vec![
        bytes_of(|b| b.write_nil()),
        bytes_of(|b| b.write_bool(false)),
        bytes_of(|b| b.write_bool(true)),
        bytes_of(|b| b.write_f32_bits(0.0f32.to_bits())),
        bytes_of(|b| b.write_f32_bits(1.0f32.to_bits())),
        bytes_of(|b| b.write_utf8("")),
        bytes_of(|b| b.write_bin(&[], 0..0)),
        container(|_| {}),
        big,
    ];
    assert_eq!(chain[5], vec![42u8]);
    assert_eq!(chain[6], vec![111u8]);
    assert_eq!(chain[7], vec![184u8, 3, 0, 0, 0]);
    for i in 0..chain.len() {
        for j in 0..chain.len() {
            assert_eq!(order(&chain[i], &chain[j]), Some(i.cmp(&j)), "{} against {}", i, j);
        }
    }
}

#[test]
fn a_value_of_another_category_is_skipped_whole() {
    let a = bytes_of(|b| {
        b.write_utf8(&"x".repeat(300));
        b.write_u8(1);
    });
    let b = bytes_of(|b| {
        b.write_u32(70000);
        b.write_u8(2);
    });
    let mut r1 = ReadBuffer::new(&a, 0);
    let mut r2 = ReadBuffer::new(&b, 0);
    assert_eq!(partial_cmp(&mut r1, &mut r2).unwrap(), Some(Ordering::Greater));
    assert_eq!(r1.head(), 303);
    assert_eq!(r2.head(), 5);
    assert_eq!(partial_cmp(&mut r1, &mut r2).unwrap(), Some(Ordering::Less));
    let whole = container(|w| w.write_u8(200));
    let mut r1 = ReadBuffer::new(&whole, 0);
    let mut r2 = ReadBuffer::new(&b, 0);
    assert_eq!(partial_cmp(&mut r1, &mut r2).unwrap(), Some(Ordering::Greater));
    assert_eq!(r1.head(), whole.len());
}

#[test]
fn integers_compare_as_integers() {
    let values: Vec<i128> = vec![
        -1,
        0,
        1,
        19,
        20,
        127,
        128,
        200,
        255,
        256,
        65535,
        65536,
        1 << 31,
        (1 << 32) - 1,
        1 << 32,
        (1 << 48) - 1,
        1 << 48,
        1 << 63,
        (1 << 64) - 1,
        1 << 64,
        i128::MAX,
        -2,
        -100,
        -255,
        -256,
        -1000,
        -65535,
        -65536,
        -70000,
        -(1 << 32),
        -(1 << 48),
        -(1 << 63),
        -(1 << 64),
        i128::MIN,
        i128::MIN + 1,
    ];
    for a in &values {
        for b in &values {
            let x = bytes_of(|w| w.write_i128(*a));
            let y = bytes_of(|w| w.write_i128(*b));
            assert_eq!(order(&x, &y), Some(a.cmp(b)), "{} against {}", a, b);
        }
    }
    let mut rng = thread_rng();
    for _ in 0..500 {
        let a: u64 = rng.gen::<u64>() >> (rng.gen::<u32>() % 64);
        let b: u64 = rng.gen::<u64>() >> (rng.gen::<u32>() % 64);
        let x = bytes_of(|w| w.write_u64(a));
        let y = bytes_of(|w| w.write_i128(b as i128));
        assert_eq!(order(&x, &y), Some(a.cmp(&b)));
    }
}

#[test]
fn negative_integers_of_one_width_compare_as_integers() {
    for (a, b) in [(-100i64, -200i64), (-300, -70000 / 100), (-70000, -80000), (-2, -255)] {
        let x = bytes_of(|w| w.write_i64(a));
        let y = bytes_of(|w| w.write_i64(b));
        assert_eq!(x[0], y[0]);
        assert_eq!(order(&x, &y), Some(a.cmp(&b)));
    }
}

#[test]
fn negative_integers_of_different_widths_compare_as_integers() {
    let narrow = bytes_of(|w| w.write_i32(-100));
    let wide = bytes_of(|w| w.write_i32(-1000));
    assert_eq!(narrow, vec![9u8, 100]);
    assert_eq!(wide, vec![10u8, 0xE8, 0x03]);
    assert_eq!(order(&narrow, &wide), Some(Ordering::Greater));
    assert_eq!(order(&wide, &narrow), Some(Ordering::Less));
    let mut b1 = ReadBuffer::new(&[10, 0xE8, 0x03], 0);
    let mut b2 = ReadBuffer::new(&[9, 100], 0);
    assert_eq!(partial_cmp(&mut b1, &mut b2).unwrap(), Some(Ordering::Less));
    assert_eq!((b1.head(), b2.head()), (3, 2));
}

#[test]
fn integers_compare_by_value_at_any_width() {
    // the same integers, written wider than they need be
    let five_wide = [36u8, 5];
    let five = [21u8];
    let two_hundred = [36u8, 200];
    let two_hundred_wide = [38u8, 200, 0, 0, 0];
    let minus_two_wide = [11u8, 2, 0, 0, 0];
    let minus_one = [15u8];
    let minus_one_wide = [9u8, 1];
    assert_eq!(order(&five_wide, &five), Some(Ordering::Equal));
    assert_eq!(order(&five, &five_wide), Some(Ordering::Equal));
    assert_eq!(order(&two_hundred_wide, &two_hundred), Some(Ordering::Equal));
    assert_eq!(order(&five_wide, &two_hundred), Some(Ordering::Less));
    assert_eq!(order(&two_hundred_wide, &five), Some(Ordering::Greater));
    assert_eq!(order(&minus_two_wide, &minus_one), Some(Ordering::Less));
    assert_eq!(order(&minus_one, &minus_one_wide), Some(Ordering::Equal));
    assert_eq!(order(&minus_one_wide, &minus_two_wide), Some(Ordering::Greater));
    assert_eq!(order(&minus_two_wide, &five), Some(Ordering::Less));
}

fn expected(a: f64, b: f64) -> Ordering {
    if a.is_nan() {
        if b.is_nan() {
            Ordering::Equal
        } else {
            Ordering::Less
        }
    } else if b.is_nan() {
        Ordering::Greater
    } else {
        a.partial_cmp(&b).unwrap()
    }
}

fn as_ordering(r: Rank) -> Ordering {
    match r {
        Rank::Less => Ordering::Less,
        Rank::Equal => Ordering::Equal,
        Rank::Greater => Ordering::Greater,
    }
}

fn doubles() -> Vec<f64> {
    let mut v = vec![
        0.0,
        -0.0,
        1.0,
        -1.0,
        0.5,
        3.4,
        5.1,
        5.6,
        7.5,
        f64::MIN_POSITIVE,
        -f64::MIN_POSITIVE,
        f64::from_bits(1),
        -f64::from_bits(1),
        f64::MAX,
        f64::MIN,
        f64::INFINITY,
        f64::NEG_INFINITY,
        f64::NAN,
        -f64::NAN,
        f64::from_bits(0x7FF0_0000_0000_0001),
        9007199254740992.0,
        9007199254740994.0,
        18446744073709551616.0,
        -9223372036854775808.0,
    ];
    let mut rng = thread_rng();
    for _ in 0..200 {
        v.push(f64::from_bits(rng.gen()));
    }
    v
}

#[test]
fn double_patterns_compare_as_the_numbers() {
    let v = doubles();
    for a in &v {
        for b in &v {
            assert_eq!(
                as_ordering(binary64_order(a.to_bits(), b.to_bits())),
                expected(*a, *b),
                "{:?} against {:?}",
                a,
                b
            );
        }
    }
}

#[test]
fn encoded_floats_compare_as_the_numbers() {
    let v = doubles();
    for a in v.iter().take(40) {
        for b in v.iter().take(40) {
            let x = bytes_of(|w| w.write_f64_bits(a.to_bits()));
            let y = bytes_of(|w| w.write_f64_bits(b.to_bits()));
            assert_eq!(order(&x, &y), Some(expected(*a, *b)), "{:?} against {:?}", a, b);
        }
    }
    let singles: Vec<f32> =
        vec![0.0, -0.0, 1.0, 5.1, 5.6, -3.25, f32::MAX, f32::MIN_POSITIVE, f32::from_bits(1), f32::NAN, f32::INFINITY];
    for a in &singles {
        for b in v.iter().take(40) {
            let x = bytes_of(|w| w.write_f32_bits(a.to_bits()));
            let y = bytes_of(|w| w.write_f64_bits(b.to_bits()));
            assert_eq!(order(&x, &y), Some(expected(*a as f64, *b)), "{:?} against {:?}", a, b);
            assert_eq!(order(&y, &x), Some(expected(*b, *a as f64)), "{:?} against {:?}", b, a);
        }
    }
}

#[test]
fn single_patterns_widen_as_the_numbers() {
    let mut samples: Vec<u32> = vec![
        0,
        0x8000_0000,
        1,
        2,
        3,
        0x7F_FFFF,
        0x80_0000,
        0x80_0001,
        0x3F80_0000,
        0x7F7F_FFFF,
        0x7F80_0000,
        0xFF80_0000,
        0x0040_0000,
        0x8000_0001,
    ];
    let mut rng = thread_rng();
    for _ in 0..2000 {
        samples.push(rng.gen());
    }
    for bits in samples {
        let single = f32::from_bits(bits);
        let wide = f64::from_bits(binary64_of_binary32(bits));
        if single.is_nan() {
            assert!(wide.is_nan());
        } else {
            assert_eq!(wide.to_bits(), (single as f64).to_bits(), "pattern {:#x}", bits);
        }
    }
}

#[test]
fn integers_round_to_the_nearest_double() {
    let mut samples: Vec<u64> = vec![
        0,
        1,
        2,
        3,
        (1 << 52) - 1,
        1 << 52,
        (1 << 53) - 1,
        1 << 53,
        (1 << 53) + 1,
        (1 << 53) + 2,
        (1 << 53) + 3,
        (1 << 54) + 2,
        (1 << 54) + 6,
        u64::MAX,
        u64::MAX - 1023,
        u64::MAX - 1024,
        (1 << 63) + 1024,
        (1 << 63) + 1025,
        (1 << 63) + 3072,
        1 << 63,
    ];
    let mut rng = thread_rng();
    for _ in 0..5000 {
        samples.push(rng.gen::<u64>() >> (rng.gen::<u32>() % 64));
    }
    for m in samples {
        assert_eq!(binary64_of_integer(false, m), (m as f64).to_bits(), "integer {}", m);
        assert_eq!(binary64_of_integer(true, m), (-(m as f64)).to_bits() & if m == 0 { !(1 << 63) } else { !0 }, "integer -{}", m);
        let low = m as u32;
        assert_eq!(binary32_of_integer(low), (low as f32).to_bits(), "integer {}", low);
    }
}

#[test]
fn an_integer_compares_with_a_float_as_a_double() {
    let cases: Vec<(i64, f64)> = vec![
        (-1, 5.1),
        (5, 5.0),
        (5, 5.5),
        (6, 5.5),
        (200, 199.5),
        (-200, -199.5),
        (0, -0.0),
        (1, 1.0),
        ((1 << 53) + 1, 9007199254740992.0),
        (i64::MAX, 9223372036854775808.0),
        (i64::MIN, -9223372036854775808.0),
        (7, f64::NAN),
        (7, f64::INFINITY),
        (-7, f64::NEG_INFINITY),
    ];
    for (i, f) in cases {
        let x = bytes_of(|w| w.write_i64(i));
        let y = bytes_of(|w| w.write_f64_bits(f.to_bits()));
        assert_eq!(order(&x, &y), Some(expected(i as f64, f)), "{} against {}", i, f);
        assert_eq!(order(&y, &x), Some(expected(f, i as f64)), "{} against {}", f, i);
    }
}

#[test]
fn an_integer_of_128_bits_is_beyond_every_float() {
    let above = bytes_of(|w| w.write_u128(1 << 100));
    let below = bytes_of(|w| w.write_i128(-(1 << 100)));
    for f in [0.0, f64::MAX, f64::INFINITY, f64::NEG_INFINITY, f64::NAN, 1e300, -1e300] {
        let y = bytes_of(|w| w.write_f64_bits(f.to_bits()));
        assert_eq!(order(&above, &y), Some(Ordering::Greater));
        assert_eq!(order(&y, &above), Some(Ordering::Less));
        assert_eq!(order(&below, &y), Some(Ordering::Less));
        assert_eq!(order(&y, &below), Some(Ordering::Greater));
    }
}

#[test]
fn binary_values_compare_byte_by_byte() {
    let cases: Vec<(Vec<u8>, Vec<u8>)> = vec![
        (vec![], vec![]),
        (vec![], vec![0]),
        (vec![1, 2], vec![1, 2, 0]),
        (vec![1, 3], vec![1, 2, 9]),
        (vec![5; 10], vec![6; 5]),
        (vec![7; 300], vec![7; 300]),
        (vec![7; 300], vec![7; 299]),
    ];
    for (a, b) in cases {
        let x = bytes_of(|w| w.write_bin(&a, 0..a.len()));
        let y = bytes_of(|w| w.write_bin(&b, 0..b.len()));
        assert_eq!(order(&x, &y), Some(a.cmp(&b)));
        assert_eq!(order(&y, &x), Some(b.cmp(&a)));
    }
}

#[test]
fn big_integers_compare_as_numbers() {
    let mut low = vec![249u8];
    low.extend_from_slice(&[0xFF; 16]);
    low.extend_from_slice(&[0; 16]);
    let mut high = vec![249u8];
    high.extend_from_slice(&[0; 31]);
    high.push(1);
    assert_eq!(order(&low, &high), Some(Ordering::Less));
    assert_eq!(order(&high, &low), Some(Ordering::Greater));
    assert_eq!(order(&high, &high), Some(Ordering::Equal));
    let mut second = vec![249u8];
    second.extend_from_slice(&[0, 1]);
    second.extend_from_slice(&[0; 30]);
    let mut first = vec![249u8];
    first.extend_from_slice(&[0xFF, 0]);
    first.extend_from_slice(&[0; 30]);
    assert_eq!(order(&first, &second), Some(Ordering::Less));
    let short = vec![249u8, 1, 2, 3];
    assert_eq!(order(&short, &high), None);
    let mut r1 = ReadBuffer::new(&short, 0);
    let mut r2 = ReadBuffer::new(&high, 0);
    match partial_cmp(&mut r1, &mut r2) {
        Err(ReadBonErr::Other(m)) => assert_eq!(m, "Invalid big integer"),
        _ => panic!("32 bytes are needed"),
    }
}

#[test]
fn containers_compare_by_their_children() {
    let a = container(|w| {
        w.write_u8(1);
        w.write_utf8("b");
    });
    let b = container(|w| {
        w.write_u8(1);
        w.write_utf8("c");
    });
    assert_eq!(order(&a, &b), Some(Ordering::Less));
    assert_eq!(order(&b, &a), Some(Ordering::Greater));
    assert_eq!(order(&a, &a), Some(Ordering::Equal));
    let inner = container(|w| w.write_u8(5));
    let nested_low = container(|w| {
        w.bytes.extend_from_slice(&inner);
        w.tail += inner.len();
        w.write_u8(1);
    });
    let nested_high = container(|w| {
        w.bytes.extend_from_slice(&inner);
        w.tail += inner.len();
        w.write_u8(2);
    });
    assert_eq!(order(&nested_low, &nested_high), Some(Ordering::Less));
    let mut r1 = ReadBuffer::new(&a, 0);
    let mut r2 = ReadBuffer::new(&b, 0);
    assert_eq!(partial_cmp(&mut r1, &mut r2).unwrap(), Some(Ordering::Less));
    assert_eq!(r1.head(), a.len());
}

#[test]
fn a_run_is_equal_where_one_side_ends() {
    let short = bytes_of(|w| w.write_u8(1));
    let long = bytes_of(|w| {
        w.write_u8(1);
        w.write_u8(2);
    });
    assert_eq!(order(&short, &long), Some(Ordering::Equal));
    assert_eq!(order(&long, &short), Some(Ordering::Equal));
    let other = bytes_of(|w| {
        w.write_u8(2);
        w.write_u8(0);
    });
    assert_eq!(order(&short, &other), Some(Ordering::Less));
    assert_eq!(order(&other, &short), Some(Ordering::Greater));
}

fn samples() -> Vec<Vec<u8>> {
    let mut big = vec![249u8, 7];
    big.extend_from_slice(&[0u8; 31]);
    vec![
        bytes_of(|w| w.write_nil()),
        bytes_of(|w| w.write_bool(true)),
        bytes_of(|w| w.write_i32(-100)),
        bytes_of(|w| w.write_i32(-1000)),
        bytes_of(|w| w.write_i128(i128::MIN)),
        bytes_of(|w| w.write_u8(7)),
        bytes_of(|w| w.write_u128(u128::MAX)),
        bytes_of(|w| w.write_f64_bits(2.5f64.to_bits())),
        bytes_of(|w| w.write_f64_bits(f64::NAN.to_bits())),
        bytes_of(|w| w.write_f32_bits((-0.0f32).to_bits())),
        bytes_of(|w| w.write_utf8("abc")),
        bytes_of(|w| w.write_utf8("abd")),
        bytes_of(|w| w.write_utf8(&"a".repeat(300))),
        bytes_of(|w| w.write_bin(&[1, 2], 0..2)),
        bytes_of(|w| w.write_bin(&[1, 2, 3], 0..3)),
        container(|w| w.write_u8(7)),
        container(|w| {
            w.write_u8(7);
            w.write_utf8("x");
        }),
        container(|w| w.write_u8(8)),
        big,
        bytes_of(|w| {
            w.write_u8(7);
            w.write_utf8("tail");
        }),
        vec![38u8, 1],
        vec![5u8],
        vec![250u8, 0],
        vec![45u8, 0x61],
        vec![249u8, 1, 2],
        vec![],
    ]
}

#[test]
fn the_order_turns_with_the_sides() {
    let all = samples();
    for a in &all {
        for b in &all {
            let forth = order(a, b);
            let back = order(b, a);
            assert_eq!(back, forth.map(Ordering::reverse), "{:?} against {:?}", a, b);
        }
        let own = order(a, a);
        assert!(own == None || own == Some(Ordering::Equal), "{:?} against itself", a);
    }
}

#[test]
fn there_is_no_order_where_a_side_cannot_be_read() {
    let good = bytes_of(|w| w.write_u32(70000));
    assert_eq!(order(&[], &good), None);
    assert_eq!(order(&good, &[]), None);
    assert_eq!(order(&[38u8, 1], &good), None);
    assert_eq!(order(&good, &[5u8, 0, 0]), None);
    assert_eq!(order(&[8u8], &good), None);
    assert_eq!(order(&[250u8], &good), None);
    assert_eq!(order(&good, &[107u8]), None);
    let w1 = WriteBuffer::new();
    let mut w2 = WriteBuffer::new();
    w2.write_nil();
    assert_eq!(w1.partial_cmp(&w2), None);
    assert!(!(w1 == w2));
    assert!(w2 == w2.clone());
}

#[test]
fn a_failed_comparison_leaves_both_cursors() {
    let good = bytes_of(|w| {
        w.write_u8(1);
        w.write_utf8("abc");
    });
    let bad = vec![17u8, 45, 0x61];
    let mut r1 = ReadBuffer::new(&good, 1);
    let mut r2 = ReadBuffer::new(&bad, 1);
    match partial_cmp(&mut r1, &mut r2) {
        Err(ReadBonErr::Overflow { try_index, len }) => assert_eq!((try_index, len), (3, 1)),
        _ => panic!("the second string is cut short"),
    }
    assert_eq!((r1.head(), r2.head()), (1, 1));
    let mut r1 = ReadBuffer::new(&[250u8], 0);
    match partial_cmp(&mut r1, &mut ReadBuffer::new(&good, 0)) {
        Err(ReadBonErr::Other(m)) => assert_eq!(m, "Unknown type code: 250"),
        _ => panic!("no such tag"),
    }
}

#[test]
fn widths_of_values() {
    let cases: Vec<(Vec<u8>, usize)> = vec![
        (vec![0], 1),
        (vec![4], 1),
        (vec![6], 5),
        (vec![7], 9),
        (vec![9], 2),
        (vec![10], 3),
        (vec![11], 5),
        (vec![12], 7),
        (vec![13], 9),
        (vec![14], 17),
        (vec![15], 1),
        (vec![35], 1),
        (vec![36], 2),
        (vec![41], 17),
        (vec![42], 1),
        (vec![45], 4),
        (vec![106], 65),
        (vec![107, 200], 202),
        (vec![108, 1, 1], 260),
        (vec![109, 0, 0, 1, 0], 65541),
        (vec![110, 1, 0, 1, 0, 0, 0], 65544),
        (vec![111], 1),
        (vec![176, 65], 67),
        (vec![186], 7),
        (vec![245, 100], 102),
        (vec![249], 33),
    ];
    for (bytes, width) in cases {
        let mut rb = ReadBuffer::new(&bytes, 0);
        assert_eq!(base_type_len(&mut rb, bytes[0]).unwrap(), width, "tag {}", bytes[0]);
        assert_eq!(rb.head(), 0);
    }
    for tag in [5u8, 8, 250, 255] {
        assert!(matches!(
            base_type_len(&mut ReadBuffer::new(&[tag], 0), tag),
            Err(ReadBonErr::Other(_))
        ));
    }
    match base_type_len(&mut ReadBuffer::new(&[108u8, 1], 0), 108) {
        Err(ReadBonErr::Overflow { try_index, len }) => assert_eq!((try_index, len), (2, 1)),
        _ => panic!("the length prefix is cut short"),
    }
    let mut rb = ReadBuffer::new(&[45u8, 1, 2], 0);
    match skip_value(&mut rb) {
        Err(ReadBonErr::Overflow { try_index, len }) => assert_eq!((try_index, len), (3, 2)),
        _ => panic!("the payload is cut short"),
    }
    assert_eq!(rb.head(), 0);
}

#[test]
fn typed_comparisons() {
    let a = bytes_of(|w| w.write_i32(-300));
    let b = bytes_of(|w| w.write_i32(-400));
    let mut r1 = ReadBuffer::new(&a, 0);
    let mut r2 = ReadBuffer::new(&b, 0);
    assert_eq!(compare_int(&mut r1, &mut r2, 10).unwrap(), Some(Ordering::Greater));
    assert_eq!((r1.head(), r2.head()), (3, 3));
    let mut r1 = ReadBuffer::new(&a, 0);
    let mut r2 = ReadBuffer::new(&b, 0);
    match compare_int(&mut r1, &mut r2, 20) {
        Err(ReadBonErr::TypeNoMatch { try_read, act_type, .. }) => {
            assert_eq!(try_read, "integer");
            assert_eq!(act_type, ("4".to_string(), 20));
        }
        _ => panic!("a small integer has nothing to read"),
    }
    let s = bytes_of(|w| w.write_utf8("abc"));
    let mut r1 = ReadBuffer::new(&s, 0);
    let mut r2 = ReadBuffer::new(&a, 0);
    assert!(matches!(
        compare_str(&mut r1, &mut r2),
        Err(ReadBonErr::TypeNoMatch { .. })
    ));
    assert_eq!(r1.head(), 0);
}

#[test]
fn sign_and_magnitude_cut_down() {
    let v = Integer { negative: true, magnitude: 1 };
    assert_eq!(v.to_u8(), 255);
    assert_eq!(v.to_u16(), 65535);
    assert_eq!(v.to_i8(), -1);
    assert_eq!(v.to_i128(), -1);
    assert_eq!(v.to_u128(), u128::MAX);
    let v = Integer { negative: false, magnitude: 0x1_0000_0080 };
    assert_eq!(v.to_u8(), 0x80);
    assert_eq!(v.to_i8(), -128);
    assert_eq!(v.to_u32(), 0x80);
    assert_eq!(v.to_i64(), 0x1_0000_0080);
    let v = Integer { negative: true, magnitude: 1 << 127 };
    assert_eq!(v.to_i128(), i128::MIN);
    assert_eq!(v.to_i64(), 0);
    let v = Integer { negative: true, magnitude: 0 };
    assert_eq!(v.to_u64(), 0);
    assert_eq!(v.to_isize(), 0);
    assert_eq!(v.to_usize(), 0);
}

#[test]
fn moving_a_part_forward() {
    let mut v = vec![1u8, 2, 3, 4, 5];
    move_part(&mut v, 1..5, 3);
    assert_eq!(v, vec![1, 2, 3, 2, 3, 4, 5]);
    let mut v = vec![1u8, 2, 3, 4, 5];
    move_part(&mut v, 1..3, 2);
    assert_eq!(v, vec![1, 2, 2, 3, 5]);
    let mut v = vec![1u8, 2, 3];
    move_part(&mut v, 1..1, 3);
    assert_eq!(v, vec![1, 2, 3]);
}

#[test]
fn values_write_and_read_themselves() {
    let mut buf = WriteBuffer::new();
    7u8.encode(&mut buf);
    300u16.encode(&mut buf);
    70000u32.encode(&mut buf);
    (1u64 << 40).encode(&mut buf);
    (1u128 << 100).encode(&mut buf);
    (-7i8).encode(&mut buf);
    (-300i16).encode(&mut buf);
    (-70000i32).encode(&mut buf);
    (-(1i64 << 40)).encode(&mut buf);
    (-(1i128 << 100)).encode(&mut buf);
    true.encode(&mut buf);
    12345usize.encode(&mut buf);
    (-12345isize).encode(&mut buf);
    "text".to_string().encode(&mut buf);
    Some(5u8).encode(&mut buf);
    None::<u8>.encode(&mut buf);
    vec![1u32, 500, 70000].encode(&mut buf);
    vec!["a".to_string(), "bc".to_string()].encode(&mut buf);
    Vec::<u8>::new().encode(&mut buf);
    let mut rb = ReadBuffer::new(buf.get_byte(), 0);
    assert_eq!(u8::decode(&mut rb).unwrap(), 7);
    assert_eq!(u16::decode(&mut rb).unwrap(), 300);
    assert_eq!(u32::decode(&mut rb).unwrap(), 70000);
    assert_eq!(u64::decode(&mut rb).unwrap(), 1 << 40);
    assert_eq!(u128::decode(&mut rb).unwrap(), 1 << 100);
    assert_eq!(i8::decode(&mut rb).unwrap(), -7);
    assert_eq!(i16::decode(&mut rb).unwrap(), -300);
    assert_eq!(i32::decode(&mut rb).unwrap(), -70000);
    assert_eq!(i64::decode(&mut rb).unwrap(), -(1 << 40));
    assert_eq!(i128::decode(&mut rb).unwrap(), -(1 << 100));
    assert_eq!(bool::decode(&mut rb).unwrap(), true);
    assert_eq!(usize::decode(&mut rb).unwrap(), 12345);
    assert_eq!(isize::decode(&mut rb).unwrap(), -12345);
    assert_eq!(String::decode(&mut rb).unwrap(), "text");
    assert_eq!(Option::<u8>::decode(&mut rb).unwrap(), Some(5));
    assert_eq!(Option::<u8>::decode(&mut rb).unwrap(), None);
    assert_eq!(Vec::<u32>::decode(&mut rb).unwrap(), vec![1, 500, 70000]);
    assert_eq!(Vec::<String>::decode(&mut rb).unwrap(), vec!["a".to_string(), "bc".to_string()]);
    assert_eq!(Vec::<u8>::decode(&mut rb).unwrap(), Vec::<u8>::new());
    assert_eq!(rb.len(), 0);
    assert_eq!(bytes_of(|b| vec![1u8, 2].encode(b)), vec![18u8, 17, 18]);
}

#[test]
fn a_sequence_that_is_cut_short_leaves_the_cursor() {
    let bytes = bytes_of(|b| vec![1u32, 500, 70000].encode(b));
    let cut = &bytes[..bytes.len() - 2];
    let mut rb = ReadBuffer::new(cut, 0);
    match Vec::<u32>::decode(&mut rb) {
        Err(ReadBonErr::Overflow { try_index, len }) => assert_eq!((try_index, len), (4, 2)),
        _ => panic!("the last value is cut short"),
    }
    assert_eq!(rb.head(), 0);
}

#[test]
fn sign_and_magnitude_cut_down_as_casts_do() {
    let mut rng = thread_rng();
    for _ in 0..2000 {
        let wide: i128 = rng.gen::<i128>() >> (rng.gen::<u32>() % 128);
        let v = Integer { negative: wide < 0, magnitude: wide.unsigned_abs() };
        assert_eq!(v.to_u8(), wide as u8);
        assert_eq!(v.to_u16(), wide as u16);
        assert_eq!(v.to_u32(), wide as u32);
        assert_eq!(v.to_u64(), wide as u64);
        assert_eq!(v.to_u128(), wide as u128);
        assert_eq!(v.to_usize(), wide as usize);
        assert_eq!(v.to_i8(), wide as i8);
        assert_eq!(v.to_i16(), wide as i16);
        assert_eq!(v.to_i32(), wide as i32);
        assert_eq!(v.to_i64(), wide as i64);
        assert_eq!(v.to_i128(), wide);
        assert_eq!(v.to_isize(), wide as isize);
    }
}

#[test]
fn typed_comparisons_of_containers_and_numbers() {
    let a = container(|w| {
        w.write_u8(7);
        w.write_u8(9);
    });
    let b = container(|w| w.write_u8(7));
    let mut r1 = ReadBuffer::new(&a, 0);
    let mut r2 = ReadBuffer::new(&b, 0);
    assert_eq!(
        bon::order::compare_contain(&mut r1, &mut r2).unwrap(),
        Some(Ordering::Equal)
    );
    assert_eq!((r1.head(), r2.head()), (b.len(), b.len()));
    let cut = &b[..b.len() - 2];
    let mut r1 = ReadBuffer::new(&a, 0);
    let mut r2 = ReadBuffer::new(cut, 0);
    match bon::order::compare_contain(&mut r1, &mut r2) {
        Err(ReadBonErr::Overflow { try_index, len }) => assert_eq!((try_index, len), (4, 3)),
        _ => panic!("the second type hash is cut short"),
    }
    assert_eq!((r1.head(), r2.head()), (0, 0));
    let mut r1 = ReadBuffer::new(&b, 0);
    let mut r2 = ReadBuffer::new(&a, 0);
    assert_eq!(
        bon::order::compare_contain(&mut r1, &mut r2).unwrap(),
        Some(Ordering::Equal)
    );
    assert_eq!((r1.head(), r2.head()), (b.len(), b.len()));
    let n = bytes_of(|w| w.write_u8(3));
    let mut rb = ReadBuffer::new(&n, 0);
    assert_eq!(
        bon::order::compare_number(&mut rb, 2.5f64.to_bits()).unwrap(),
        Some(Ordering::Less)
    );
    assert_eq!(rb.head(), 1);
    let x = bytes_of(|w| w.write_bin(&[1, 2], 0..2));
    let y = bytes_of(|w| w.write_bin(&[1, 3], 0..2));
    let mut r1 = ReadBuffer::new(&x, 0);
    let mut r2 = ReadBuffer::new(&y, 0);
    assert_eq!(bon::order::compare_bin(&mut r1, &mut r2).unwrap(), Some(Ordering::Less));
    let mut big = vec![249u8, 5];
    big.extend_from_slice(&[0; 31]);
    let mut rb = ReadBuffer::new(&big, 0);
    assert_eq!(bon::order::to_bigint(&mut rb).unwrap(), num_bigint::BigInt::from(5));
    assert_eq!(rb.head(), 33);
}

#[test]
fn a_write_buffer_reads_as_its_bytes() {
    let mut buf = WriteBuffer::new();
    buf.write_u16(300);
    assert_eq!(buf.len(), 3);
    assert_eq!(buf[0], 37);
    assert_eq!(ReadBuffer::default().len(), 0);
    let rb = ReadBuffer::new(&buf, 1);
    assert_eq!(rb.clone().len(), 2);
}

#[test]
fn entries_of_a_mapping_write_and_read_themselves() {
    let keys = [1u8, 200];
    let values = ["a".to_string(), "bc".to_string()];
    let entries: Vec<(&u8, &String)> = keys.iter().zip(values.iter()).collect();
    let bytes = bytes_of(|b| entries.encode(b));
    assert_eq!(bytes, vec![18u8, 17, 43, 0x61, 36, 200, 44, 0x62, 0x63]);
    let mut rb = ReadBuffer::new(&bytes, 0);
    let back = Vec::<(u8, String)>::decode(&mut rb).unwrap();
    assert_eq!(back, vec![(1, "a".to_string()), (200, "bc".to_string())]);
    assert_eq!(rb.len(), 0);
    let mut rb = ReadBuffer::new(&bytes[..bytes.len() - 1], 0);
    assert!(Vec::<(u8, String)>::decode(&mut rb).is_err());
    assert_eq!(rb.head(), 0);
}
