use bon::error::ReadBonErr;
use bon::read::ReadBuffer;
use bon::value::EnumValue;
use bon::write::growth_for;
use bon::write::lacks_room;
use bon::write::Growth;
use bon::write::WriteBuffer;
use rand::thread_rng;
use rand::Rng;

fn written(f: impl Fn(&mut WriteBuffer)) -> Vec<u8> {
    let mut buf = WriteBuffer::with_bytes(vec![], 0);
    f(&mut buf);
    buf.unwrap()
}

#[test]
fn test_bin() {
    let mut buf = WriteBuffer::with_bytes(vec![], 0);
    let arr: Vec<u8> = (0..1000).map(|_| thread_rng().gen::<u8>()).collect();
    buf.write_bin(&arr, 0..1000);

    let mut read_buf = ReadBuffer::new(buf.get_byte(), 0);
    assert_eq!(read_buf.read_bin().unwrap(), arr);
}

#[test]
fn null_bool_and_small_floats_take_one_byte_each() {
    let mut buf = WriteBuffer::new();
    buf.write_nil();
    buf.write_bool(false);
    buf.write_bool(true);
    buf.write_f32_bits(0.0f32.to_bits());
    buf.write_f32_bits(1.0f32.to_bits());
    assert_eq!(buf.get_byte(), &vec![0u8, 1, 2, 3, 4]);
    assert_eq!(buf.get_byte().len(), 5);
    assert_eq!(buf.tail(), 5);
}

#[test]
fn small_integers_are_their_own_tags() {
    let mut buf = WriteBuffer::new();
    buf.write_u8(0);
    buf.write_u8(19);
    assert_eq!(buf.get_byte(), &vec![16u8, 35]);
    assert_eq!(written(|b| b.write_i8(-1)), vec![15u8]);
}

#[test]
fn short_string_has_its_length_in_the_tag() {
    assert_eq!(written(|b| b.write_utf8("abc")), vec![45u8, 0x61, 0x62, 0x63]);
}

#[test]
fn container_of_six_bytes() {
    let mut buf = WriteBuffer::new();
    let r = buf.write_container(
        &(5i32, true),
        |w, o| {
            w.bytes.extend_from_slice(&0x12345678u32.to_le_bytes());
            w.tail += 4;
            w.write_i32(o.0);
            w.write_bool(o.1);
            Ok(())
        },
        Some(6),
    );
    assert!(r.is_ok());
    assert_eq!(buf.get_byte(), &vec![186u8, 0x78, 0x56, 0x34, 0x12, 21, 2]);
    assert_eq!(buf.get_byte().len(), 7);
    assert_eq!(buf.tail(), 7);
}

#[test]
fn container_keeps_the_reserved_width() {
    let mut buf = WriteBuffer::new();
    buf.write_u8(7);
    let r = buf.write_container(
        &(),
        |w, _| {
            w.bytes.extend_from_slice(&1u32.to_le_bytes());
            w.tail += 4;
            w.write_bool(true);
            Ok(())
        },
        None,
    );
    assert!(r.is_ok());
    assert_eq!(buf.get_byte(), &vec![23u8, 246, 5, 0, 1, 0, 0, 0, 2]);
    assert_eq!(buf.tail(), 9);
}

#[test]
fn container_that_outgrows_its_header_is_moved() {
    let payload = vec![9u8; 300];
    let mut buf = WriteBuffer::new();
    buf.write_nil();
    let r = buf.write_container(
        &payload,
        |w, p| {
            w.bytes.extend_from_slice(&2u32.to_le_bytes());
            w.tail += 4;
            w.write_bin(p, 0..p.len());
            Ok(())
        },
        Some(10),
    );
    assert!(r.is_ok());
    // body: 4 bytes of hash, then tag 177, two bytes of length, 300 bytes
    let body_len = 4 + 3 + 300;
    let bytes = buf.get_byte();
    assert_eq!(bytes.len(), 1 + 3 + body_len);
    assert_eq!(&bytes[..4], &[0u8, 246, (body_len & 0xff) as u8, (body_len >> 8) as u8]);
    assert_eq!(&bytes[4..8], &2u32.to_le_bytes());
    assert_eq!(&bytes[8..11], &[177u8, 44, 1]);
    assert!(bytes[11..].iter().all(|b| *b == 9));
    assert_eq!(buf.tail(), bytes.len());
}

#[test]
fn container_grows_from_no_prefix_to_one_byte() {
    let payload = vec![1u8; 100];
    let mut buf = WriteBuffer::new();
    let r = buf.write_container(
        &payload,
        |w, p| {
            w.bytes.extend_from_slice(&3u32.to_le_bytes());
            w.tail += 4;
            w.write_bin(p, 0..p.len());
            Ok(())
        },
        Some(0),
    );
    assert!(r.is_ok());
    let bytes = buf.get_byte();
    assert_eq!(bytes.len(), 2 + 4 + 2 + 100);
    assert_eq!(&bytes[..2], &[245u8, 106]);
    assert_eq!(&bytes[6..8], &[176u8, 100]);
}

#[test]
fn container_whose_writer_fails_leaves_nothing() {
    let mut buf = WriteBuffer::new();
    buf.write_u8(1);
    let r = buf.write_container(
        &(),
        |w, _| {
            w.write_u8(2);
            Err(ReadBonErr::Other("no".to_string()))
        },
        None,
    );
    match r {
        Err(ReadBonErr::Other(m)) => assert_eq!(m, "no"),
        _ => panic!("the writer's error is handed on"),
    }
    assert_eq!(buf.get_byte(), &vec![17u8]);
    assert_eq!(buf.tail(), 1);
}

#[test]
fn container_with_an_estimate_beyond_48_bits_is_refused() {
    if usize::BITS < 64 {
        return;
    }
    let mut buf = WriteBuffer::new();
    let r = buf.write_container(&(), |_, _| Ok(()), Some(0x1_0000_0000_0000));
    match r {
        Err(ReadBonErr::Other(m)) => assert_eq!(m, "Container overflow"),
        _ => panic!("an estimate that no header holds is refused"),
    }
    assert!(buf.get_byte().is_empty());
}

#[test]
fn container_with_an_estimate_beyond_48_bits_hands_on_its_writers_error() {
    if usize::BITS < 64 {
        return;
    }
    let mut buf = WriteBuffer::new();
    buf.write_u8(3);
    let r = buf.write_container(
        &(),
        |w, _| {
            w.write_u8(1);
            Err(ReadBonErr::Other("writer".to_string()))
        },
        Some(0x1_0000_0000_0000),
    );
    match r {
        Err(ReadBonErr::Other(m)) => assert_eq!(m, "writer"),
        _ => panic!("the writer's error is handed on"),
    }
    assert_eq!(buf.get_byte(), &vec![19u8]);
    assert_eq!(buf.tail(), 1);
    let r = buf.write_container(
        &(),
        |w, _| {
            w.write_u8(1);
            Ok(())
        },
        Some(usize::MAX),
    );
    match r {
        Err(ReadBonErr::Other(m)) => assert_eq!(m, "Container overflow"),
        _ => panic!("an estimate that no header holds is refused"),
    }
    assert_eq!(buf.get_byte(), &vec![19u8]);
    assert_eq!(buf.tail(), 1);
}

#[test]
fn read_container_hands_over_hash_and_length() {
    let mut buf = WriteBuffer::new();
    buf.write_container(
        &(),
        |w, _| {
            w.bytes.extend_from_slice(&0x12345678u32.to_le_bytes());
            w.tail += 4;
            w.write_i32(5);
            w.write_bool(true);
            Ok(())
        },
        Some(6),
    )
    .unwrap();
    buf.write_u8(9);
    let mut rb = ReadBuffer::new(buf.get_byte(), 0);
    let got = rb
        .read_container(|r, hash, len| {
            let a = r.read_i32()?;
            let b = r.read_bool()?;
            Ok((hash, len, a, b, r.head()))
        })
        .unwrap();
    assert_eq!(got, (0x12345678, 6, 5, true, 7));
    assert_eq!(rb.head(), 7);
    assert_eq!(rb.read_u8().unwrap(), 9);
}

#[test]
fn declared_length_spans_the_body() {
    for n in [0usize, 1, 60, 61, 200, 70000] {
        let payload = vec![3u8; n];
        let mut buf = WriteBuffer::new();
        buf.write_container(
            &payload,
            |w, p| {
                w.bytes.extend_from_slice(&7u32.to_le_bytes());
                w.tail += 4;
                w.write_bin(p, 0..p.len());
                Ok(())
            },
            Some(n),
        )
        .unwrap();
        let total = buf.get_byte().len();
        buf.write_nil();
        let rb = ReadBuffer::new(buf.get_byte(), 0);
        let (start, len) = rb.read_header(180, "container").unwrap();
        assert_eq!(start + len as usize, total);
    }
}

#[test]
fn read_container_reports_what_is_missing() {
    let mut rb = ReadBuffer::new(&[186u8, 1, 2], 0);
    match rb.read_container(|_, _, _| Ok(())) {
        Err(ReadBonErr::Overflow { try_index, len }) => assert_eq!((try_index, len), (4, 2)),
        _ => panic!("a hash that is cut short is an overflow"),
    }
    assert_eq!(rb.head(), 0);
    let mut rb = ReadBuffer::new(&[42u8], 0);
    match rb.read_container(|_, _, _| Ok(())) {
        Err(ReadBonErr::TypeNoMatch { try_read, act_type, head }) => {
            assert_eq!(try_read, "container");
            assert_eq!(act_type, ("string".to_string(), 42));
            assert_eq!(head, 0);
        }
        _ => panic!("a string is no container"),
    }
}

#[test]
fn integers_come_back() {
    let mut rng = thread_rng();
    for _ in 0..200 {
        let a: u8 = rng.gen();
        let b: u16 = rng.gen();
        let c: u32 = rng.gen();
        let d: u64 = rng.gen();
        let e: u128 = rng.gen();
        let f: i8 = rng.gen();
        let g: i16 = rng.gen();
        let h: i32 = rng.gen();
        let i: i64 = rng.gen();
        let j: i128 = rng.gen();
        let mut buf = WriteBuffer::new();
        buf.write_u8(a);
        buf.write_u16(b);
        buf.write_u32(c);
        buf.write_u64(d);
        buf.write_u128(e);
        buf.write_i8(f);
        buf.write_i16(g);
        buf.write_i32(h);
        buf.write_i64(i);
        buf.write_i128(j);
        assert_eq!(buf.tail(), buf.get_byte().len());
        let mut rb = ReadBuffer::new(buf.get_byte(), 0);
        assert_eq!(rb.read_u8().unwrap(), a);
        assert_eq!(rb.read_u16().unwrap(), b);
        assert_eq!(rb.read_u32().unwrap(), c);
        assert_eq!(rb.read_u64().unwrap(), d);
        assert_eq!(rb.read_u128().unwrap(), e);
        assert_eq!(rb.read_i8().unwrap(), f);
        assert_eq!(rb.read_i16().unwrap(), g);
        assert_eq!(rb.read_i32().unwrap(), h);
        assert_eq!(rb.read_i64().unwrap(), i);
        assert_eq!(rb.read_i128().unwrap(), j);
        assert_eq!(rb.len(), 0);
    }
}

#[test]
fn extreme_integers_come_back() {
    let mut buf = WriteBuffer::new();
    buf.write_i8(i8::MIN);
    buf.write_i16(i16::MIN);
    buf.write_i32(i32::MIN);
    buf.write_i64(i64::MIN);
    buf.write_i128(i128::MIN);
    buf.write_i128(i128::MAX);
    buf.write_u128(u128::MAX);
    buf.write_u64(u64::MAX);
    let mut rb = ReadBuffer::new(buf.get_byte(), 0);
    assert_eq!(rb.read_i8().unwrap(), i8::MIN);
    assert_eq!(rb.read_i16().unwrap(), i16::MIN);
    assert_eq!(rb.read_i32().unwrap(), i32::MIN);
    assert_eq!(rb.read_i64().unwrap(), i64::MIN);
    assert_eq!(rb.read_i128().unwrap(), i128::MIN);
    assert_eq!(rb.read_i128().unwrap(), i128::MAX);
    assert_eq!(rb.read_u128().unwrap(), u128::MAX);
    assert_eq!(rb.read_u64().unwrap(), u64::MAX);
}

#[test]
fn integers_take_the_narrowest_tag() {
    for v in -1i32..=19 {
        assert_eq!(written(|b| b.write_i32(v)).len(), 1);
        assert_eq!(written(|b| b.write_i128(v as i128)), vec![(v + 16) as u8]);
    }
    for v in i8::MIN..=i8::MAX {
        if !(-1..=19).contains(&v) {
            assert_eq!(written(|b| b.write_i8(v)).len(), 2);
        }
    }
    assert_eq!(written(|b| b.write_i8(-128)), vec![9u8, 128]);
    assert_eq!(written(|b| b.write_u8(200)), vec![36u8, 200]);
    assert_eq!(written(|b| b.write_i32(200)), vec![36u8, 200]);
    assert_eq!(written(|b| b.write_u32(0x1234)), vec![37u8, 0x34, 0x12]);
    assert_eq!(written(|b| b.write_i32(-0x1234)), vec![10u8, 0x34, 0x12]);
    assert_eq!(written(|b| b.write_u32(0x12345678)), vec![38u8, 0x78, 0x56, 0x34, 0x12]);
    assert_eq!(
        written(|b| b.write_u64(0x1234_5678_9ABC)),
        vec![39u8, 0xBC, 0x9A, 0x78, 0x56, 0x34, 0x12]
    );
    assert_eq!(
        written(|b| b.write_i64(-0x1234_5678_9ABC)),
        vec![12u8, 0xBC, 0x9A, 0x78, 0x56, 0x34, 0x12]
    );
    assert_eq!(
        written(|b| b.write_u64(0x0102_0304_0506_0708)),
        vec![40u8, 8, 7, 6, 5, 4, 3, 2, 1]
    );
    assert_eq!(
        written(|b| b.write_i64(i64::MIN)),
        vec![13u8, 0, 0, 0, 0, 0, 0, 0, 0x80]
    );
    assert_eq!(written(|b| b.write_u128(u64::MAX as u128)).len(), 9);
    let wide = written(|b| b.write_u128(1u128 << 64));
    assert_eq!(wide.len(), 17);
    assert_eq!(wide[0], 41);
    assert_eq!(wide[9], 1);
    assert_eq!(written(|b| b.write_i128(-(1i128 << 64)))[0], 14);
}

#[test]
fn a_wider_integer_is_cut_down_by_a_narrower_read() {
    let bytes = written(|b| b.write_u32(0x1234_56FF));
    assert_eq!(ReadBuffer::new(&bytes, 0).read_u8().unwrap(), 0xFF);
    assert_eq!(ReadBuffer::new(&bytes, 0).read_u16().unwrap(), 0x56FF);
    assert_eq!(ReadBuffer::new(&bytes, 0).read_i8().unwrap(), -1);
    let bytes = written(|b| b.write_i32(-2));
    assert_eq!(ReadBuffer::new(&bytes, 0).read_u8().unwrap(), 254);
    assert_eq!(ReadBuffer::new(&bytes, 0).read_u32().unwrap(), u32::MAX - 1);
    assert_eq!(ReadBuffer::new(&bytes, 0).read_u128().unwrap(), u128::MAX - 1);
    assert_eq!(ReadBuffer::new(&bytes, 0).read_usize().unwrap(), usize::MAX - 1);
    assert_eq!(ReadBuffer::new(&bytes, 0).read_isize().unwrap(), -2);
    let bytes = written(|b| b.write_u128(u128::MAX));
    assert_eq!(ReadBuffer::new(&bytes, 0).read_i128().unwrap(), -1);
    assert_eq!(ReadBuffer::new(&bytes, 0).read_u64().unwrap(), u64::MAX);
}

#[test]
fn booleans_come_back() {
    for v in [false, true] {
        let bytes = written(|b| b.write_bool(v));
        let mut rb = ReadBuffer::new(&bytes, 0);
        assert_eq!(rb.read_bool().unwrap(), v);
        assert_eq!(rb.head(), 1);
    }
}

#[test]
fn floats_come_back() {
    let mut rng = thread_rng();
    for _ in 0..200 {
        let a = f32::from_bits(rng.gen());
        let b = f64::from_bits(rng.gen());
        let mut buf = WriteBuffer::new();
        buf.write_f32_bits(a.to_bits());
        buf.write_f64_bits(b.to_bits());
        let mut rb = ReadBuffer::new(buf.get_byte(), 0);
        assert_eq!(rb.read_f32_bits().unwrap(), a.to_bits());
        assert_eq!(rb.read_f64_bits().unwrap(), b.to_bits());
    }
    let bytes = written(|b| b.write_f32_bits(5.5f32.to_bits()));
    assert_eq!(bytes, vec![6u8, 0, 0, 0xB0, 0x40]);
    let bytes = written(|b| b.write_f64_bits(1.0f64.to_bits()));
    assert_eq!(bytes, vec![4u8]);
    let bytes = written(|b| b.write_f64_bits((-0.0f64).to_bits()));
    assert_eq!(bytes, vec![7u8, 0, 0, 0, 0, 0, 0, 0, 0x80]);
    let bytes = written(|b| b.write_f64_bits(2.0f64.to_bits()));
    assert_eq!(bytes, vec![7u8, 0, 0, 0, 0, 0, 0, 0, 0x40]);
}

#[test]
fn a_float_read_takes_what_is_not_a_float() {
    let bytes = written(|b| b.write_f32_bits(5.25f32.to_bits()));
    assert_eq!(f64::from_bits(ReadBuffer::new(&bytes, 0).read_f64_bits().unwrap()), 5.25);
    let bytes = written(|b| b.write_u32(16_777_217));
    assert_eq!(
        f32::from_bits(ReadBuffer::new(&bytes, 0).read_f32_bits().unwrap()),
        16_777_217u32 as f32
    );
    let bytes = written(|b| b.write_u64(u64::MAX));
    assert_eq!(
        f64::from_bits(ReadBuffer::new(&bytes, 0).read_f64_bits().unwrap()),
        u64::MAX as f64
    );
    assert_eq!(
        f32::from_bits(ReadBuffer::new(&bytes, 0).read_f32_bits().unwrap()),
        u32::MAX as f32
    );
    let bytes = written(|b| b.write_i8(-1));
    assert_eq!(
        f64::from_bits(ReadBuffer::new(&bytes, 0).read_f64_bits().unwrap()),
        u64::MAX as f64
    );
    match ReadBuffer::new(&[42u8], 0).read_f32_bits() {
        Err(ReadBonErr::TypeNoMatch { try_read, .. }) => assert_eq!(try_read, "f32"),
        _ => panic!("a string is no number"),
    }
    match ReadBuffer::new(&[5u8, 0, 0], 0).read_f64_bits() {
        Err(ReadBonErr::TypeNoMatch { try_read, act_type, .. }) => {
            assert_eq!(try_read, "f64");
            assert_eq!(act_type, ("float".to_string(), 5));
        }
        _ => panic!("the 16-bit width is reserved"),
    }
}

fn random_text(n: usize) -> String {
    let mut s = String::new();
    (0..n).for_each(|_| s.push(thread_rng().gen::<char>()));
    s
}

#[test]
fn strings_come_back() {
    for n in [0usize, 1, 10, 16, 17, 64, 100, 1000, 10000, 70000] {
        let s = random_text(n);
        let bytes = written(|b| b.write_utf8(&s));
        let mut rb = ReadBuffer::new(&bytes, 0);
        assert_eq!(rb.read_utf8().unwrap(), s);
        assert_eq!(rb.len(), 0);
    }
}

#[test]
fn binary_values_come_back() {
    for n in [0usize, 1, 64, 65, 255, 256, 1000, 65535, 65536] {
        let arr: Vec<u8> = (0..n).map(|_| thread_rng().gen::<u8>()).collect();
        let bytes = written(|b| b.write_bin(&arr, 0..n));
        let header = if n <= 64 {
            1
        } else if n <= 0xff {
            2
        } else if n <= 0xffff {
            3
        } else {
            5
        };
        assert_eq!(bytes.len(), header + n);
        let mut rb = ReadBuffer::new(&bytes, 0);
        assert_eq!(rb.read_bin().unwrap(), arr);
        assert_eq!(rb.head(), header + n);
    }
    assert_eq!(written(|b| b.write_bin(&[1, 2, 3, 4], 1..3)), vec![113u8, 2, 3]);
    let long = written(|b| b.write_bin(&[7u8; 300], 0..300));
    assert_eq!(&long[..3], &[177u8, 44, 1]);
    let longer = written(|b| b.write_bin(&vec![7u8; 70000], 0..70000));
    assert_eq!(&longer[..5], &[178u8, 0x70, 0x11, 0x01, 0]);
    let medium = written(|b| b.write_utf8(&"a".repeat(65)));
    assert_eq!(&medium[..2], &[107u8, 65]);
}

#[test]
fn bytes_that_are_no_text_come_out_with_replacements() {
    let mut rb = ReadBuffer::new(&[45u8, 0x61, 0xFF, 0x62], 0);
    assert_eq!(rb.read_utf8().unwrap(), "a\u{FFFD}b");
}

#[test]
fn length_prefix_below_128_comes_back() {
    for n in 0u32..0x80 {
        let bytes = written(|b| b.write_lengthen(n).unwrap());
        assert_eq!(bytes, vec![n as u8]);
        let mut rb = ReadBuffer::new(&bytes, 0);
        assert_eq!(rb.read_lengthen().unwrap(), n);
        assert_eq!(rb.head(), 1);
    }
}

#[test]
fn length_prefix_is_little_endian() {
    assert_eq!(written(|b| b.write_lengthen(0x80).unwrap()), vec![0x80u8, 0x80]);
    assert_eq!(written(|b| b.write_lengthen(0x3FFF).unwrap()), vec![0xFFu8, 0xBF]);
    assert_eq!(written(|b| b.write_lengthen(0x4000).unwrap()), vec![0u8, 0x40, 0, 0xC0]);
    assert_eq!(
        written(|b| b.write_lengthen(0x1FFF_FFFF).unwrap()),
        vec![0xFFu8, 0xFF, 0xFF, 0xDF]
    );
}

fn survives(n: u32) -> bool {
    n < 0x80
        || (n < 0x4000 && (0x80..0xC0).contains(&(n % 256)))
        || (n >= 0x4000 && (0xC0..0xE0).contains(&(n % 256)))
}

#[test]
fn length_prefix_comes_back_where_its_low_byte_marks_the_width() {
    let mut samples: Vec<u32> = (0..0x5000).collect();
    samples.extend([0x1FFF_FFFF, 0x1FFF_FFC0, 0x1000_00DF, 0x1000_0000, 0x12_3456]);
    for n in samples {
        let bytes = written(|b| b.write_lengthen(n).unwrap());
        let mut rb = ReadBuffer::new(&bytes, 0);
        let back = rb.read_lengthen();
        let same = matches!(back, Ok(v) if v == n) && rb.head() == bytes.len();
        assert_eq!(same, survives(n), "count {}", n);
    }
}

#[test]
fn length_prefix_beyond_29_bits_is_refused() {
    let mut buf = WriteBuffer::new();
    match buf.write_lengthen(0x2000_0000) {
        Err(ReadBonErr::Other(m)) => assert_eq!(m, "Invalid lengthen: 536870912"),
        _ => panic!("the count does not fit"),
    }
    assert!(buf.get_byte().is_empty());
    assert!(buf.write_lengthen(0x1FFF_FFFF).is_ok());
}

#[test]
fn malformed_length_prefix_is_a_mismatch() {
    for bytes in [vec![0x80u8, 0x00], vec![0xC0u8, 0, 0, 0], vec![0xE0u8, 0, 0, 0]] {
        let mut rb = ReadBuffer::new(&bytes, 0);
        match rb.read_lengthen() {
            Err(ReadBonErr::TypeNoMatch { try_read, act_type, head }) => {
                assert_eq!(try_read, "lengthen");
                assert_eq!(act_type.1, bytes[0]);
                assert_eq!(head, 0);
            }
            _ => panic!("not a length prefix"),
        }
        assert_eq!(rb.head(), 0);
    }
    match ReadBuffer::new(&[0x80u8], 0).read_lengthen() {
        Err(ReadBonErr::Overflow { try_index, len }) => assert_eq!((try_index, len), (2, 1)),
        _ => panic!("the second byte is missing"),
    }
}

#[test]
fn reads_past_the_end_are_overflows() {
    let mut rb = ReadBuffer::new(&[], 0);
    match rb.read_bool() {
        Err(ReadBonErr::Overflow { try_index, len }) => assert_eq!((try_index, len), (1, 0)),
        _ => panic!("nothing to read"),
    }
    let mut rb = ReadBuffer::new(&[38u8, 1, 2], 0);
    match rb.read_u32() {
        Err(ReadBonErr::Overflow { try_index, len }) => assert_eq!((try_index, len), (4, 2)),
        _ => panic!("payload cut short"),
    }
    assert_eq!(rb.head(), 0);
    let mut rb = ReadBuffer::new(&[45u8, 0x61], 0);
    match rb.read_utf8() {
        Err(ReadBonErr::Overflow { try_index, len }) => assert_eq!((try_index, len), (3, 1)),
        _ => panic!("payload cut short"),
    }
    let mut rb = ReadBuffer::new(&[177u8, 1], 0);
    match rb.read_bin() {
        Err(ReadBonErr::Overflow { try_index, len }) => assert_eq!((try_index, len), (2, 1)),
        _ => panic!("length prefix cut short"),
    }
    let mut rb = ReadBuffer::new(&[16u8, 16], 5);
    assert!(matches!(rb.get_type(), Err(ReadBonErr::Overflow { .. })));
    assert_eq!(rb.len(), 0);
}

#[test]
fn a_tag_of_another_kind_is_a_mismatch_and_stays() {
    let mut rb = ReadBuffer::new(&[0u8, 45, 2], 1);
    match rb.read_bool() {
        Err(ReadBonErr::TypeNoMatch { try_read, act_type, head }) => {
            assert_eq!(try_read, "bool");
            assert_eq!(act_type, ("string".to_string(), 45));
            assert_eq!(head, 1);
        }
        _ => panic!("a string is no boolean"),
    }
    assert_eq!(rb.head(), 1);
    let names: Vec<(u8, &str)> = vec![
        (0, "null"),
        (1, "false"),
        (2, "true"),
        (3, "0.0"),
        (4, "1.0"),
        (5, "float"),
        (8, "float"),
        (42, "string"),
        (110, "string"),
        (111, "bin"),
        (179, "bin"),
        (180, "container"),
        (248, "container"),
        (249, "invalid type"),
        (255, "invalid type"),
    ];
    for (tag, name) in names {
        match ReadBuffer::new(&[tag], 0).read_i32() {
            Err(ReadBonErr::TypeNoMatch { try_read, act_type, head }) => {
                assert_eq!(try_read, "integer");
                assert_eq!(act_type, (name.to_string(), tag));
                assert_eq!(head, 0);
            }
            _ => panic!("tag {} is no integer", tag),
        }
    }
    let names: Vec<(u8, &str)> =
        vec![(9, "int"), (14, "int"), (15, "-1"), (16, "0"), (26, "10"), (35, "19"), (36, "uint")];
    for (tag, name) in names {
        match ReadBuffer::new(&[tag], 0).read_bin() {
            Err(ReadBonErr::TypeNoMatch { act_type, .. }) => {
                assert_eq!(act_type, (name.to_string(), tag))
            }
            _ => panic!("tag {} is no binary value", tag),
        }
    }
}

#[test]
fn cursor_starts_at_head() {
    let bytes = [16u8, 17, 18];
    let mut rb = ReadBuffer::new(&bytes, 1);
    assert_eq!(rb.len(), 2);
    assert_eq!(rb.get_type_chunk().unwrap(), 17);
    assert_eq!(rb.head(), 1);
    assert_eq!(rb.get_type().unwrap(), 17);
    assert_eq!(rb.head(), 2);
    assert_eq!(rb.read_u8().unwrap(), 2);
    assert_eq!(rb.len(), 0);
}

#[test]
fn null_is_taken_only_where_it_is() {
    let mut rb = ReadBuffer::new(&[0u8, 16], 0);
    assert_eq!(rb.is_nil().unwrap(), true);
    assert_eq!(rb.head(), 1);
    assert_eq!(rb.is_nil().unwrap(), false);
    assert_eq!(rb.head(), 1);
    assert_eq!(rb.read_u8().unwrap(), 0);
    assert!(matches!(rb.is_nil(), Err(ReadBonErr::Overflow { .. })));
}

#[test]
fn generic_read_gives_each_kind() {
    let mut buf = WriteBuffer::new();
    buf.write_nil();
    buf.write_bool(true);
    buf.write_f32_bits(0.0f32.to_bits());
    buf.write_f32_bits(2.5f32.to_bits());
    buf.write_f64_bits(2.5f64.to_bits());
    buf.write_i8(-1);
    buf.write_u8(7);
    buf.write_u8(200);
    buf.write_u16(2000);
    buf.write_u32(200_000);
    buf.write_u64(1 << 40);
    buf.write_u64(1 << 50);
    buf.write_u128(1 << 100);
    buf.write_i32(-100);
    buf.write_i32(-1000);
    buf.write_i32(-100_000);
    buf.write_i64(-(1 << 40));
    buf.write_i64(-(1 << 50));
    buf.write_i128(-(1 << 100));
    buf.write_utf8("hi");
    buf.write_bin(&[1, 2], 0..2);
    let mut rb = ReadBuffer::new(buf.get_byte(), 0);
    assert!(matches!(rb.read().unwrap(), EnumValue::Void));
    assert!(matches!(rb.read().unwrap(), EnumValue::Bool(true)));
    assert!(matches!(rb.read().unwrap(), EnumValue::F32(0)));
    assert!(matches!(rb.read().unwrap(), EnumValue::F32(b) if f32::from_bits(b) == 2.5));
    assert!(matches!(rb.read().unwrap(), EnumValue::F64(b) if f64::from_bits(b) == 2.5));
    assert!(matches!(rb.read().unwrap(), EnumValue::I8(-1)));
    assert!(matches!(rb.read().unwrap(), EnumValue::U8(7)));
    assert!(matches!(rb.read().unwrap(), EnumValue::U8(200)));
    assert!(matches!(rb.read().unwrap(), EnumValue::U16(2000)));
    assert!(matches!(rb.read().unwrap(), EnumValue::U32(200_000)));
    assert!(
        matches!(rb.read().unwrap(), EnumValue::F64(b) if f64::from_bits(b) == (1u64 << 40) as f64)
    );
    assert!(matches!(rb.read().unwrap(), EnumValue::U64(v) if v == 1 << 50));
    assert!(matches!(rb.read().unwrap(), EnumValue::U128(v) if v == 1 << 100));
    assert!(matches!(rb.read().unwrap(), EnumValue::I16(-100)));
    assert!(matches!(rb.read().unwrap(), EnumValue::I32(-1000)));
    assert!(matches!(rb.read().unwrap(), EnumValue::I64(-100_000)));
    assert!(
        matches!(rb.read().unwrap(), EnumValue::F64(b) if f64::from_bits(b) == -((1u64 << 40) as f64))
    );
    assert!(matches!(rb.read().unwrap(), EnumValue::I64(v) if v == -(1 << 50)));
    assert!(matches!(rb.read().unwrap(), EnumValue::I128(v) if v == -(1 << 100)));
    assert!(matches!(rb.read().unwrap(), EnumValue::Str(s) if s == "hi"));
    assert!(matches!(rb.read().unwrap(), EnumValue::Bin(b) if b == vec![1, 2]));
    assert!(matches!(rb.read(), Err(ReadBonErr::Overflow { .. })));
}

#[test]
fn generic_read_refuses_what_it_cannot_give() {
    match ReadBuffer::new(&[5u8], 0).read() {
        Err(ReadBonErr::Other(m)) => assert_eq!(m, "16-bit float unsupported"),
        _ => panic!("reserved"),
    }
    match ReadBuffer::new(&[8u8], 0).read() {
        Err(ReadBonErr::Other(m)) => assert_eq!(m, "128-bit float unsupported"),
        _ => panic!("reserved"),
    }
    for tag in 245u8..=248 {
        let bytes = [tag, 0, 0];
        let mut rb = ReadBuffer::new(&bytes, 0);
        match rb.read() {
            Err(ReadBonErr::IsContainer(t)) => assert_eq!(t, tag),
            _ => panic!("a container goes another way"),
        }
        assert_eq!(rb.head(), 0);
    }
    match ReadBuffer::new(&[186u8, 0], 0).read() {
        Err(ReadBonErr::Other(m)) => assert_eq!(m, "Unexpected type: 186"),
        _ => panic!("a container goes another way"),
    }
    match ReadBuffer::new(&[249u8], 0).read() {
        Err(ReadBonErr::Other(m)) => assert_eq!(m, "Unexpected type: 249"),
        _ => panic!("no value of this tag"),
    }
}

#[test]
fn buffer_counts_what_is_written() {
    let mut buf = WriteBuffer::with_capacity(16);
    assert_eq!(buf.tail(), 0);
    buf.write_u32(70000);
    assert_eq!(buf.tail(), 5);
    buf.clear();
    assert_eq!(buf.tail(), 0);
    assert_eq!(buf.get_byte().len(), 5);
    buf.write_nil();
    assert_eq!(buf.tail(), 1);
    assert_eq!(buf.get_byte().len(), 6);
    let again = WriteBuffer::with_bytes(buf.clone().unwrap(), 6);
    assert_eq!(again.tail(), 6);
    assert_eq!(WriteBuffer::default().tail(), 0);
}

#[test]
fn large_buffer_keeps_growing() {
    let chunk = vec![5u8; 1 << 20];
    let mut buf = WriteBuffer::new();
    for _ in 0..6 {
        buf.write_bin(&chunk, 0..chunk.len());
    }
    buf.write_u8(1);
    assert_eq!(buf.get_byte().len(), 6 * ((1 << 20) + 5) + 1);
    assert_eq!(buf.tail(), buf.get_byte().len());
    let mut rb = ReadBuffer::new(buf.get_byte(), 0);
    for _ in 0..6 {
        assert_eq!(rb.read_bin().unwrap().len(), 1 << 20);
    }
    assert_eq!(rb.read_u8().unwrap(), 1);
}

#[test]
fn a_buffer_grows_exactly_above_four_mebibytes() {
    assert_eq!(growth_for(0, 0, 1), Growth::Amortized);
    assert_eq!(growth_for(4194304, 4194304, 100), Growth::Amortized);
    assert_eq!(growth_for(4194305, 4194305, 100), Growth::Exact);
    assert_eq!(growth_for(4194305, 0, 0), Growth::Exact);
    assert_eq!(growth_for(10, isize::MAX as usize, 1), Growth::Unreserved);
    assert_eq!(growth_for(10, 1, isize::MAX as usize), Growth::Unreserved);
    assert_eq!(growth_for(10, 0, isize::MAX as usize), Growth::Amortized);
    assert_eq!(growth_for(usize::MAX, usize::MAX, usize::MAX), Growth::Unreserved);
    assert!(!lacks_room(10, 4, 6));
    assert!(lacks_room(10, 4, 7));
    assert!(lacks_room(10, 11, 0));
    assert!(!lacks_room(0, 0, 0));
    assert!(lacks_room(usize::MAX, usize::MAX, 1));
}
