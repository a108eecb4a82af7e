use hdbconnect::error::{HdbError, ImplError, ProtocolError};
use hdbconnect::parts::hdb_value::{
    parse_from_reply, serialize, size, HdbValue,
};
use hdbconnect::parts::length::{
    binary_length, parse_binary, parse_nullable_binary, parse_nullable_string, parse_string,
    serialize_length, serialize_length_and_bytes, serialize_length_and_string, string_length,
};
use hdbconnect::text::{cesu8_length, cesu8_to_string, string_to_cesu8};
use hdbconnect::types::dates::{
    parse_daydate, parse_longdate, parse_seconddate, DayDate, LongDate, SecondDate,
};
use hdbconnect::types::decimal::{parse_decimal, HdbDecimal};
use hdbconnect::types::secondtime::{parse_nullable_secondtime, parse_secondtime, SecondTime};
use hdbconnect::wire::{
    emit_zeros, padsize, parse_bytes, skip_bytes, take_i16, take_i32, take_i64, take_i8,
    take_u32, take_u64, take_u8, write_i8, write_u8,
};

fn is_truncated<T>(r: Result<T, HdbError>) -> bool {
    matches!(r, Err(HdbError::Protocol(ProtocolError::Truncated)))
}

fn emitted(v: &HdbValue) -> Vec<u8> {
    let mut w = Vec::new();
    let mut data_pos = 0u64;
    serialize(v, &mut data_pos, &mut w).unwrap();
    w
}

#[test]
fn padsize_follows_the_rule() {
    assert_eq!(padsize(0), 0);
    assert_eq!(padsize(1), 7);
    assert_eq!(padsize(2), 6);
    assert_eq!(padsize(7), 1);
    assert_eq!(padsize(8), 0);
    assert_eq!(padsize(9), 7);
    assert_eq!(padsize(16), 0);
    assert_eq!(padsize(24), 0);
    assert_eq!(padsize(245), 3);
}

#[test]
fn padded_sizes_are_multiples_of_eight() {
    for n in 0usize..5000 {
        let p = padsize(n);
        assert!(p < 8);
        assert_eq!((n + p) % 8, 0);
    }
}

#[test]
fn integers_are_read_little_endian() {
    let b = [0x01u8, 0x02, 0x03, 0x04, 0x05, 0x06, 0x07, 0x08, 0xff];
    assert_eq!(take_u8(&b, 0).unwrap(), (1, 1));
    assert_eq!(take_i8(&b, 8).unwrap(), (-1, 9));
    assert_eq!(take_i16(&b, 0).unwrap(), (0x0201, 2));
    assert_eq!(take_i32(&b, 0).unwrap(), (0x04030201, 4));
    assert_eq!(take_u32(&b, 4).unwrap(), (0x08070605, 8));
    assert_eq!(take_i64(&b, 0).unwrap(), (0x0807060504030201, 8));
    assert_eq!(take_u64(&b, 0).unwrap(), (0x0807060504030201, 8));
    assert_eq!(take_i32(&[0xfe, 0xff, 0xff, 0xff], 0).unwrap(), (-2, 4));
    assert_eq!(take_i16(&[0x00, 0x80], 0).unwrap(), (i16::MIN, 2));
    assert_eq!(take_i64(&[0xff; 8], 0).unwrap(), (-1, 8));
    assert_eq!(take_u64(&[0xff; 8], 0).unwrap(), (u64::MAX, 8));
}

#[test]
fn reading_past_the_end_is_truncation() {
    let b = [1u8, 2, 3];
    assert!(is_truncated(take_u8(&b, 3)));
    assert!(is_truncated(take_u8(&b, 100)));
    assert!(is_truncated(take_i16(&b, 2)));
    assert!(is_truncated(take_i32(&b, 0)));
    assert!(is_truncated(take_u32(&b, 0)));
    assert!(is_truncated(take_i64(&b, 0)));
    assert!(is_truncated(take_u64(&b, 0)));
    assert!(is_truncated(parse_bytes(&b, 1, 3)));
    assert!(is_truncated(skip_bytes(&b, 0, 4)));
    assert_eq!(skip_bytes(&b, 1, 2).unwrap(), 3);
    assert_eq!(parse_bytes(&b, 1, 2).unwrap(), (vec![2, 3], 3));
    assert_eq!(parse_bytes(&b, 3, 0).unwrap(), (vec![], 3));
}

#[test]
fn single_bytes_and_zeros_are_written() {
    let mut w = vec![9u8];
    write_u8(&mut w, 7);
    write_i8(&mut w, -1);
    write_i8(&mut w, -128);
    emit_zeros(3, &mut w);
    assert_eq!(w, vec![9, 7, 0xff, 0x80, 0, 0, 0]);
}

#[test]
fn length_indicator_at_the_boundaries() {
    for (len, prefix) in [
        (0usize, vec![0u8]),
        (245, vec![245]),
        (246, vec![246, 246, 0]),
        (32767, vec![246, 0xff, 0x7f]),
        (32768, vec![247, 0x00, 0x80, 0x00, 0x00]),
        (2147483647, vec![247, 0xff, 0xff, 0xff, 0x7f]),
    ] {
        let mut w = Vec::new();
        serialize_length(len, &mut w).unwrap();
        assert_eq!(w, prefix, "length {}", len);
        assert_eq!(binary_length(len).unwrap(), len + prefix.len());
    }
    let mut w = vec![1u8];
    assert!(matches!(
        serialize_length(2147483648, &mut w),
        Err(HdbError::Impl(ImplError::TooLarge))
    ));
    assert_eq!(w, vec![1]);
    assert!(matches!(binary_length(2147483648), Err(HdbError::Impl(ImplError::TooLarge))));
}

#[test]
fn byte_strings_at_the_boundaries_come_back() {
    for len in [0usize, 1, 245, 246, 32767, 32768, 70000] {
        let data: Vec<u8> = (0..len).map(|i| (i % 251) as u8).collect();
        let mut w = vec![0xaau8];
        serialize_length_and_bytes(&data, &mut w).unwrap();
        assert_eq!(w.len(), 1 + binary_length(len).unwrap());
        w.push(0xbb);
        let (back, end) = parse_binary(&w, 1).unwrap();
        assert_eq!(back, data);
        assert_eq!(end, w.len() - 1);
        let (back, end) = parse_nullable_binary(&w, 1).unwrap();
        assert_eq!(back, Some(data));
        assert_eq!(end, w.len() - 1);
    }
}

#[test]
fn length_indicator_255_is_null_only_where_allowed() {
    assert_eq!(parse_nullable_binary(&[255], 0).unwrap(), (None, 1));
    assert_eq!(parse_nullable_string(&[255], 0).unwrap(), (None, 1));
    assert!(matches!(
        parse_binary(&[255], 0),
        Err(HdbError::Impl(ImplError::InvalidLengthIndicator(255)))
    ));
    assert!(matches!(
        parse_string(&[255], 0),
        Err(HdbError::Impl(ImplError::InvalidLengthIndicator(255)))
    ));
    for l in 248u8..255 {
        assert!(matches!(
            parse_nullable_binary(&[l, 0, 0, 0, 0], 0),
            Err(HdbError::Impl(ImplError::InvalidLengthIndicator(x))) if x == l
        ));
    }
}

#[test]
fn negative_and_overlong_lengths_are_refused() {
    assert!(matches!(
        parse_binary(&[246, 0xff, 0xff], 0),
        Err(HdbError::Protocol(ProtocolError::NegativeLength))
    ));
    assert!(matches!(
        parse_binary(&[247, 0, 0, 0, 0x80], 0),
        Err(HdbError::Protocol(ProtocolError::NegativeLength))
    ));
    assert!(is_truncated(parse_binary(&[3, 1, 2], 0)));
    assert!(is_truncated(parse_binary(&[246, 1], 0)));
    assert!(is_truncated(parse_binary(&[], 0)));
    // a short string behind a long indicator is accepted
    assert_eq!(parse_binary(&[246, 2, 0, 8, 9], 0).unwrap(), (vec![8, 9], 5));
}

#[test]
fn text_goes_over_the_wire_as_cesu8() {
    assert_eq!(string_to_cesu8("abc"), b"abc".to_vec());
    assert_eq!(string_to_cesu8("aé日"), "aé日".as_bytes().to_vec());
    assert_eq!(string_to_cesu8("\u{10401}"), vec![0xED, 0xA0, 0x81, 0xED, 0xB0, 0x81]);
    assert_eq!(cesu8_length("\u{10401}"), 6);
    assert_eq!(cesu8_length("x\u{10401}y"), 8);
    assert_eq!(cesu8_to_string(&[0xED, 0xA0, 0x81, 0xED, 0xB0, 0x81]).unwrap(), "\u{10401}");
    assert_eq!(cesu8_to_string("aé日".as_bytes()).unwrap(), "aé日");
    assert!(matches!(
        cesu8_to_string(&[0xED, 0xA0, 0x81]),
        Err(HdbError::Impl(ImplError::InvalidCesu8))
    ));
    assert!(matches!(cesu8_to_string(&[0xff, 0xff]), Err(HdbError::Impl(ImplError::InvalidCesu8))));
}

#[test]
fn strings_come_back_through_their_length_indicator() {
    for s in ["", "x", "testピパぽ", "a\u{10401}b\u{1F600}", "0123456789"] {
        let mut w = Vec::new();
        serialize_length_and_string(s, &mut w).unwrap();
        assert_eq!(w.len(), string_length(s).unwrap());
        assert_eq!(w[0] as usize, cesu8_length(s));
        let (back, end) = parse_string(&w, 0).unwrap();
        assert_eq!(back, s);
        assert_eq!(end, w.len());
        let (back, _) = parse_nullable_string(&w, 0).unwrap();
        assert_eq!(back.as_deref(), Some(s));
    }
    let long: String = "ä".repeat(200);
    assert_eq!(string_length(&long).unwrap(), 400 + 3);
    assert!(matches!(
        parse_string(&[2, 0xff, 0xff], 0),
        Err(HdbError::Impl(ImplError::InvalidCesu8))
    ));
}

#[test]
fn secondtime_boundaries() {
    assert_eq!(SecondTime::new(0).as_hms(), (0, 0, 0));
    assert_eq!(SecondTime::new(1).as_hms(), (0, 0, 0));
    assert_eq!(SecondTime::new(2).as_hms(), (0, 0, 1));
    assert_eq!(SecondTime::new(3662).as_hms(), (1, 1, 1));
    assert_eq!(SecondTime::new(86_400).as_hms(), (23, 59, 59));
    assert_eq!(SecondTime::new(86_401).as_hms(), (23, 59, 59));
    assert_eq!(*SecondTime::new(86_401).ref_raw(), 86_401);
    let bytes = |raw: i32| raw.to_le_bytes().to_vec();
    assert_eq!(parse_secondtime(&bytes(0), 0).unwrap().0.as_hms(), (0, 0, 0));
    assert_eq!(parse_secondtime(&bytes(1), 0).unwrap().0.as_hms(), (0, 0, 0));
    assert_eq!(parse_secondtime(&bytes(86_401), 0).unwrap().0.as_hms(), (23, 59, 59));
    assert!(matches!(
        parse_secondtime(&bytes(86_402), 0),
        Err(HdbError::Impl(ImplError::UnexpectedNull))
    ));
    assert_eq!(parse_nullable_secondtime(&bytes(86_402), 0).unwrap(), (None, 4));
    assert_eq!(
        parse_nullable_secondtime(&bytes(86_401), 0).unwrap(),
        (Some(SecondTime::new(86_401)), 4)
    );
    assert!(matches!(
        parse_secondtime(&bytes(86_403), 0),
        Err(HdbError::Impl(ImplError::ValueOutOfRange))
    ));
    assert!(matches!(
        parse_nullable_secondtime(&bytes(-1), 0),
        Err(HdbError::Impl(ImplError::ValueOutOfRange))
    ));
    assert!(is_truncated(parse_secondtime(&[1, 2, 3], 0)));
}

#[test]
fn secondtime_from_hours_minutes_seconds() {
    assert_eq!(*SecondTime::from_hms(0, 0, 0).unwrap().ref_raw(), 1);
    assert_eq!(*SecondTime::from_hms(23, 59, 59).unwrap().ref_raw(), 86_400);
    assert_eq!(*SecondTime::from_hms(12, 34, 56).unwrap().ref_raw(), 12 * 3600 + 34 * 60 + 57);
    assert_eq!(SecondTime::from_hms(12, 34, 56).unwrap().as_hms(), (12, 34, 56));
    assert_eq!(SecondTime::from_hms(24, 0, 0), Err("illegal value of hour, minute or second"));
    assert_eq!(SecondTime::from_hms(0, 60, 0), Err("illegal value of hour, minute or second"));
    assert_eq!(SecondTime::from_hms(0, 0, 60), Err("illegal value of hour, minute or second"));
    for h in 0..24 {
        for m in [0, 1, 30, 59] {
            for s in [0, 1, 30, 59] {
                assert_eq!(SecondTime::from_hms(h, m, s).unwrap().as_hms(), (h, m, s));
            }
        }
    }
}

#[test]
fn dates_have_their_null_sentinels() {
    let b32 = |raw: i32| raw.to_le_bytes().to_vec();
    let b64 = |raw: i64| raw.to_le_bytes().to_vec();
    assert_eq!(parse_daydate(&b32(0), 0, true).unwrap(), (None, 4));
    assert!(matches!(
        parse_daydate(&b32(0), 0, false),
        Err(HdbError::Impl(ImplError::UnexpectedNull))
    ));
    assert_eq!(parse_daydate(&b32(1), 0, false).unwrap(), (Some(DayDate::new(1)), 4));
    assert_eq!(*parse_daydate(&b32(737000), 0, true).unwrap().0.unwrap().ref_raw(), 737000);
    assert!(matches!(
        parse_daydate(&b32(-5), 0, true),
        Err(HdbError::Impl(ImplError::ValueOutOfRange))
    ));
    assert_eq!(parse_seconddate(&b64(315_538_070_401), 0, true).unwrap(), (None, 8));
    assert!(matches!(
        parse_seconddate(&b64(315_538_070_401), 0, false),
        Err(HdbError::Impl(ImplError::UnexpectedNull))
    ));
    assert_eq!(
        parse_seconddate(&b64(315_538_070_400), 0, false).unwrap(),
        (Some(SecondDate::new(315_538_070_400)), 8)
    );
    assert!(matches!(
        parse_seconddate(&b64(315_538_070_402), 0, true),
        Err(HdbError::Impl(ImplError::ValueOutOfRange))
    ));
    assert_eq!(parse_longdate(&b64(3_155_380_704_000_000_001), 0, true).unwrap(), (None, 8));
    assert!(matches!(
        parse_longdate(&b64(3_155_380_704_000_000_001), 0, false),
        Err(HdbError::Impl(ImplError::UnexpectedNull))
    ));
    assert_eq!(
        parse_longdate(&b64(123_456_789), 0, false).unwrap(),
        (Some(LongDate::new(123_456_789)), 8)
    );
    assert!(matches!(
        parse_longdate(&b64(-1), 0, true),
        Err(HdbError::Impl(ImplError::ValueOutOfRange))
    ));
}

#[test]
fn decimal_zero_one_minus_one_and_null() {
    let zero = HdbDecimal::new(false, 0, 0).unwrap();
    let one = HdbDecimal::new(false, 1, 0).unwrap();
    let minus_one = HdbDecimal::new(true, 1, 0).unwrap();
    let mut w = Vec::new();
    zero.emit(&mut w);
    assert_eq!(w, vec![0, 0, 0, 0, 0, 0, 0, 0, 0, 0, 0, 0, 0, 0, 0x40, 0x30]);
    let mut w = Vec::new();
    one.emit(&mut w);
    assert_eq!(w, vec![1, 0, 0, 0, 0, 0, 0, 0, 0, 0, 0, 0, 0, 0, 0x40, 0x30]);
    let mut w = Vec::new();
    minus_one.emit(&mut w);
    assert_eq!(w, vec![1, 0, 0, 0, 0, 0, 0, 0, 0, 0, 0, 0, 0, 0, 0x40, 0xb0]);
    for d in [zero, one, minus_one] {
        let mut w = Vec::new();
        d.emit(&mut w);
        assert_eq!(parse_decimal(&w, 0, false).unwrap(), (Some(d), 16));
        assert_eq!(parse_decimal(&w, 0, true).unwrap(), (Some(d), 16));
    }
    assert_eq!(parse_decimal(&[0xff; 16], 0, true).unwrap(), (None, 16));
    assert!(matches!(
        parse_decimal(&[0xff; 16], 0, false),
        Err(HdbError::Impl(ImplError::UnexpectedNull))
    ));
    assert!(is_truncated(parse_decimal(&[0xff; 15], 0, true)));
}

#[test]
fn decimal_keeps_sign_mantissa_and_exponent() {
    let limit: u128 = 1 << 113;
    for (neg, mantissa, exponent) in [
        (false, 1234567890123456789012345678901234u128, -10i16),
        (true, limit - 1, 10206),
        (false, limit - 1, 10207),
        (true, limit - 2, 10207),
        (true, 0, -6176),
        (false, 1u128 << 64, 6111),
        (false, (1u128 << 64) - 1, -1),
    ] {
        let d = HdbDecimal::new(neg, mantissa, exponent).unwrap();
        assert_eq!(d.is_negative(), neg);
        assert_eq!(d.mantissa(), mantissa);
        assert_eq!(d.exponent(), exponent);
        let mut w = Vec::new();
        d.emit(&mut w);
        assert_eq!(w.len(), 16);
        let (back, end) = parse_decimal(&w, 0, true).unwrap();
        assert_eq!(back, Some(d));
        assert_eq!(end, 16);
    }
    // what does not fit the bits, and the pattern of NULL, is no decimal
    assert!(HdbDecimal::new(false, limit, 0).is_none());
    assert!(HdbDecimal::new(false, 0, 10208).is_none());
    assert!(HdbDecimal::new(false, 0, -6177).is_none());
    assert!(HdbDecimal::new(true, limit - 1, 10207).is_none());
}

#[test]
fn real_and_double_null_is_all_ones_and_nothing_else() {
    let real = |bits: u32, nullable: bool| parse_from_reply(6, nullable, &bits.to_le_bytes(), 0);
    let double = |bits: u64, nullable: bool| parse_from_reply(7, nullable, &bits.to_le_bytes(), 0);
    for x in [0.0f32, -0.0, 1.5, f32::INFINITY, f32::NEG_INFINITY, f32::MAX, f32::MIN_POSITIVE] {
        for nullable in [false, true] {
            match real(x.to_bits(), nullable).unwrap() {
                (HdbValue::REAL(Some(bits)), 4) => assert_eq!(bits, x.to_bits()),
                other => panic!("unexpected {:?}", other),
            }
        }
    }
    assert_ne!(f32::INFINITY.to_bits(), u32::MAX);
    assert_ne!(f32::NEG_INFINITY.to_bits(), u32::MAX);
    assert_ne!((-0.0f32).to_bits(), u32::MAX);
    assert!(matches!(real(u32::MAX, true).unwrap(), (HdbValue::REAL(None), 4)));
    assert!(matches!(real(u32::MAX, false), Err(HdbError::Impl(ImplError::UnexpectedNull))));
    for x in [0.0f64, -0.0, 1.5, f64::INFINITY, f64::NEG_INFINITY, f64::MAX] {
        for nullable in [false, true] {
            match double(x.to_bits(), nullable).unwrap() {
                (HdbValue::DOUBLE(Some(bits)), 8) => {
                    assert_eq!(f64::from_bits(bits).to_bits(), x.to_bits())
                },
                other => panic!("unexpected {:?}", other),
            }
        }
    }
    assert_ne!(f64::INFINITY.to_bits(), u64::MAX);
    assert_ne!(f64::NEG_INFINITY.to_bits(), u64::MAX);
    assert!(matches!(double(u64::MAX, true).unwrap(), (HdbValue::DOUBLE(None), 8)));
    assert!(matches!(double(u64::MAX, false), Err(HdbError::Impl(ImplError::UnexpectedNull))));
    assert_eq!(emitted(&HdbValue::REAL(Some(f32::INFINITY.to_bits()))), vec![6, 0, 0, 0x80, 0x7f]);
    assert_eq!(
        emitted(&HdbValue::DOUBLE(Some((-0.0f64).to_bits()))),
        vec![7, 0, 0, 0, 0, 0, 0, 0, 0x80]
    );
}

#[test]
fn values_are_sent_as_type_code_and_payload() {
    assert_eq!(emitted(&HdbValue::TINYINT(Some(200))), vec![1, 200]);
    assert_eq!(emitted(&HdbValue::SMALLINT(Some(-2))), vec![2, 0xfe, 0xff]);
    assert_eq!(emitted(&HdbValue::INT(Some(1))), vec![3, 1, 0, 0, 0]);
    assert_eq!(emitted(&HdbValue::INT(Some(-1))), vec![3, 0xff, 0xff, 0xff, 0xff]);
    assert_eq!(
        emitted(&HdbValue::BIGINT(Some(0x0102030405060708))),
        vec![4, 8, 7, 6, 5, 4, 3, 2, 1]
    );
    assert_eq!(emitted(&HdbValue::BOOLEAN(Some(true))), vec![28, 1]);
    assert_eq!(emitted(&HdbValue::BOOLEAN(Some(false))), vec![28, 0]);
    assert_eq!(emitted(&HdbValue::STRING(Some("xy".to_string()))), vec![29, 2, b'x', b'y']);
    assert_eq!(emitted(&HdbValue::NSTRING(Some("é".to_string()))), vec![30, 2, 0xc3, 0xa9]);
    assert_eq!(emitted(&HdbValue::TEXT(Some(String::new()))), vec![51, 0]);
    assert_eq!(emitted(&HdbValue::SHORTTEXT(Some("a".to_string()))), vec![52, 1, b'a']);
    assert_eq!(emitted(&HdbValue::BINARY(Some(vec![9, 8]))), vec![12, 2, 9, 8]);
    assert_eq!(emitted(&HdbValue::VARBINARY(Some(vec![]))), vec![13, 0]);
    assert_eq!(emitted(&HdbValue::BSTRING(Some(vec![7]))), vec![33, 1, 7]);
    assert_eq!(
        emitted(&HdbValue::DECIMAL(HdbDecimal::new(false, 1, 0))),
        vec![5, 1, 0, 0, 0, 0, 0, 0, 0, 0, 0, 0, 0, 0, 0, 0x40, 0x30]
    );
    assert_eq!(emitted(&HdbValue::SMALLDECIMAL(HdbDecimal::new(true, 1, 0)))[0], 47);
    assert_eq!(emitted(&HdbValue::DAYDATE(Some(DayDate::new(2)))), vec![63, 2, 0, 0, 0]);
    assert_eq!(
        emitted(&HdbValue::SECONDTIME(Some(SecondTime::from_hms(0, 0, 1).unwrap()))),
        vec![64, 2, 0, 0, 0]
    );
    assert_eq!(
        emitted(&HdbValue::SECONDDATE(Some(SecondDate::new(3)))),
        vec![62, 3, 0, 0, 0, 0, 0, 0, 0]
    );
    assert_eq!(
        emitted(&HdbValue::LONGDATE(Some(LongDate::new(4)))),
        vec![61, 4, 0, 0, 0, 0, 0, 0, 0]
    );
}

#[test]
fn null_is_sent_as_the_type_code_plus_128() {
    for (v, code) in [
        (HdbValue::TINYINT(None), 1u8),
        (HdbValue::SMALLINT(None), 2),
        (HdbValue::INT(None), 3),
        (HdbValue::BIGINT(None), 4),
        (HdbValue::DECIMAL(None), 5),
        (HdbValue::REAL(None), 6),
        (HdbValue::DOUBLE(None), 7),
        (HdbValue::CHAR(None), 8),
        (HdbValue::VARCHAR(None), 9),
        (HdbValue::NCHAR(None), 10),
        (HdbValue::NVARCHAR(None), 11),
        (HdbValue::BINARY(None), 12),
        (HdbValue::VARBINARY(None), 13),
        (HdbValue::CLOB(None), 25),
        (HdbValue::NCLOB(None), 26),
        (HdbValue::BLOB(None), 27),
        (HdbValue::BOOLEAN(None), 28),
        (HdbValue::STRING(None), 29),
        (HdbValue::NSTRING(None), 30),
        (HdbValue::BSTRING(None), 33),
        (HdbValue::SMALLDECIMAL(None), 47),
        (HdbValue::TEXT(None), 51),
        (HdbValue::SHORTTEXT(None), 52),
        (HdbValue::LONGDATE(None), 61),
        (HdbValue::SECONDDATE(None), 62),
        (HdbValue::DAYDATE(None), 63),
        (HdbValue::SECONDTIME(None), 64),
    ] {
        assert_eq!(v.type_id(), code + 128);
        assert_eq!(v.base_code(), code);
        assert!(v.is_null());
        assert_eq!(emitted(&v), vec![code + 128]);
        assert_eq!(size(&v).unwrap(), 1);
    }
    assert_eq!(HdbValue::INT(Some(5)).type_id(), 3);
    assert!(!HdbValue::INT(Some(5)).is_null());
}

#[test]
fn size_is_what_serialize_writes() {
    let values = vec![
        HdbValue::TINYINT(Some(1)),
        HdbValue::SMALLINT(Some(1)),
        HdbValue::INT(Some(1)),
        HdbValue::BIGINT(Some(1)),
        HdbValue::DECIMAL(HdbDecimal::new(false, 12, -1)),
        HdbValue::REAL(Some(1)),
        HdbValue::DOUBLE(Some(1)),
        HdbValue::BOOLEAN(Some(true)),
        HdbValue::STRING(Some("a\u{10401}".to_string())),
        HdbValue::STRING(Some("x".repeat(246))),
        HdbValue::BSTRING(Some(vec![0; 245])),
        HdbValue::BINARY(Some(vec![0; 246])),
        HdbValue::VARBINARY(Some(vec![0; 40000])),
        HdbValue::DAYDATE(Some(DayDate::new(1))),
        HdbValue::SECONDTIME(Some(SecondTime::new(1))),
        HdbValue::SECONDDATE(Some(SecondDate::new(1))),
        HdbValue::LONGDATE(Some(LongDate::new(1))),
        HdbValue::INT(None),
    ];
    for v in &values {
        assert_eq!(size(v).unwrap(), emitted(v).len(), "{:?}", v);
    }
    assert_eq!(size(&HdbValue::BSTRING(Some(vec![0; 245]))).unwrap(), 1 + 1 + 245);
    assert_eq!(size(&HdbValue::BINARY(Some(vec![0; 246]))).unwrap(), 1 + 3 + 246);
    assert_eq!(size(&HdbValue::VARBINARY(Some(vec![0; 40000]))).unwrap(), 1 + 5 + 40000);
}

#[test]
fn fixed_text_cannot_be_sent() {
    for (v, code) in [
        (HdbValue::CHAR(Some("a".to_string())), 8u8),
        (HdbValue::VARCHAR(Some("a".to_string())), 9),
        (HdbValue::NCHAR(Some("a".to_string())), 10),
        (HdbValue::NVARCHAR(Some("a".to_string())), 11),
    ] {
        let mut w = vec![1u8, 2];
        let mut data_pos = 5u64;
        assert!(matches!(
            serialize(&v, &mut data_pos, &mut w),
            Err(HdbError::Impl(ImplError::UnsupportedTypeCode(c))) if c == code
        ));
        assert_eq!(w, vec![1, 2]);
        assert_eq!(data_pos, 5);
        assert!(matches!(
            size(&v),
            Err(HdbError::Impl(ImplError::UnsupportedTypeCode(c))) if c == code
        ));
    }
}

#[test]
fn integers_come_back_when_read_from_the_type_code_on() {
    for nullable in [false, true] {
        for v in [
            HdbValue::TINYINT(Some(0)),
            HdbValue::TINYINT(Some(255)),
            HdbValue::SMALLINT(Some(i16::MIN)),
            HdbValue::SMALLINT(Some(i16::MAX)),
            HdbValue::INT(Some(i32::MIN)),
            HdbValue::INT(Some(-1)),
            HdbValue::INT(Some(i32::MAX)),
            HdbValue::BIGINT(Some(i64::MIN)),
            HdbValue::BIGINT(Some(i64::MAX)),
            HdbValue::BOOLEAN(Some(false)),
            HdbValue::BOOLEAN(Some(true)),
        ] {
            let w = emitted(&v);
            let (back, end) = parse_from_reply(v.base_code(), nullable, &w, 0).unwrap();
            assert_eq!(format!("{:?}", back), format!("{:?}", v));
            assert_eq!(end, w.len());
        }
    }
}

#[test]
fn other_values_come_back_when_read_behind_the_type_code() {
    for nullable in [false, true] {
        for v in [
            HdbValue::DECIMAL(HdbDecimal::new(true, 314159, -5)),
            HdbValue::SMALLDECIMAL(HdbDecimal::new(false, 1, 300)),
            HdbValue::REAL(Some(2.5f32.to_bits())),
            HdbValue::DOUBLE(Some((-7.25f64).to_bits())),
            HdbValue::STRING(Some("hello".to_string())),
            HdbValue::NSTRING(Some("testピパぽ".to_string())),
            HdbValue::TEXT(Some("a\u{10401}".to_string())),
            HdbValue::SHORTTEXT(Some("x".repeat(300))),
            HdbValue::BINARY(Some(vec![1, 2, 3])),
            HdbValue::VARBINARY(Some(vec![0xff; 246])),
            HdbValue::BSTRING(Some(vec![])),
            HdbValue::LONGDATE(Some(LongDate::new(636_000_000_000_000_000))),
            HdbValue::SECONDDATE(Some(SecondDate::new(63_000_000_000))),
            HdbValue::DAYDATE(Some(DayDate::new(737_000))),
            HdbValue::SECONDTIME(Some(SecondTime::from_hms(8, 30, 0).unwrap())),
        ] {
            let w = emitted(&v);
            let (back, end) = parse_from_reply(v.base_code(), nullable, &w, 1).unwrap();
            assert_eq!(format!("{:?}", back), format!("{:?}", v));
            assert_eq!(end, w.len());
        }
    }
}

#[test]
fn every_null_pattern_reads_as_null() {
    let cases: Vec<(u8, Vec<u8>)> = vec![
        (1, vec![0]),
        (2, vec![0]),
        (3, vec![0]),
        (4, vec![0]),
        (28, vec![0]),
        (5, vec![0xff; 16]),
        (47, vec![0xff; 16]),
        (6, vec![0xff; 4]),
        (7, vec![0xff; 8]),
        (8, vec![255]),
        (9, vec![255]),
        (10, vec![255]),
        (11, vec![255]),
        (12, vec![255]),
        (13, vec![255]),
        (29, vec![255]),
        (30, vec![255]),
        (33, vec![255]),
        (51, vec![255]),
        (52, vec![255]),
        (25, vec![0, 1]),
        (26, vec![0, 1]),
        (27, vec![0, 1]),
        (61, 3_155_380_704_000_000_001i64.to_le_bytes().to_vec()),
        (62, 315_538_070_401i64.to_le_bytes().to_vec()),
        (63, 0i32.to_le_bytes().to_vec()),
        (64, 86_402i32.to_le_bytes().to_vec()),
    ];
    for (code, pattern) in cases {
        let (v, end) = parse_from_reply(code, true, &pattern, 0).unwrap();
        assert!(v.is_null(), "type code {}", code);
        assert_eq!(v.base_code(), code);
        assert_eq!(end, pattern.len());
        assert!(
            matches!(
                parse_from_reply(code, false, &pattern, 0),
                Err(HdbError::Impl(ImplError::UnexpectedNull))
                    | Err(HdbError::Impl(ImplError::InvalidLengthIndicator(255)))
            ),
            "type code {}",
            code
        );
    }
}

#[test]
fn a_boolean_lies_behind_its_indicator_in_every_column() {
    for nullable in [false, true] {
        assert!(matches!(
            parse_from_reply(28, nullable, &[1, 0], 0).unwrap(),
            (HdbValue::BOOLEAN(Some(false)), 2)
        ));
        assert!(matches!(
            parse_from_reply(28, nullable, &[1, 1], 0).unwrap(),
            (HdbValue::BOOLEAN(Some(true)), 2)
        ));
        assert!(matches!(
            parse_from_reply(28, nullable, &[1], 0),
            Err(HdbError::Protocol(ProtocolError::Truncated))
        ));
    }
    assert!(matches!(
        parse_from_reply(28, true, &[0], 0).unwrap(),
        (HdbValue::BOOLEAN(None), 1)
    ));
    assert!(matches!(
        parse_from_reply(28, false, &[0], 0),
        Err(HdbError::Impl(ImplError::UnexpectedNull))
    ));
    assert!(matches!(
        parse_from_reply(3, false, &[0, 1, 0, 0, 0], 0),
        Err(HdbError::Impl(ImplError::UnexpectedNull))
    ));
    assert!(matches!(
        parse_from_reply(3, false, &[1, 7, 0, 0, 0], 0).unwrap(),
        (HdbValue::INT(Some(7)), 5)
    ));
}

#[test]
fn unknown_type_codes_are_refused() {
    for code in [0u8, 14, 16, 24, 31, 32, 46, 48, 65, 127, 128, 131, 255] {
        assert!(matches!(
            parse_from_reply(code, true, &[0; 32], 0),
            Err(HdbError::Impl(ImplError::UnsupportedTypeCode(c))) if c == code
        ));
    }
}

#[test]
fn digits_that_do_not_fit_the_mantissa_are_cut_off() {
    let limit: u128 = 1 << 113;
    // what fits stays as it is
    assert_eq!(HdbDecimal::fitted(false, 12, -1), HdbDecimal::new(false, 12, -1));
    assert_eq!(HdbDecimal::fitted(true, 0, 0), HdbDecimal::new(true, 0, 0));
    assert_eq!(HdbDecimal::fitted(false, limit - 1, 3), HdbDecimal::new(false, limit - 1, 3));
    // one digit too many: the last one goes, and the exponent grows by one
    assert_eq!(HdbDecimal::fitted(true, limit, 0), HdbDecimal::new(true, limit / 10, 1));
    assert_eq!(
        HdbDecimal::fitted(false, 12_345_678_901_234_567_890_123_456_789_012_345_678, -40),
        HdbDecimal::new(false, 1_234_567_890_123_456_789_012_345_678_901_234, -36)
    );
    assert_eq!(
        HdbDecimal::fitted(false, u128::MAX, 0),
        HdbDecimal::new(false, u128::MAX / 100_000, 5)
    );
    // the exponent must fit once the digits were cut
    assert_eq!(HdbDecimal::fitted(false, 1, 10207), HdbDecimal::new(false, 1, 10207));
    assert_eq!(HdbDecimal::fitted(false, 1, 10208), None);
    assert_eq!(HdbDecimal::fitted(false, limit, 10207), None);
    assert_eq!(HdbDecimal::fitted(false, 1, -6176), HdbDecimal::new(false, 1, -6176));
    assert_eq!(HdbDecimal::fitted(false, 1, -6177), None);
    assert_eq!(HdbDecimal::fitted(false, limit, -6177), HdbDecimal::new(false, limit / 10, -6176));
    assert_eq!(HdbDecimal::fitted(false, u128::MAX, i64::MAX), None);
    assert_eq!(HdbDecimal::fitted(false, 1, i64::MIN), None);
    // the pattern of all ones stays NULL
    assert_eq!(HdbDecimal::fitted(true, limit - 1, 10207), None);
    assert!(HdbDecimal::fitted(false, limit - 1, 10207).is_some());
}
