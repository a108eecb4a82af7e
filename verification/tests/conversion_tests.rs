use hdbconnect::parts::conversion::{from_bytes, from_text, from_whole, null_of, to_whole, Unfit};
use hdbconnect::parts::hdb_value::{size, HdbValue};
use hdbconnect::types::decimal::HdbDecimal;
use hdbconnect::types::lob::LobHandle;

const KNOWN_CODES: [u8; 27] = [
    1, 2, 3, 4, 5, 6, 7, 8, 9, 10, 11, 12, 13, 25, 26, 27, 28, 29, 30, 33, 47, 51, 52, 61, 62, 63,
    64,
];

#[test]
fn whole_numbers_go_for_integers_within_their_range() {
    assert_eq!(from_whole(1, 0), Ok(HdbValue::TINYINT(Some(0))));
    assert_eq!(from_whole(1, 255), Ok(HdbValue::TINYINT(Some(255))));
    assert_eq!(from_whole(1, 256), Err(Unfit::OutOfRange));
    assert_eq!(from_whole(1, -1), Err(Unfit::OutOfRange));
    assert_eq!(from_whole(2, -32768), Ok(HdbValue::SMALLINT(Some(i16::MIN))));
    assert_eq!(from_whole(2, 32767), Ok(HdbValue::SMALLINT(Some(i16::MAX))));
    assert_eq!(from_whole(2, 32768), Err(Unfit::OutOfRange));
    assert_eq!(from_whole(2, -32769), Err(Unfit::OutOfRange));
    assert_eq!(from_whole(3, -2147483648), Ok(HdbValue::INT(Some(i32::MIN))));
    assert_eq!(from_whole(3, 2147483647), Ok(HdbValue::INT(Some(i32::MAX))));
    assert_eq!(from_whole(3, 2147483648), Err(Unfit::OutOfRange));
    assert_eq!(from_whole(3, -2147483649), Err(Unfit::OutOfRange));
    assert_eq!(from_whole(4, i128::from(i64::MIN)), Ok(HdbValue::BIGINT(Some(i64::MIN))));
    assert_eq!(from_whole(4, i128::from(i64::MAX)), Ok(HdbValue::BIGINT(Some(i64::MAX))));
    assert_eq!(from_whole(4, i128::from(i64::MAX) + 1), Err(Unfit::OutOfRange));
    assert_eq!(from_whole(4, i128::from(i64::MIN) - 1), Err(Unfit::OutOfRange));
    assert_eq!(from_whole(4, i128::MIN), Err(Unfit::OutOfRange));
}

#[test]
fn whole_numbers_go_for_truth_values_and_decimals() {
    assert_eq!(from_whole(28, 0), Ok(HdbValue::BOOLEAN(Some(false))));
    assert_eq!(from_whole(28, 1), Ok(HdbValue::BOOLEAN(Some(true))));
    assert_eq!(from_whole(28, -7), Ok(HdbValue::BOOLEAN(Some(true))));
    let twelve = HdbDecimal::new(false, 12, 0).unwrap();
    let minus_twelve = HdbDecimal::new(true, 12, 0).unwrap();
    assert_eq!(from_whole(5, 12), Ok(HdbValue::DECIMAL(Some(twelve))));
    assert_eq!(from_whole(5, -12), Ok(HdbValue::DECIMAL(Some(minus_twelve))));
    assert_eq!(from_whole(47, 12), Ok(HdbValue::SMALLDECIMAL(Some(twelve))));
    let zero = HdbDecimal::new(false, 0, 0).unwrap();
    assert_eq!(from_whole(5, 0), Ok(HdbValue::DECIMAL(Some(zero))));
    // the mantissa has 113 bits
    let limit: i128 = 1 << 113;
    let largest = HdbDecimal::new(false, (limit - 1) as u128, 0).unwrap();
    assert_eq!(from_whole(5, limit - 1), Ok(HdbValue::DECIMAL(Some(largest))));
    assert_eq!(from_whole(5, limit), Err(Unfit::OutOfRange));
    assert_eq!(from_whole(5, -limit), Err(Unfit::OutOfRange));
    assert_eq!(from_whole(5, i128::MIN), Err(Unfit::OutOfRange));
    assert_eq!(from_whole(5, i128::MAX), Err(Unfit::OutOfRange));
}

#[test]
fn whole_numbers_go_for_nothing_else() {
    for code in KNOWN_CODES {
        let takes = matches!(code, 1 | 2 | 3 | 4 | 5 | 28 | 47);
        assert_eq!(from_whole(code, 1).is_ok(), takes, "type code {}", code);
        if !takes {
            assert_eq!(from_whole(code, 1), Err(Unfit::WrongType));
        }
    }
    for code in [0u8, 14, 24, 31, 48, 65, 129, 255] {
        assert_eq!(from_whole(code, 1), Err(Unfit::WrongType));
    }
}

#[test]
fn a_whole_number_that_went_in_comes_back() {
    for code in [1u8, 2, 3, 4, 5, 47] {
        for n in [0i128, 1, 7, 100, 255] {
            assert_eq!(to_whole(&from_whole(code, n).unwrap()), Some(n));
        }
    }
    for code in [2u8, 3, 4, 5, 47] {
        for n in [-1i128, -32768] {
            assert_eq!(to_whole(&from_whole(code, n).unwrap()), Some(n));
        }
    }
    let limit: i128 = 1 << 113;
    assert_eq!(to_whole(&from_whole(5, limit - 1).unwrap()), Some(limit - 1));
    assert_eq!(to_whole(&from_whole(5, 1 - limit).unwrap()), Some(1 - limit));
    // a truth value comes back as 0 or 1
    assert_eq!(to_whole(&from_whole(28, 0).unwrap()), Some(0));
    assert_eq!(to_whole(&from_whole(28, 5).unwrap()), Some(1));
}

#[test]
fn only_whole_numbers_are_whole_numbers() {
    assert_eq!(to_whole(&HdbValue::INT(None)), None);
    assert_eq!(to_whole(&HdbValue::BOOLEAN(None)), None);
    assert_eq!(to_whole(&HdbValue::DECIMAL(None)), None);
    assert_eq!(to_whole(&HdbValue::DECIMAL(Some(HdbDecimal::new(false, 5, 2).unwrap()))), None);
    assert_eq!(to_whole(&HdbValue::DECIMAL(Some(HdbDecimal::new(false, 50, -1).unwrap()))), None);
    assert_eq!(to_whole(&HdbValue::REAL(Some(1))), None);
    assert_eq!(to_whole(&HdbValue::DOUBLE(Some(1))), None);
    assert_eq!(to_whole(&HdbValue::STRING(Some("1".to_string()))), None);
    assert_eq!(to_whole(&HdbValue::BINARY(Some(vec![1]))), None);
    let minus_zero = HdbDecimal::new(true, 0, 0).unwrap();
    assert_eq!(to_whole(&HdbValue::SMALLDECIMAL(Some(minus_zero))), Some(0));
}

#[test]
fn text_goes_for_every_kind_of_text() {
    for code in [8u8, 9, 29, 51, 52] {
        let text = "aé".to_string();
        assert_eq!(from_text(code, text.clone()), Some(HdbValue::STRING(Some(text))));
    }
    for code in [10u8, 11, 30] {
        assert_eq!(from_text(code, String::new()), Some(HdbValue::NSTRING(Some(String::new()))));
    }
    for code in KNOWN_CODES {
        let takes = matches!(code, 8 | 9 | 10 | 11 | 25 | 26 | 29 | 30 | 51 | 52);
        assert_eq!(from_text(code, "x".to_string()).is_some(), takes, "type code {}", code);
    }
    assert_eq!(from_text(0, "x".to_string()), None);
    assert_eq!(from_text(137, "x".to_string()), None);
}

#[test]
fn byte_strings_go_for_binary_types() {
    assert_eq!(from_bytes(12, vec![1, 2]), Some(HdbValue::BINARY(Some(vec![1, 2]))));
    assert_eq!(from_bytes(13, vec![]), Some(HdbValue::VARBINARY(Some(vec![]))));
    assert_eq!(from_bytes(33, vec![255, 255]), Some(HdbValue::BSTRING(Some(vec![255, 255]))));
    for code in KNOWN_CODES {
        let takes = matches!(code, 12 | 13 | 25 | 26 | 27 | 33);
        assert_eq!(from_bytes(code, vec![0]).is_some(), takes, "type code {}", code);
    }
    assert_eq!(from_bytes(140, vec![0]), None);
}

#[test]
fn text_and_bytes_go_for_large_objects() {
    let test_string = "testピパぽ".to_string();
    for (code, made) in [
        (25u8, HdbValue::CLOB(Some(LobHandle::of_text(&test_string)))),
        (26u8, HdbValue::NCLOB(Some(LobHandle::of_text(&test_string)))),
    ] {
        assert_eq!(from_text(code, test_string.clone()), Some(made.clone()));
        // bytes that are text go for a character object as that text
        assert_eq!(from_bytes(code, test_string.as_bytes().to_vec()), Some(made));
        // malformed bytes do not
        assert_eq!(from_bytes(code, vec![255, 255]), None);
        assert_eq!(from_bytes(code, vec![b'a', 0xE3, 0x83]), None);
    }
    // a character outside the basic plane is taken in UTF-8 and held in CESU-8
    match from_bytes(26, "\u{10401}".as_bytes().to_vec()) {
        Some(HdbValue::NCLOB(Some(lob))) => {
            assert_eq!(lob.data(), &[0xED, 0xA0, 0x81, 0xED, 0xB0, 0x81]);
            assert_eq!(lob.total_units(), 2);
            assert_eq!(lob.len(), 6);
            assert!(lob.is_complete());
            assert!(lob.is_character());
        },
        other => panic!("unexpected {:?}", other),
    }
    // a binary object takes every byte string as it is
    match from_bytes(27, vec![255, 255]) {
        Some(HdbValue::BLOB(Some(lob))) => {
            assert_eq!(lob.data(), &[255, 255]);
            assert_eq!(lob.len(), 2);
            assert_eq!(lob.total_units(), 2);
            assert_eq!(lob.locator_id(), 0);
            assert!(lob.is_complete());
            assert!(!lob.is_character());
        },
        other => panic!("unexpected {:?}", other),
    }
    assert_eq!(from_text(27, "x".to_string()), None);
    // what was made can be sent: the header, and the data counted
    let lob = from_text(26, test_string.clone()).unwrap();
    assert_eq!(size(&lob), Ok(18 + test_string.len()));
}

#[test]
fn every_type_has_its_null_where_null_is_allowed() {
    for code in KNOWN_CODES {
        let null = null_of(code, true).unwrap();
        assert!(null.is_null());
        assert_eq!(null.base_code(), code);
        assert_eq!(null.type_id(), code + 128);
        assert_eq!(null_of(code, false), None);
    }
    assert_eq!(null_of(3, true), Some(HdbValue::INT(None)));
    assert_eq!(null_of(26, true), Some(HdbValue::NCLOB(None)));
    for code in [0u8, 14, 24, 32, 46, 60, 65, 131, 255] {
        assert_eq!(null_of(code, true), None);
        assert_eq!(null_of(code, false), None);
    }
}
