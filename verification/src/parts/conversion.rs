//! Plain values of the caller as values of the database: which number,
//! text or byte string goes for a parameter of which type, and which whole
//! number a value of the database stands for.

use crate::parts::hdb_value::{HdbValue, Payload, ValueView};
use crate::parts::type_id;
use crate::parts::type_id::{shape_of, Shape};
use crate::text::{cesu8_encoding, cesu8_to_string, decoded_text};
use crate::types::decimal::{decimal_valid, DecimalParts, HdbDecimal};
use crate::types::lob::{loaded, LobHandle};
use vstd::prelude::*;

verus! {

/// Why a plain value does not go for a parameter.
#[derive(Clone, Copy, Debug, PartialEq, Eq, Structural)]
pub enum Unfit {
    /// Parameters of this type take no value of this kind.
    WrongType,
    /// The number lies outside of what the type of the parameter holds.
    OutOfRange,
}

/// A number without its sign.
pub open spec fn magnitude(n: int) -> int {
    if n < 0 {
        -n
    } else {
        n
    }
}

/// The integer of a type, if the number lies between the bounds of the
/// type.
pub open spec fn ranged(code: u8, n: int, low: int, high: int) -> Result<ValueView, Unfit> {
    if low <= n <= high {
        Ok(ValueView { code, data: Some(Payload::Int(n)) })
    } else {
        Err(Unfit::OutOfRange)
    }
}

/// The value that a whole number is for a parameter with this type code.
/// An integer type takes the numbers of its range, a decimal type those
/// whose digits fit the mantissa, and BOOLEAN takes zero for false and
/// every other number for true.
pub open spec fn whole_as(code: u8, n: int) -> Result<ValueView, Unfit> {
    match shape_of(code) {
        Some(Shape::U8) => ranged(code, n, 0, u8::MAX as int),
        Some(Shape::I16) => ranged(code, n, i16::MIN as int, i16::MAX as int),
        Some(Shape::I32) => ranged(code, n, i32::MIN as int, i32::MAX as int),
        Some(Shape::I64) => ranged(code, n, i64::MIN as int, i64::MAX as int),
        Some(Shape::Boolean) => Ok(ValueView { code, data: Some(Payload::Bool(n != 0)) }),
        Some(Shape::Decimal) => if decimal_valid(n < 0, magnitude(n), 0) {
            Ok(
                ValueView {
                    code,
                    data: Some(
                        Payload::Decimal(
                            DecimalParts { negative: n < 0, mantissa: magnitude(n), exponent: 0 },
                        ),
                    ),
                },
            )
        } else {
            Err(Unfit::OutOfRange)
        },
        _ => Err(Unfit::WrongType),
    }
}

/// The whole number that a value stands for, if it stands for one: an
/// integer, a truth value as 0 or 1, or a decimal without a power of ten.
pub open spec fn whole_of(v: ValueView) -> Option<int> {
    match (shape_of(v.code), v.data) {
        (Some(Shape::U8), Some(Payload::Int(x))) => Some(x),
        (Some(Shape::I16), Some(Payload::Int(x))) => Some(x),
        (Some(Shape::I32), Some(Payload::Int(x))) => Some(x),
        (Some(Shape::I64), Some(Payload::Int(x))) => Some(x),
        (Some(Shape::Boolean), Some(Payload::Bool(b))) => Some(
            if b {
                1
            } else {
                0
            },
        ),
        (Some(Shape::Decimal), Some(Payload::Decimal(p))) => if p.exponent == 0 {
            Some(
                if p.negative {
                    -p.mantissa
                } else {
                    p.mantissa
                },
            )
        } else {
            None
        },
        _ => None,
    }
}

/// A large character object that holds a text in full.
pub open spec fn text_lob(code: u8, text: Seq<char>) -> ValueView {
    ValueView { code, data: Some(Payload::Lob(loaded(true, cesu8_encoding(text)))) }
}

/// The value that a text is for a parameter with this type code: every
/// kind of text takes it, in the form in which the database takes text of
/// that kind, and a large character object takes it as its data.
pub open spec fn text_as(code: u8, text: Seq<char>) -> Option<ValueView> {
    if code == type_id::CHAR || code == type_id::VARCHAR || code == type_id::STRING || code
        == type_id::TEXT || code == type_id::SHORTTEXT {
        Some(ValueView { code: type_id::STRING, data: Some(Payload::Text(text)) })
    } else if code == type_id::NCHAR || code == type_id::NVARCHAR || code == type_id::NSTRING {
        Some(ValueView { code: type_id::NSTRING, data: Some(Payload::Text(text)) })
    } else if code == type_id::CLOB || code == type_id::NCLOB {
        Some(text_lob(code, text))
    } else {
        None
    }
}

/// The value that a byte string is for a parameter with this type code: a
/// binary type and a large binary object take the bytes as they are; a
/// large character object takes the text that the bytes are read as, and
/// none if they cannot be read as text.
pub open spec fn bytes_as(code: u8, bytes: Seq<u8>) -> Option<ValueView> {
    if shape_of(code) == Some(Shape::Binary) {
        Some(ValueView { code, data: Some(Payload::Bytes(bytes)) })
    } else if code == type_id::BLOB {
        Some(ValueView { code, data: Some(Payload::Lob(loaded(false, bytes))) })
    } else if code == type_id::CLOB || code == type_id::NCLOB {
        match decoded_text(bytes) {
            Ok(text) => Some(text_lob(code, text)),
            Err(_) => None,
        }
    } else {
        None
    }
}

/// The NULL of a parameter with this type code, if the parameter takes
/// NULL.
pub open spec fn null_as(code: u8, nullable: bool) -> Option<ValueView> {
    if nullable && shape_of(code) is Some {
        Some(ValueView { code, data: None })
    } else {
        None
    }
}

/// A whole number that went for a parameter comes back as the same number;
/// for a parameter that is a truth value it comes back as 0 or 1.
pub proof fn lemma_whole_comes_back(code: u8, n: int)
    requires
        whole_as(code, n) is Ok,
    ensures
        whole_of(whole_as(code, n)->Ok_0) == Some(
            if shape_of(code) == Some(Shape::Boolean) {
                if n != 0 {
                    1int
                } else {
                    0int
                }
            } else {
                n
            },
        ),
{
}

/// The value that a whole number is for a parameter with this type code.
pub fn from_whole(code: u8, n: i128) -> (r: Result<HdbValue, Unfit>)
    ensures
        match r {
            Ok(v) => whole_as(code, n as int) == Ok::<_, Unfit>(v@),
            Err(e) => whole_as(code, n as int) == Err::<ValueView, _>(e),
        },
{
    if code == type_id::TINYINT {
        if 0 <= n && n <= 255 {
            Ok(HdbValue::TINYINT(Some(n as u8)))
        } else {
            Err(Unfit::OutOfRange)
        }
    } else if code == type_id::SMALLINT {
        if -32768 <= n && n <= 32767 {
            Ok(HdbValue::SMALLINT(Some(n as i16)))
        } else {
            Err(Unfit::OutOfRange)
        }
    } else if code == type_id::INT {
        if -2147483648 <= n && n <= 2147483647 {
            Ok(HdbValue::INT(Some(n as i32)))
        } else {
            Err(Unfit::OutOfRange)
        }
    } else if code == type_id::BIGINT {
        if -9223372036854775808 <= n && n <= 9223372036854775807 {
            Ok(HdbValue::BIGINT(Some(n as i64)))
        } else {
            Err(Unfit::OutOfRange)
        }
    } else if code == type_id::BOOLEAN {
        Ok(HdbValue::BOOLEAN(Some(n != 0)))
    } else if code == type_id::DECIMAL || code == type_id::SMALLDECIMAL {
        if n == i128::MIN {
            return Err(Unfit::OutOfRange);
        }
        let negative: bool = n < 0;
        let mantissa: u128 = if negative {
            (-n) as u128
        } else {
            n as u128
        };
        match HdbDecimal::new(negative, mantissa, 0) {
            Some(d) => if code == type_id::DECIMAL {
                Ok(HdbValue::DECIMAL(Some(d)))
            } else {
                Ok(HdbValue::SMALLDECIMAL(Some(d)))
            },
            None => Err(Unfit::OutOfRange),
        }
    } else {
        Err(Unfit::WrongType)
    }
}

/// The whole number that a value stands for, if it stands for one.
pub fn to_whole(v: &HdbValue) -> (r: Option<i128>)
    ensures
        match r {
            Some(n) => whole_of(v@) == Some(n as int),
            None => whole_of(v@) is None,
        },
{
    match v {
        HdbValue::TINYINT(Some(x)) => Some(*x as i128),
        HdbValue::SMALLINT(Some(x)) => Some(*x as i128),
        HdbValue::INT(Some(x)) => Some(*x as i128),
        HdbValue::BIGINT(Some(x)) => Some(*x as i128),
        HdbValue::BOOLEAN(Some(b)) => Some(
            if *b {
                1
            } else {
                0
            },
        ),
        HdbValue::DECIMAL(Some(d)) | HdbValue::SMALLDECIMAL(Some(d)) => {
            let negative: bool = d.is_negative();
            if d.exponent() != 0 {
                None
            } else if negative {
                Some(-(d.mantissa() as i128))
            } else {
                Some(d.mantissa() as i128)
            }
        },
        _ => None,
    }
}

/// The value that a text is for a parameter with this type code, if the
/// parameter takes text.
pub fn from_text(code: u8, text: String) -> (r: Option<HdbValue>)
    ensures
        match r {
            Some(v) => text_as(code, text@) == Some(v@),
            None => text_as(code, text@) is None,
        },
{
    if code == type_id::CHAR || code == type_id::VARCHAR || code == type_id::STRING || code
        == type_id::TEXT || code == type_id::SHORTTEXT {
        Some(HdbValue::STRING(Some(text)))
    } else if code == type_id::NCHAR || code == type_id::NVARCHAR || code == type_id::NSTRING {
        Some(HdbValue::NSTRING(Some(text)))
    } else if code == type_id::CLOB {
        Some(HdbValue::CLOB(Some(LobHandle::of_text(text.as_str()))))
    } else if code == type_id::NCLOB {
        Some(HdbValue::NCLOB(Some(LobHandle::of_text(text.as_str()))))
    } else {
        None
    }
}

/// The value that a byte string is for a parameter with this type code,
/// if the parameter takes these bytes.
pub fn from_bytes(code: u8, bytes: Vec<u8>) -> (r: Option<HdbValue>)
    ensures
        match r {
            Some(v) => bytes_as(code, bytes@) == Some(v@),
            None => bytes_as(code, bytes@) is None,
        },
{
    if code == type_id::BINARY {
        Some(HdbValue::BINARY(Some(bytes)))
    } else if code == type_id::VARBINARY {
        Some(HdbValue::VARBINARY(Some(bytes)))
    } else if code == type_id::BSTRING {
        Some(HdbValue::BSTRING(Some(bytes)))
    } else if code == type_id::BLOB {
        Some(HdbValue::BLOB(Some(LobHandle::of_bytes(bytes))))
    } else if code == type_id::CLOB || code == type_id::NCLOB {
        match cesu8_to_string(bytes.as_slice()) {
            Ok(text) => {
                let lob: LobHandle = LobHandle::of_text(text.as_str());
                if code == type_id::CLOB {
                    Some(HdbValue::CLOB(Some(lob)))
                } else {
                    Some(HdbValue::NCLOB(Some(lob)))
                }
            },
            Err(_) => None,
        }
    } else {
        None
    }
}

/// The NULL of a parameter with this type code, if the parameter takes
/// NULL.
pub fn null_of(code: u8, nullable: bool) -> (r: Option<HdbValue>)
    ensures
        match r {
            Some(v) => null_as(code, nullable) == Some(v@),
            None => null_as(code, nullable) is None,
        },
{
    if !nullable {
        None
    } else if code == type_id::TINYINT {
        Some(HdbValue::TINYINT(None))
    } else if code == type_id::SMALLINT {
        Some(HdbValue::SMALLINT(None))
    } else if code == type_id::INT {
        Some(HdbValue::INT(None))
    } else if code == type_id::BIGINT {
        Some(HdbValue::BIGINT(None))
    } else if code == type_id::DECIMAL {
        Some(HdbValue::DECIMAL(None))
    } else if code == type_id::REAL {
        Some(HdbValue::REAL(None))
    } else if code == type_id::DOUBLE {
        Some(HdbValue::DOUBLE(None))
    } else if code == type_id::CHAR {
        Some(HdbValue::CHAR(None))
    } else if code == type_id::VARCHAR {
        Some(HdbValue::VARCHAR(None))
    } else if code == type_id::NCHAR {
        Some(HdbValue::NCHAR(None))
    } else if code == type_id::NVARCHAR {
        Some(HdbValue::NVARCHAR(None))
    } else if code == type_id::BINARY {
        Some(HdbValue::BINARY(None))
    } else if code == type_id::VARBINARY {
        Some(HdbValue::VARBINARY(None))
    } else if code == type_id::CLOB {
        Some(HdbValue::CLOB(None))
    } else if code == type_id::NCLOB {
        Some(HdbValue::NCLOB(None))
    } else if code == type_id::BLOB {
        Some(HdbValue::BLOB(None))
    } else if code == type_id::BOOLEAN {
        Some(HdbValue::BOOLEAN(None))
    } else if code == type_id::STRING {
        Some(HdbValue::STRING(None))
    } else if code == type_id::NSTRING {
        Some(HdbValue::NSTRING(None))
    } else if code == type_id::BSTRING {
        Some(HdbValue::BSTRING(None))
    } else if code == type_id::SMALLDECIMAL {
        Some(HdbValue::SMALLDECIMAL(None))
    } else if code == type_id::TEXT {
        Some(HdbValue::TEXT(None))
    } else if code == type_id::SHORTTEXT {
        Some(HdbValue::SHORTTEXT(None))
    } else if code == type_id::LONGDATE {
        Some(HdbValue::LONGDATE(None))
    } else if code == type_id::SECONDDATE {
        Some(HdbValue::SECONDDATE(None))
    } else if code == type_id::DAYDATE {
        Some(HdbValue::DAYDATE(None))
    } else if code == type_id::SECONDTIME {
        Some(HdbValue::SECONDTIME(None))
    } else {
        None
    }
}

} // verus!
