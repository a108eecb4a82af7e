//! Type codes of values. A NULL is sent with 128 added to its code.

use vstd::prelude::*;

verus! {

pub const TINYINT: u8 = 1;

pub const SMALLINT: u8 = 2;

pub const INT: u8 = 3;

pub const BIGINT: u8 = 4;

pub const DECIMAL: u8 = 5;

pub const REAL: u8 = 6;

pub const DOUBLE: u8 = 7;

pub const CHAR: u8 = 8;

pub const VARCHAR: u8 = 9;

pub const NCHAR: u8 = 10;

pub const NVARCHAR: u8 = 11;

pub const BINARY: u8 = 12;

pub const VARBINARY: u8 = 13;

pub const CLOB: u8 = 25;

pub const NCLOB: u8 = 26;

pub const BLOB: u8 = 27;

pub const BOOLEAN: u8 = 28;

pub const STRING: u8 = 29;

pub const NSTRING: u8 = 30;

pub const BSTRING: u8 = 33;

pub const SMALLDECIMAL: u8 = 47;

pub const TEXT: u8 = 51;

pub const SHORTTEXT: u8 = 52;

pub const LONGDATE: u8 = 61;

pub const SECONDDATE: u8 = 62;

pub const DAYDATE: u8 = 63;

pub const SECONDTIME: u8 = 64;

/// What is added to the code of a value that is NULL.
pub const NULL_OFFSET: u8 = 128;

/// How the values of a type lie on the wire.
#[derive(Clone, Copy, Debug, PartialEq, Eq, Structural)]
pub enum Shape {
    U8,
    I16,
    I32,
    I64,
    Decimal,
    Real,
    Double,
    /// Text that is received, and cannot be sent.
    FixedText,
    Text,
    Binary,
    CharLob,
    ByteLob,
    Boolean,
    LongDate,
    SecondDate,
    DayDate,
    SecondTime,
}

/// The shape of the values with this type code, if the code is known.
pub open spec fn shape_of(code: u8) -> Option<Shape> {
    if code == TINYINT {
        Some(Shape::U8)
    } else if code == SMALLINT {
        Some(Shape::I16)
    } else if code == INT {
        Some(Shape::I32)
    } else if code == BIGINT {
        Some(Shape::I64)
    } else if code == DECIMAL || code == SMALLDECIMAL {
        Some(Shape::Decimal)
    } else if code == REAL {
        Some(Shape::Real)
    } else if code == DOUBLE {
        Some(Shape::Double)
    } else if code == CHAR || code == VARCHAR || code == NCHAR || code == NVARCHAR {
        Some(Shape::FixedText)
    } else if code == STRING || code == NSTRING || code == TEXT || code == SHORTTEXT {
        Some(Shape::Text)
    } else if code == BINARY || code == VARBINARY || code == BSTRING {
        Some(Shape::Binary)
    } else if code == CLOB || code == NCLOB {
        Some(Shape::CharLob)
    } else if code == BLOB {
        Some(Shape::ByteLob)
    } else if code == BOOLEAN {
        Some(Shape::Boolean)
    } else if code == LONGDATE {
        Some(Shape::LongDate)
    } else if code == SECONDDATE {
        Some(Shape::SecondDate)
    } else if code == DAYDATE {
        Some(Shape::DayDate)
    } else if code == SECONDTIME {
        Some(Shape::SecondTime)
    } else {
        None
    }
}

/// The shape of the values with this type code.
pub fn shape(code: u8) -> (r: Option<Shape>)
    ensures
        r == shape_of(code),
{
    if code == TINYINT {
        Some(Shape::U8)
    } else if code == SMALLINT {
        Some(Shape::I16)
    } else if code == INT {
        Some(Shape::I32)
    } else if code == BIGINT {
        Some(Shape::I64)
    } else if code == DECIMAL || code == SMALLDECIMAL {
        Some(Shape::Decimal)
    } else if code == REAL {
        Some(Shape::Real)
    } else if code == DOUBLE {
        Some(Shape::Double)
    } else if code == CHAR || code == VARCHAR || code == NCHAR || code == NVARCHAR {
        Some(Shape::FixedText)
    } else if code == STRING || code == NSTRING || code == TEXT || code == SHORTTEXT {
        Some(Shape::Text)
    } else if code == BINARY || code == VARBINARY || code == BSTRING {
        Some(Shape::Binary)
    } else if code == CLOB || code == NCLOB {
        Some(Shape::CharLob)
    } else if code == BLOB {
        Some(Shape::ByteLob)
    } else if code == BOOLEAN {
        Some(Shape::Boolean)
    } else if code == LONGDATE {
        Some(Shape::LongDate)
    } else if code == SECONDDATE {
        Some(Shape::SecondDate)
    } else if code == DAYDATE {
        Some(Shape::DayDate)
    } else if code == SECONDTIME {
        Some(Shape::SecondTime)
    } else {
        None
    }
}

} // verus!
