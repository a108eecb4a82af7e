//! The typed values of the database: the model, the form in which a
//! parameter is sent, and the form in which a result arrives.

use crate::error::{HdbError, ImplError};
use crate::parts::length::{
    binary_length, framed, framed_at, framed_len, lemma_framed_len, parse_binary,
    parse_nullable_binary, parse_nullable_string, parse_string, serialize_length_and_bytes,
    string_length, text_at, MAX_LENGTH,
};
use crate::parts::type_id;
use crate::parts::type_id::{shape, shape_of, Shape, NULL_OFFSET};
use crate::text::cesu8_encoding;
use crate::types::dates::{
    parse_daydate, parse_longdate, parse_seconddate, raw32_at, raw64_at, DayDate, LongDate,
    SecondDate, LONGDATE_NULL, SECONDDATE_NULL,
};
use crate::types::decimal::{
    decimal_at, decimal_valid, decimal_wire, parse_decimal, DecimalParts, HdbDecimal,
};
use crate::types::lob::{lob_at, parse_lob, BLob, CLob, LobHandle, LobView};
use crate::types::secondtime::{parse_nullable_secondtime, parse_secondtime, SecondTime};
use crate::wire::{
    agrees_view, get_i16, get_i32, get_i64, get_u32, get_u64, get_u8, le16, le32, le64,
    lemma_le_len, take_i16, take_i32, take_i64, take_u32, take_u64, take_u8, write_i16,
    write_i32, write_i64, write_u32, write_u64, write_u8,
};
use vstd::prelude::*;

verus! {

/// What a value holds, whatever its type is called.
pub enum Payload {
    /// An integer, the bit pattern of a floating-point number, or the raw
    /// value of a date or time.
    Int(int),
    Bool(bool),
    Decimal(DecimalParts),
    Text(Seq<char>),
    Bytes(Seq<u8>),
    Lob(LobView),
}

/// A value as the model sees it: the code of its type, and what it holds,
/// or nothing if it is NULL.
pub struct ValueView {
    pub code: u8,
    pub data: Option<Payload>,
}

/// A value of the database. `None` is NULL.
///
/// `REAL` and `DOUBLE` hold the IEEE 754 bit pattern of the number.
#[allow(non_camel_case_types)]
#[derive(Clone, Debug, PartialEq, Eq)]
pub enum HdbValue {
    /// 8-bit unsigned integer.
    TINYINT(Option<u8>),
    /// 16-bit signed integer.
    SMALLINT(Option<i16>),
    /// 32-bit signed integer.
    INT(Option<i32>),
    /// 64-bit signed integer.
    BIGINT(Option<i64>),
    /// Decimal floating point or fixed point number.
    DECIMAL(Option<HdbDecimal>),
    /// Single-precision floating-point number, as its 32 bits.
    REAL(Option<u32>),
    /// Double-precision floating-point number, as its 64 bits.
    DOUBLE(Option<u64>),
    /// Fixed-length character string, ASCII only.
    CHAR(Option<String>),
    /// Variable-length character string.
    VARCHAR(Option<String>),
    /// Fixed-length Unicode character string.
    NCHAR(Option<String>),
    /// Variable-length Unicode character string.
    NVARCHAR(Option<String>),
    /// Binary data of fixed length.
    BINARY(Option<Vec<u8>>),
    /// Binary data of variable length.
    VARBINARY(Option<Vec<u8>>),
    /// Large ASCII character string.
    CLOB(Option<CLob>),
    /// Large Unicode character string.
    NCLOB(Option<CLob>),
    /// Large binary string.
    BLOB(Option<BLob>),
    /// TRUE or FALSE.
    BOOLEAN(Option<bool>),
    /// The form in which the database returns all character strings.
    STRING(Option<String>),
    /// Unicode variant of STRING.
    NSTRING(Option<String>),
    /// The form in which the database returns all binary strings.
    BSTRING(Option<Vec<u8>>),
    /// Decimal floating point number with up to sixteen digits.
    SMALLDECIMAL(Option<HdbDecimal>),
    /// Text with search features.
    TEXT(Option<String>),
    /// Short text with search features.
    SHORTTEXT(Option<String>),
    /// Timestamp in ticks of 100 nanoseconds.
    LONGDATE(Option<LongDate>),
    /// Timestamp in seconds.
    SECONDDATE(Option<SecondDate>),
    /// Calendar day.
    DAYDATE(Option<DayDate>),
    /// Time of day.
    SECONDTIME(Option<SecondTime>),
}

/// The payload of an unsigned byte.
pub open spec fn u8_data(o: Option<u8>) -> Option<Payload> {
    match o {
        Some(x) => Some(Payload::Int(x as int)),
        None => None,
    }
}

/// The payload of a 16-bit number.
pub open spec fn i16_data(o: Option<i16>) -> Option<Payload> {
    match o {
        Some(x) => Some(Payload::Int(x as int)),
        None => None,
    }
}

/// The payload of a 32-bit number.
pub open spec fn i32_data(o: Option<i32>) -> Option<Payload> {
    match o {
        Some(x) => Some(Payload::Int(x as int)),
        None => None,
    }
}

/// The payload of a 64-bit number.
pub open spec fn i64_data(o: Option<i64>) -> Option<Payload> {
    match o {
        Some(x) => Some(Payload::Int(x as int)),
        None => None,
    }
}

/// The payload of the bits of a single-precision number.
pub open spec fn u32_data(o: Option<u32>) -> Option<Payload> {
    match o {
        Some(x) => Some(Payload::Int(x as int)),
        None => None,
    }
}

/// The payload of the bits of a double-precision number.
pub open spec fn u64_data(o: Option<u64>) -> Option<Payload> {
    match o {
        Some(x) => Some(Payload::Int(x as int)),
        None => None,
    }
}

/// The payload of a raw date or time.
pub open spec fn raw_data(o: Option<int>) -> Option<Payload> {
    match o {
        Some(x) => Some(Payload::Int(x)),
        None => None,
    }
}

/// The payload of a truth value.
pub open spec fn bool_data(o: Option<bool>) -> Option<Payload> {
    match o {
        Some(x) => Some(Payload::Bool(x)),
        None => None,
    }
}

/// The payload of a decimal.
pub open spec fn decimal_data(o: Option<HdbDecimal>) -> Option<Payload> {
    match o {
        Some(x) => Some(Payload::Decimal(x@)),
        None => None,
    }
}

/// The payload of a decimal given by its parts.
pub open spec fn parts_data(o: Option<DecimalParts>) -> Option<Payload> {
    match o {
        Some(x) => Some(Payload::Decimal(x)),
        None => None,
    }
}

/// The payload of a text.
pub open spec fn string_data(o: Option<String>) -> Option<Payload> {
    match o {
        Some(x) => Some(Payload::Text(x@)),
        None => None,
    }
}

/// The payload of a text given by its characters.
pub open spec fn text_data(o: Option<Seq<char>>) -> Option<Payload> {
    match o {
        Some(x) => Some(Payload::Text(x)),
        None => None,
    }
}

/// The payload of a byte string.
pub open spec fn vec_data(o: Option<Vec<u8>>) -> Option<Payload> {
    match o {
        Some(x) => Some(Payload::Bytes(x@)),
        None => None,
    }
}

/// The payload of a byte string given by its bytes.
pub open spec fn bytes_data(o: Option<Seq<u8>>) -> Option<Payload> {
    match o {
        Some(x) => Some(Payload::Bytes(x)),
        None => None,
    }
}

/// The payload of a large object.
pub open spec fn handle_data(o: Option<LobHandle>) -> Option<Payload> {
    match o {
        Some(x) => Some(Payload::Lob(x@)),
        None => None,
    }
}

/// The payload of a large object given by its view.
pub open spec fn lob_data(o: Option<LobView>) -> Option<Payload> {
    match o {
        Some(x) => Some(Payload::Lob(x)),
        None => None,
    }
}

/// The payload of a timestamp in ticks.
pub open spec fn longdate_data(o: Option<LongDate>) -> Option<Payload> {
    match o {
        Some(x) => Some(Payload::Int(x.raw())),
        None => None,
    }
}

/// The payload of a timestamp in seconds.
pub open spec fn seconddate_data(o: Option<SecondDate>) -> Option<Payload> {
    match o {
        Some(x) => Some(Payload::Int(x.raw())),
        None => None,
    }
}

/// The payload of a date.
pub open spec fn daydate_data(o: Option<DayDate>) -> Option<Payload> {
    match o {
        Some(x) => Some(Payload::Int(x.raw())),
        None => None,
    }
}

/// The payload of a time of day.
pub open spec fn secondtime_data(o: Option<SecondTime>) -> Option<Payload> {
    match o {
        Some(x) => Some(Payload::Int(x.raw())),
        None => None,
    }
}

impl View for HdbValue {
    type V = ValueView;

    open spec fn view(&self) -> ValueView {
        match self {
            HdbValue::TINYINT(o) => ValueView { code: type_id::TINYINT, data: u8_data(*o) },
            HdbValue::SMALLINT(o) => ValueView { code: type_id::SMALLINT, data: i16_data(*o) },
            HdbValue::INT(o) => ValueView { code: type_id::INT, data: i32_data(*o) },
            HdbValue::BIGINT(o) => ValueView { code: type_id::BIGINT, data: i64_data(*o) },
            HdbValue::DECIMAL(o) => ValueView { code: type_id::DECIMAL, data: decimal_data(*o) },
            HdbValue::REAL(o) => ValueView { code: type_id::REAL, data: u32_data(*o) },
            HdbValue::DOUBLE(o) => ValueView { code: type_id::DOUBLE, data: u64_data(*o) },
            HdbValue::CHAR(o) => ValueView { code: type_id::CHAR, data: string_data(*o) },
            HdbValue::VARCHAR(o) => ValueView { code: type_id::VARCHAR, data: string_data(*o) },
            HdbValue::NCHAR(o) => ValueView { code: type_id::NCHAR, data: string_data(*o) },
            HdbValue::NVARCHAR(o) => ValueView { code: type_id::NVARCHAR, data: string_data(*o) },
            HdbValue::BINARY(o) => ValueView { code: type_id::BINARY, data: vec_data(*o) },
            HdbValue::VARBINARY(o) => ValueView { code: type_id::VARBINARY, data: vec_data(*o) },
            HdbValue::CLOB(o) => ValueView { code: type_id::CLOB, data: handle_data(*o) },
            HdbValue::NCLOB(o) => ValueView { code: type_id::NCLOB, data: handle_data(*o) },
            HdbValue::BLOB(o) => ValueView { code: type_id::BLOB, data: handle_data(*o) },
            HdbValue::BOOLEAN(o) => ValueView { code: type_id::BOOLEAN, data: bool_data(*o) },
            HdbValue::STRING(o) => ValueView { code: type_id::STRING, data: string_data(*o) },
            HdbValue::NSTRING(o) => ValueView { code: type_id::NSTRING, data: string_data(*o) },
            HdbValue::BSTRING(o) => ValueView { code: type_id::BSTRING, data: vec_data(*o) },
            HdbValue::SMALLDECIMAL(o) => ValueView {
                code: type_id::SMALLDECIMAL,
                data: decimal_data(*o),
            },
            HdbValue::TEXT(o) => ValueView { code: type_id::TEXT, data: string_data(*o) },
            HdbValue::SHORTTEXT(o) => ValueView { code: type_id::SHORTTEXT, data: string_data(*o) },
            HdbValue::LONGDATE(o) => ValueView { code: type_id::LONGDATE, data: longdate_data(*o) },
            HdbValue::SECONDDATE(o) => ValueView {
                code: type_id::SECONDDATE,
                data: seconddate_data(*o),
            },
            HdbValue::DAYDATE(o) => ValueView { code: type_id::DAYDATE, data: daydate_data(*o) },
            HdbValue::SECONDTIME(o) => ValueView {
                code: type_id::SECONDTIME,
                data: secondtime_data(*o),
            },
        }
    }
}

/// Options of a large object that is sent: its data comes with the row,
/// and none follows later.
pub const LOB_OPTIONS_ON_SEND: u8 = 0b110;

/// The payload is one that values of this shape hold, and is none of the
/// patterns that stand for NULL.
pub open spec fn payload_wf(sh: Shape, d: Payload) -> bool {
    match sh {
        Shape::U8 => d matches Payload::Int(x) && 0 <= x <= u8::MAX,
        Shape::I16 => d matches Payload::Int(x) && i16::MIN <= x <= i16::MAX,
        Shape::I32 => d matches Payload::Int(x) && i32::MIN <= x <= i32::MAX,
        Shape::I64 => d matches Payload::Int(x) && i64::MIN <= x <= i64::MAX,
        Shape::Decimal => d matches Payload::Decimal(p) && decimal_valid(
            p.negative,
            p.mantissa,
            p.exponent,
        ),
        Shape::Real => d matches Payload::Int(x) && 0 <= x < u32::MAX,
        Shape::Double => d matches Payload::Int(x) && 0 <= x < u64::MAX,
        Shape::FixedText => d is Text,
        Shape::Text => d is Text,
        Shape::Binary => d is Bytes,
        Shape::CharLob => d matches Payload::Lob(l) && l.character,
        Shape::ByteLob => d matches Payload::Lob(l) && !l.character,
        Shape::Boolean => d is Bool,
        Shape::LongDate => d matches Payload::Int(x) && 0 <= x < LONGDATE_NULL,
        Shape::SecondDate => d matches Payload::Int(x) && 0 <= x < SECONDDATE_NULL,
        Shape::DayDate => d matches Payload::Int(x) && 1 <= x <= i32::MAX,
        Shape::SecondTime => d matches Payload::Int(x) && 0 <= x < 86_402,
    }
}

/// The values of the model: a known type code, and NULL or a payload of the
/// type's shape.
pub open spec fn value_wf(v: ValueView) -> bool {
    match shape_of(v.code) {
        None => false,
        Some(sh) => match v.data {
            None => true,
            Some(d) => payload_wf(sh, d),
        },
    }
}

/// The first byte of a value that is sent: the type code, with 128 added
/// for NULL.
pub open spec fn type_id_byte(v: ValueView) -> u8 {
    if v.data is None {
        (v.code + NULL_OFFSET) as u8
    } else {
        v.code
    }
}

/// The bytes of a payload that is sent. A large object sends its options,
/// its length and the position `data_pos` at which its data lies behind the
/// values of its row.
pub open spec fn payload_wire(sh: Shape, d: Payload, data_pos: int) -> Seq<u8> {
    match d {
        Payload::Int(x) => match sh {
            Shape::U8 => seq![x as u8],
            Shape::I16 => le16(x),
            Shape::I32 | Shape::Real | Shape::DayDate | Shape::SecondTime => le32(x),
            _ => le64(x),
        },
        Payload::Bool(b) => seq![
            if b {
                1u8
            } else {
                0u8
            },
        ],
        Payload::Decimal(p) => decimal_wire(p.negative, p.mantissa, p.exponent),
        Payload::Text(t) => framed(cesu8_encoding(t)),
        Payload::Bytes(b) => framed(b),
        Payload::Lob(l) => seq![LOB_OPTIONS_ON_SEND] + le64(l.byte_length as int) + le64(
            data_pos,
        ),
    }
}

/// The bytes of a value that is sent: the type code and, unless the value is
/// NULL, its payload.
pub open spec fn value_wire(v: ValueView, data_pos: int) -> Seq<u8> {
    seq![type_id_byte(v)] + match (shape_of(v.code), v.data) {
        (Some(sh), Some(d)) => payload_wire(sh, d, data_pos),
        _ => Seq::<u8>::empty(),
    }
}

/// The data of a large object: it is sent behind the values of the row
/// that the object belongs to. Other values have none.
pub open spec fn trailing_data(v: ValueView) -> Seq<u8> {
    match (shape_of(v.code), v.data) {
        (Some(_), Some(Payload::Lob(l))) => l.data,
        _ => Seq::<u8>::empty(),
    }
}

/// Number of bytes that a payload takes when it is sent; for a large
/// object, its data counts.
pub open spec fn payload_size(sh: Shape, d: Payload) -> int {
    match d {
        Payload::Int(x) => match sh {
            Shape::U8 => 1,
            Shape::I16 => 2,
            Shape::I32 | Shape::Real | Shape::DayDate | Shape::SecondTime => 4,
            _ => 8,
        },
        Payload::Bool(b) => 1,
        Payload::Decimal(p) => 16,
        Payload::Text(t) => framed_len(cesu8_encoding(t).len() as int),
        Payload::Bytes(b) => framed_len(b.len() as int),
        Payload::Lob(l) => 17 + l.data.len() as int,
    }
}

/// Number of bytes that a value takes when it is sent.
pub open spec fn value_size(v: ValueView) -> int {
    1 + match (shape_of(v.code), v.data) {
        (Some(sh), Some(d)) => payload_size(sh, d),
        _ => 0,
    }
}

/// Why a value cannot be sent, if it cannot: text of the fixed kinds is
/// only ever received, a text or byte string can be too long for its
/// length indicator, and a large object must hold all of its data, which
/// must fit a part.
pub open spec fn emit_failure(v: ValueView) -> Option<HdbError> {
    match (shape_of(v.code), v.data) {
        (Some(Shape::FixedText), Some(_)) => Some(
            HdbError::Impl(ImplError::UnsupportedTypeCode(v.code)),
        ),
        (Some(_), Some(Payload::Text(t))) => if cesu8_encoding(t).len() > MAX_LENGTH {
            Some(HdbError::Impl(ImplError::TooLarge))
        } else {
            None
        },
        (Some(_), Some(Payload::Bytes(b))) => if b.len() > MAX_LENGTH {
            Some(HdbError::Impl(ImplError::TooLarge))
        } else {
            None
        },
        (Some(_), Some(Payload::Lob(l))) => if l.data.len() != l.byte_length {
            Some(HdbError::Impl(ImplError::IncompleteLob))
        } else if l.data.len() > MAX_LENGTH {
            Some(HdbError::Impl(ImplError::TooLarge))
        } else {
            None
        },
        _ => None,
    }
}

/// How far a value moves the position of large-object data.
pub open spec fn lob_advance(v: ValueView) -> int {
    match (shape_of(v.code), v.data) {
        (Some(_), Some(Payload::Lob(l))) => l.byte_length as int,
        _ => 0,
    }
}

/// A value and the data that follows it take as many bytes as `value_size`
/// says, wherever the data of large objects lies.
pub proof fn lemma_value_size(v: ValueView, data_pos: int)
    ensures
        value_wire(v, data_pos).len() + trailing_data(v).len() == value_size(v),
{
    match (shape_of(v.code), v.data) {
        (Some(sh), Some(d)) => {
            match d {
                Payload::Int(x) => {
                    lemma_le_len(x);
                },
                Payload::Text(t) => {
                    lemma_framed_len(cesu8_encoding(t));
                },
                Payload::Bytes(b) => {
                    lemma_framed_len(b);
                },
                Payload::Lob(l) => {
                    lemma_le_len(l.byte_length as int);
                    lemma_le_len(data_pos);
                },
                Payload::Decimal(p) => {
                    lemma_le_len(crate::types::decimal::decimal_low(p.mantissa));
                    lemma_le_len(
                        crate::types::decimal::decimal_high(p.negative, p.mantissa, p.exponent),
                    );
                },
                _ => {},
            }
        },
        _ => {},
    }
}

impl HdbValue {
    /// The type code under which the value is sent: below 128 for a value,
    /// above for NULL.
    pub fn type_id(&self) -> (r: u8)
        ensures
            r == type_id_byte(self@),
            shape_of(self@.code) is Some,
            self@.code < 128,
    {
        match self {
            HdbValue::TINYINT(o) => type_id::TINYINT + null_offset(o.is_none()),
            HdbValue::SMALLINT(o) => type_id::SMALLINT + null_offset(o.is_none()),
            HdbValue::INT(o) => type_id::INT + null_offset(o.is_none()),
            HdbValue::BIGINT(o) => type_id::BIGINT + null_offset(o.is_none()),
            HdbValue::DECIMAL(o) => type_id::DECIMAL + null_offset(o.is_none()),
            HdbValue::REAL(o) => type_id::REAL + null_offset(o.is_none()),
            HdbValue::DOUBLE(o) => type_id::DOUBLE + null_offset(o.is_none()),
            HdbValue::CHAR(o) => type_id::CHAR + null_offset(o.is_none()),
            HdbValue::VARCHAR(o) => type_id::VARCHAR + null_offset(o.is_none()),
            HdbValue::NCHAR(o) => type_id::NCHAR + null_offset(o.is_none()),
            HdbValue::NVARCHAR(o) => type_id::NVARCHAR + null_offset(o.is_none()),
            HdbValue::BINARY(o) => type_id::BINARY + null_offset(o.is_none()),
            HdbValue::VARBINARY(o) => type_id::VARBINARY + null_offset(o.is_none()),
            HdbValue::CLOB(o) => type_id::CLOB + null_offset(o.is_none()),
            HdbValue::NCLOB(o) => type_id::NCLOB + null_offset(o.is_none()),
            HdbValue::BLOB(o) => type_id::BLOB + null_offset(o.is_none()),
            HdbValue::BOOLEAN(o) => type_id::BOOLEAN + null_offset(o.is_none()),
            HdbValue::STRING(o) => type_id::STRING + null_offset(o.is_none()),
            HdbValue::NSTRING(o) => type_id::NSTRING + null_offset(o.is_none()),
            HdbValue::BSTRING(o) => type_id::BSTRING + null_offset(o.is_none()),
            HdbValue::SMALLDECIMAL(o) => type_id::SMALLDECIMAL + null_offset(o.is_none()),
            HdbValue::TEXT(o) => type_id::TEXT + null_offset(o.is_none()),
            HdbValue::SHORTTEXT(o) => type_id::SHORTTEXT + null_offset(o.is_none()),
            HdbValue::LONGDATE(o) => type_id::LONGDATE + null_offset(o.is_none()),
            HdbValue::SECONDDATE(o) => type_id::SECONDDATE + null_offset(o.is_none()),
            HdbValue::DAYDATE(o) => type_id::DAYDATE + null_offset(o.is_none()),
            HdbValue::SECONDTIME(o) => type_id::SECONDTIME + null_offset(o.is_none()),
        }
    }

    /// The type code of the value, whether it is NULL or not.
    pub fn base_code(&self) -> (r: u8)
        ensures
            r == self@.code,
            shape_of(r) is Some,
    {
        let id: u8 = self.type_id();
        if id >= NULL_OFFSET {
            id - NULL_OFFSET
        } else {
            id
        }
    }

    /// Whether the value is NULL.
    pub fn is_null(&self) -> (r: bool)
        ensures
            r == (self@.data is None),
    {
        self.type_id() >= NULL_OFFSET
    }

    /// Writes the type code of the value, and says whether the value is NULL.
    pub fn serialize_type_id(&self, w: &mut Vec<u8>) -> (r: bool)
        ensures
            r == (self@.data is None),
            final(w)@ == old(w)@ + seq![type_id_byte(self@)],
    {
        let id: u8 = self.type_id();
        write_u8(w, id);
        id >= NULL_OFFSET
    }
}

/// What NULL adds to a type code.
pub fn null_offset(is_null: bool) -> (r: u8)
    ensures
        r == (if is_null {
            NULL_OFFSET
        } else {
            0
        }),
{
    if is_null {
        NULL_OFFSET
    } else {
        0
    }
}

/// Appends a type code and one byte.
fn emit_byte(id: u8, x: u8, w: &mut Vec<u8>)
    ensures
        final(w)@ == old(w)@ + (seq![id] + seq![x]),
{
    write_u8(w, id);
    write_u8(w, x);
    assert(w@ =~= old(w)@ + (seq![id] + seq![x]));
}

/// Appends a type code and a sixteen-bit number.
fn emit_i16(id: u8, x: i16, w: &mut Vec<u8>)
    ensures
        final(w)@ == old(w)@ + (seq![id] + le16(x as int)),
{
    write_u8(w, id);
    write_i16(w, x);
    assert(w@ =~= old(w)@ + (seq![id] + le16(x as int)));
}

/// Appends a type code and a signed 32-bit number.
fn emit_i32(id: u8, x: i32, w: &mut Vec<u8>)
    ensures
        final(w)@ == old(w)@ + (seq![id] + le32(x as int)),
{
    write_u8(w, id);
    write_i32(w, x);
    assert(w@ =~= old(w)@ + (seq![id] + le32(x as int)));
}

/// Appends a type code and an unsigned 32-bit number.
fn emit_u32(id: u8, x: u32, w: &mut Vec<u8>)
    ensures
        final(w)@ == old(w)@ + (seq![id] + le32(x as int)),
{
    write_u8(w, id);
    write_u32(w, x);
    assert(w@ =~= old(w)@ + (seq![id] + le32(x as int)));
}

/// Appends a type code and a signed 64-bit number.
fn emit_i64(id: u8, x: i64, w: &mut Vec<u8>)
    ensures
        final(w)@ == old(w)@ + (seq![id] + le64(x as int)),
{
    write_u8(w, id);
    write_i64(w, x);
    assert(w@ =~= old(w)@ + (seq![id] + le64(x as int)));
}

/// Appends a type code and an unsigned 64-bit number.
fn emit_u64(id: u8, x: u64, w: &mut Vec<u8>)
    ensures
        final(w)@ == old(w)@ + (seq![id] + le64(x as int)),
{
    write_u8(w, id);
    write_u64(w, x);
    assert(w@ =~= old(w)@ + (seq![id] + le64(x as int)));
}

/// Appends a type code and a decimal.
fn emit_decimal(id: u8, d: &HdbDecimal, w: &mut Vec<u8>)
    ensures
        final(w)@ == old(w)@ + (seq![id] + decimal_wire(
            d@.negative,
            d@.mantissa,
            d@.exponent,
        )),
{
    write_u8(w, id);
    d.emit(w);
    assert(w@ =~= old(w)@ + (seq![id] + decimal_wire(d@.negative, d@.mantissa, d@.exponent)));
}

/// Appends a type code and a byte string, unless the string is too long.
fn emit_binary(id: u8, v: &[u8], w: &mut Vec<u8>) -> (r: Result<(), HdbError>)
    ensures
        match r {
            Ok(()) => v@.len() <= MAX_LENGTH && final(w)@ == old(w)@ + (seq![id] + framed(v@)),
            Err(e) => v@.len() > MAX_LENGTH && e == HdbError::Impl(ImplError::TooLarge) && final(w)@
                == old(w)@,
        },
{
    if v.len() > MAX_LENGTH {
        return Err(HdbError::Impl(ImplError::TooLarge));
    }
    write_u8(w, id);
    let ghost mid = w@;
    match serialize_length_and_bytes(v, w) {
        Ok(()) => {
            assert(w@ =~= old(w)@ + (seq![id] + framed(v@)));
            Ok(())
        },
        Err(e) => {
            proof {
                assert(false);
            }
            Err(e)
        },
    }
}

/// Appends a type code and a text, unless the text is too long.
fn emit_text(id: u8, s: &str, w: &mut Vec<u8>) -> (r: Result<(), HdbError>)
    ensures
        match r {
            Ok(()) => cesu8_encoding(s@).len() <= MAX_LENGTH && final(w)@ == old(w)@ + (seq![id]
                + framed(cesu8_encoding(s@))),
            Err(e) => cesu8_encoding(s@).len() > MAX_LENGTH && e == HdbError::Impl(
                ImplError::TooLarge,
            ) && final(w)@ == old(w)@,
        },
{
    let v: Vec<u8> = crate::text::string_to_cesu8(s);
    emit_binary(id, v.as_slice(), w)
}

/// Appends a type code and the header of a large object, and moves the
/// position of large-object data past the object.
fn emit_lob(id: u8, l: &LobHandle, data_pos: &mut u64, w: &mut Vec<u8>) -> (r: Result<
    (),
    HdbError,
>)
    ensures
        match r {
            Ok(()) => *old(data_pos) + l@.byte_length <= u64::MAX && *final(data_pos) == *old(
                data_pos,
            ) + l@.byte_length && final(w)@ == old(w)@ + (seq![id] + (seq![LOB_OPTIONS_ON_SEND]
                + le64(l@.byte_length as int) + le64(*old(data_pos) as int))),
            Err(e) => *old(data_pos) + l@.byte_length > u64::MAX && e == HdbError::Impl(
                ImplError::TooLarge,
            ) && final(w)@ == old(w)@ && *final(data_pos) == *old(data_pos),
        },
{
    let length: u64 = l.len();
    match data_pos.checked_add(length) {
        None => Err(HdbError::Impl(ImplError::TooLarge)),
        Some(next) => {
            write_u8(w, id);
            write_u8(w, LOB_OPTIONS_ON_SEND);
            write_u64(w, length);
            write_u64(w, *data_pos);
            assert(w@ =~= old(w)@ + (seq![id] + (seq![LOB_OPTIONS_ON_SEND] + le64(
                l@.byte_length as int,
            ) + le64(*old(data_pos) as int))));
            *data_pos = next;
            Ok(())
        },
    }
}

/// The outcome of sending a value: its bytes appended and the position of
/// large-object data moved on, or an error and nothing changed.
pub open spec fn sent(
    v: ValueView,
    r: Result<(), HdbError>,
    pos0: u64,
    pos1: u64,
    w0: Seq<u8>,
    w1: Seq<u8>,
) -> bool {
    match r {
        Ok(()) => emit_failure(v) is None && pos1 == pos0 + lob_advance(v) && w1 == w0
            + value_wire(v, pos0 as int),
        Err(e) => w1 == w0 && pos1 == pos0 && (match emit_failure(v) {
            Some(f) => e == f,
            None => e == HdbError::Impl(ImplError::TooLarge) && pos0 + lob_advance(v) > u64::MAX,
        }),
    }
}

/// Sends a value as a parameter: its type code, then its payload. `data_pos`
/// is where the data of the next large object will lie.
pub fn serialize(tv: &HdbValue, data_pos: &mut u64, w: &mut Vec<u8>) -> (r: Result<(), HdbError>)
    ensures
        sent(tv@, r, *old(data_pos), *final(data_pos), old(w)@, final(w)@),
{
    let id: u8 = tv.type_id();
    match tv {
        HdbValue::TINYINT(Some(u)) => {
            emit_byte(id, *u, w);
            Ok(())
        },
        HdbValue::SMALLINT(Some(i)) => {
            emit_i16(id, *i, w);
            Ok(())
        },
        HdbValue::INT(Some(i)) => {
            emit_i32(id, *i, w);
            Ok(())
        },
        HdbValue::BIGINT(Some(i)) => {
            emit_i64(id, *i, w);
            Ok(())
        },
        HdbValue::DECIMAL(Some(d)) | HdbValue::SMALLDECIMAL(Some(d)) => {
            emit_decimal(id, d, w);
            Ok(())
        },
        HdbValue::REAL(Some(bits)) => {
            emit_u32(id, *bits, w);
            Ok(())
        },
        HdbValue::DOUBLE(Some(bits)) => {
            emit_u64(id, *bits, w);
            Ok(())
        },
        HdbValue::BOOLEAN(Some(b)) => {
            emit_byte(
                id,
                if *b {
                    1
                } else {
                    0
                },
                w,
            );
            Ok(())
        },
        HdbValue::LONGDATE(Some(ld)) => {
            emit_i64(id, *ld.ref_raw(), w);
            Ok(())
        },
        HdbValue::SECONDDATE(Some(sd)) => {
            emit_i64(id, *sd.ref_raw(), w);
            Ok(())
        },
        HdbValue::DAYDATE(Some(dd)) => {
            emit_i32(id, *dd.ref_raw(), w);
            Ok(())
        },
        HdbValue::SECONDTIME(Some(st)) => {
            emit_u32(id, *st.ref_raw(), w);
            Ok(())
        },
        HdbValue::CLOB(Some(l)) | HdbValue::NCLOB(Some(l)) | HdbValue::BLOB(Some(l)) => {
            let held: usize = l.buffered();
            if held as u64 != l.len() {
                Err(HdbError::Impl(ImplError::IncompleteLob))
            } else if held > MAX_LENGTH {
                Err(HdbError::Impl(ImplError::TooLarge))
            } else {
                emit_lob(id, l, data_pos, w)
            }
        },
        HdbValue::STRING(Some(s)) | HdbValue::NSTRING(Some(s)) | HdbValue::TEXT(Some(s))
        | HdbValue::SHORTTEXT(Some(s)) => emit_text(id, s.as_str(), w),
        HdbValue::BINARY(Some(v)) | HdbValue::VARBINARY(Some(v)) | HdbValue::BSTRING(Some(v)) => {
            emit_binary(id, v.as_slice(), w)
        },
        HdbValue::CHAR(Some(_)) | HdbValue::VARCHAR(Some(_)) | HdbValue::NCHAR(Some(_))
        | HdbValue::NVARCHAR(Some(_)) => Err(HdbError::Impl(ImplError::UnsupportedTypeCode(id))),
        _ => {
            write_u8(w, id);
            assert(w@ =~= old(w)@ + value_wire(tv@, *old(data_pos) as int));
            Ok(())
        },
    }
}

/// Number of bytes that a value takes in a row, if it can be sent: what
/// `serialize` writes, and the data of a large object.
pub fn size(tv: &HdbValue) -> (r: Result<usize, HdbError>)
    ensures
        match r {
            Ok(n) => emit_failure(tv@) is None && n == value_size(tv@),
            Err(e) => emit_failure(tv@) == Some(e),
        },
{
    let id: u8 = tv.type_id();
    match tv {
        HdbValue::BOOLEAN(Some(_)) | HdbValue::TINYINT(Some(_)) => Ok(2),
        HdbValue::SMALLINT(Some(_)) => Ok(3),
        HdbValue::DECIMAL(Some(_)) | HdbValue::SMALLDECIMAL(Some(_)) => Ok(17),
        HdbValue::INT(Some(_)) | HdbValue::REAL(Some(_)) | HdbValue::DAYDATE(Some(_))
        | HdbValue::SECONDTIME(Some(_)) => Ok(5),
        HdbValue::BIGINT(Some(_)) | HdbValue::DOUBLE(Some(_)) | HdbValue::LONGDATE(Some(_))
        | HdbValue::SECONDDATE(Some(_)) => Ok(9),
        HdbValue::CLOB(Some(l)) | HdbValue::NCLOB(Some(l)) | HdbValue::BLOB(Some(l)) => {
            let held: usize = l.buffered();
            if held as u64 != l.len() {
                Err(HdbError::Impl(ImplError::IncompleteLob))
            } else if held > MAX_LENGTH {
                Err(HdbError::Impl(ImplError::TooLarge))
            } else {
                Ok(18 + held)
            }
        },
        HdbValue::STRING(Some(s)) | HdbValue::NSTRING(Some(s)) | HdbValue::TEXT(Some(s))
        | HdbValue::SHORTTEXT(Some(s)) => {
            let l: usize = string_length(s.as_str())?;
            Ok(1 + l)
        },
        HdbValue::BINARY(Some(v)) | HdbValue::VARBINARY(Some(v)) | HdbValue::BSTRING(Some(v)) => {
            let l: usize = binary_length(v.len())?;
            Ok(1 + l)
        },
        HdbValue::CHAR(Some(_)) | HdbValue::VARCHAR(Some(_)) | HdbValue::NCHAR(Some(_))
        | HdbValue::NVARCHAR(Some(_)) => Err(HdbError::Impl(ImplError::UnsupportedTypeCode(id))),
        _ => Ok(1),
    }
}

/// NULL where a column may be NULL, an error where it may not.
pub open spec fn null_or_error(nullable: bool, p: int) -> Result<(Option<Payload>, int), HdbError> {
    if nullable {
        Ok((None, p))
    } else {
        Err(HdbError::Impl(ImplError::UnexpectedNull))
    }
}

/// The integer of this shape at `pos`.
pub open spec fn plain_int_at(sh: Shape, s: Seq<u8>, pos: int) -> Result<
    (Option<Payload>, int),
    HdbError,
> {
    match sh {
        Shape::U8 => match get_u8(s, pos) {
            Err(e) => Err(e),
            Ok((x, p)) => Ok((Some(Payload::Int(x as int)), p)),
        },
        Shape::I16 => match get_i16(s, pos) {
            Err(e) => Err(e),
            Ok((x, p)) => Ok((Some(Payload::Int(x as int)), p)),
        },
        Shape::I32 => match get_i32(s, pos) {
            Err(e) => Err(e),
            Ok((x, p)) => Ok((Some(Payload::Int(x as int)), p)),
        },
        Shape::I64 => match get_i64(s, pos) {
            Err(e) => Err(e),
            Ok((x, p)) => Ok((Some(Payload::Int(x as int)), p)),
        },
        _ => match get_u8(s, pos) {
            Err(e) => Err(e),
            Ok((x, p)) => Ok((Some(Payload::Bool(x > 0)), p)),
        },
    }
}

/// A value behind a null indicator: a byte that is 0 for NULL, and anything
/// else before a value.
pub open spec fn indicated_at(sh: Shape, nullable: bool, s: Seq<u8>, pos: int) -> Result<
    (Option<Payload>, int),
    HdbError,
> {
    match get_u8(s, pos) {
        Err(e) => Err(e),
        Ok((indicator, p)) => if indicator == 0 {
            null_or_error(nullable, p)
        } else {
            plain_int_at(sh, s, p)
        },
    }
}

/// Lifts a result on an optional payload part into a result on a payload.
pub open spec fn with_data<T>(
    r: Result<(Option<T>, int), HdbError>,
    f: spec_fn(Option<T>) -> Option<Payload>,
) -> Result<(Option<Payload>, int), HdbError> {
    match r {
        Err(e) => Err(e),
        Ok((o, p)) => Ok((f(o), p)),
    }
}

/// What the bytes at `pos` say of a value of this shape in a reply.
///
/// Integers and booleans lie behind a null indicator. Everything else says
/// in its own bytes whether it is NULL: floating-point numbers and decimals
/// by all bits set, dates and times by one raw value, strings by the length
/// indicator 255, large objects by a flag.
pub open spec fn payload_at(sh: Shape, nullable: bool, s: Seq<u8>, pos: int) -> Result<
    (Option<Payload>, int),
    HdbError,
> {
    match sh {
        Shape::U8 | Shape::I16 | Shape::I32 | Shape::I64 | Shape::Boolean => indicated_at(
            sh,
            nullable,
            s,
            pos,
        ),
        Shape::Real => match get_u32(s, pos) {
            Err(e) => Err(e),
            Ok((bits, p)) => if bits == u32::MAX {
                null_or_error(nullable, p)
            } else {
                Ok((Some(Payload::Int(bits as int)), p))
            },
        },
        Shape::Double => match get_u64(s, pos) {
            Err(e) => Err(e),
            Ok((bits, p)) => if bits == u64::MAX {
                null_or_error(nullable, p)
            } else {
                Ok((Some(Payload::Int(bits as int)), p))
            },
        },
        Shape::Decimal => with_data(
            decimal_at(s, pos, nullable),
            |o: Option<DecimalParts>| parts_data(o),
        ),
        Shape::FixedText | Shape::Text => with_data(
            text_at(s, pos, nullable),
            |o: Option<Seq<char>>| text_data(o),
        ),
        Shape::Binary => with_data(
            framed_at(s, pos, nullable),
            |o: Option<Seq<u8>>| bytes_data(o),
        ),
        Shape::CharLob => with_data(
            lob_at(s, pos, nullable, true),
            |o: Option<LobView>| lob_data(o),
        ),
        Shape::ByteLob => with_data(
            lob_at(s, pos, nullable, false),
            |o: Option<LobView>| lob_data(o),
        ),
        Shape::LongDate => with_data(
            raw64_at(s, pos, nullable, LONGDATE_NULL as int, 0, LONGDATE_NULL - 1),
            |o: Option<int>| raw_data(o),
        ),
        Shape::SecondDate => with_data(
            raw64_at(s, pos, nullable, SECONDDATE_NULL as int, 0, SECONDDATE_NULL - 1),
            |o: Option<int>| raw_data(o),
        ),
        Shape::DayDate => with_data(
            raw32_at(s, pos, nullable, 0, 1, i32::MAX as int),
            |o: Option<int>| raw_data(o),
        ),
        Shape::SecondTime => with_data(
            raw32_at(s, pos, nullable, 86_402, 0, 86_401),
            |o: Option<int>| raw_data(o),
        ),
    }
}

/// What the bytes at `pos` say of a value with this type code in a reply.
pub open spec fn value_at(code: u8, nullable: bool, s: Seq<u8>, pos: int) -> Result<
    (ValueView, int),
    HdbError,
> {
    match shape_of(code) {
        None => Err(HdbError::Impl(ImplError::UnsupportedTypeCode(code))),
        Some(sh) => match payload_at(sh, nullable, s, pos) {
            Err(e) => Err(e),
            Ok((data, p)) => Ok((ValueView { code, data }, p)),
        },
    }
}

/// Reads a null indicator; `true` says NULL.
pub fn ind_null(b: &[u8], pos: usize) -> (r: Result<(bool, usize), HdbError>)
    ensures
        match r {
            Ok((is_null, p)) => get_u8(b@, pos as int) == Ok::<_, HdbError>(
                (b@[pos as int], p as int),
            ) && is_null == (b@[pos as int] == 0),
            Err(e) => get_u8(b@, pos as int) == Err::<(u8, int), _>(e),
        },
{
    let (x, p) = take_u8(b, pos)?;
    Ok((x == 0, p))
}

/// Reads a null indicator that must not say NULL.
pub fn ind_not_null(b: &[u8], pos: usize) -> (r: Result<usize, HdbError>)
    ensures
        match r {
            Ok(p) => get_u8(b@, pos as int) == Ok::<_, HdbError>((b@[pos as int], p as int))
                && b@[pos as int] != 0,
            Err(e) => match get_u8(b@, pos as int) {
                Ok((x, _)) => x == 0 && e == HdbError::Impl(ImplError::UnexpectedNull),
                Err(f) => e == f,
            },
        },
{
    let (is_null, p) = ind_null(b, pos)?;
    if is_null {
        Err(HdbError::Impl(ImplError::UnexpectedNull))
    } else {
        Ok(p)
    }
}

/// Reads a null indicator, and says whether a value follows it.
fn indicator(b: &[u8], pos: usize, nullable: bool) -> (r: Result<(bool, usize), HdbError>)
    ensures
        match r {
            Ok((present, p)) => get_u8(b@, pos as int) == Ok::<_, HdbError>(
                (b@[pos as int], p as int),
            ) && present == (b@[pos as int] != 0) && (present || nullable),
            Err(e) => match get_u8(b@, pos as int) {
                Ok((x, _)) => x == 0 && !nullable && e == HdbError::Impl(
                    ImplError::UnexpectedNull,
                ),
                Err(f) => e == f,
            },
        },
{
    if nullable {
        let (is_null, p) = ind_null(b, pos)?;
        Ok((!is_null, p))
    } else {
        let p: usize = ind_not_null(b, pos)?;
        Ok((true, p))
    }
}

/// Reads the bits of a single-precision number that may be NULL.
pub fn parse_nullable_real(b: &[u8], pos: usize) -> (r: Result<(Option<u32>, usize), HdbError>)
    ensures
        match r {
            Ok((o, p)) => payload_at(Shape::Real, true, b@, pos as int) == Ok::<_, HdbError>(
                (u32_data(o), p as int),
            ) && o != Some(u32::MAX),
            Err(e) => payload_at(Shape::Real, true, b@, pos as int) == Err::<
                (Option<Payload>, int),
                _,
            >(e),
        },
{
    let (bits, p) = take_u32(b, pos)?;
    if bits == u32::MAX {
        Ok((None, p))
    } else {
        Ok((Some(bits), p))
    }
}

/// Reads the bits of a single-precision number that cannot be NULL.
pub fn parse_real(b: &[u8], pos: usize) -> (r: Result<(u32, usize), HdbError>)
    ensures
        match r {
            Ok((x, p)) => payload_at(Shape::Real, false, b@, pos as int) == Ok::<_, HdbError>(
                (Some(Payload::Int(x as int)), p as int),
            ) && x != u32::MAX,
            Err(e) => payload_at(Shape::Real, false, b@, pos as int) == Err::<
                (Option<Payload>, int),
                _,
            >(e),
        },
{
    let (bits, p) = take_u32(b, pos)?;
    if bits == u32::MAX {
        Err(HdbError::Impl(ImplError::UnexpectedNull))
    } else {
        Ok((bits, p))
    }
}

/// Reads the bits of a double-precision number that may be NULL.
pub fn parse_nullable_double(b: &[u8], pos: usize) -> (r: Result<(Option<u64>, usize), HdbError>)
    ensures
        match r {
            Ok((o, p)) => payload_at(Shape::Double, true, b@, pos as int) == Ok::<_, HdbError>(
                (u64_data(o), p as int),
            ) && o != Some(u64::MAX),
            Err(e) => payload_at(Shape::Double, true, b@, pos as int) == Err::<
                (Option<Payload>, int),
                _,
            >(e),
        },
{
    let (bits, p) = take_u64(b, pos)?;
    if bits == u64::MAX {
        Ok((None, p))
    } else {
        Ok((Some(bits), p))
    }
}

/// Reads the bits of a double-precision number that cannot be NULL.
pub fn parse_double(b: &[u8], pos: usize) -> (r: Result<(u64, usize), HdbError>)
    ensures
        match r {
            Ok((x, p)) => payload_at(Shape::Double, false, b@, pos as int) == Ok::<_, HdbError>(
                (Some(Payload::Int(x as int)), p as int),
            ) && x != u64::MAX,
            Err(e) => payload_at(Shape::Double, false, b@, pos as int) == Err::<
                (Option<Payload>, int),
                _,
            >(e),
        },
{
    let (bits, p) = take_u64(b, pos)?;
    if bits == u64::MAX {
        Err(HdbError::Impl(ImplError::UnexpectedNull))
    } else {
        Ok((bits, p))
    }
}

/// Reads floating-point bits of either width.
#[verifier::rlimit(40)]
fn parse_float(code: u8, nullable: bool, b: &[u8], pos: usize) -> (r: Result<
    (HdbValue, usize),
    HdbError,
>)
    requires
        code == type_id::REAL || code == type_id::DOUBLE,
    ensures
        agrees_view(r, value_at(code, nullable, b@, pos as int)),
        r matches Ok((v, _)) ==> value_wf(v@),
{
    if code == type_id::REAL {
        if nullable {
            let (o, p) = parse_nullable_real(b, pos)?;
            Ok((HdbValue::REAL(o), p))
        } else {
            let (x, p) = parse_real(b, pos)?;
            Ok((HdbValue::REAL(Some(x)), p))
        }
    } else {
        if nullable {
            let (o, p) = parse_nullable_double(b, pos)?;
            Ok((HdbValue::DOUBLE(o), p))
        } else {
            let (x, p) = parse_double(b, pos)?;
            Ok((HdbValue::DOUBLE(Some(x)), p))
        }
    }
}

/// Reads an integer or a boolean.
#[verifier::rlimit(40)]
fn parse_plain(code: u8, nullable: bool, b: &[u8], pos: usize) -> (r: Result<
    (HdbValue, usize),
    HdbError,
>)
    requires
        code == type_id::TINYINT || code == type_id::SMALLINT || code == type_id::INT || code
            == type_id::BIGINT || code == type_id::BOOLEAN,
    ensures
        agrees_view(r, value_at(code, nullable, b@, pos as int)),
        r matches Ok((v, _)) ==> value_wf(v@),
{
    let (present, p) = indicator(b, pos, nullable)?;
    if code == type_id::TINYINT {
        if present {
            let (x, q) = take_u8(b, p)?;
            Ok((HdbValue::TINYINT(Some(x)), q))
        } else {
            Ok((HdbValue::TINYINT(None), p))
        }
    } else if code == type_id::SMALLINT {
        if present {
            let (x, q) = take_i16(b, p)?;
            Ok((HdbValue::SMALLINT(Some(x)), q))
        } else {
            Ok((HdbValue::SMALLINT(None), p))
        }
    } else if code == type_id::INT {
        if present {
            let (x, q) = take_i32(b, p)?;
            Ok((HdbValue::INT(Some(x)), q))
        } else {
            Ok((HdbValue::INT(None), p))
        }
    } else if code == type_id::BIGINT {
        if present {
            let (x, q) = take_i64(b, p)?;
            Ok((HdbValue::BIGINT(Some(x)), q))
        } else {
            Ok((HdbValue::BIGINT(None), p))
        }
    } else {
        if present {
            let (x, q) = take_u8(b, p)?;
            Ok((HdbValue::BOOLEAN(Some(x > 0)), q))
        } else {
            Ok((HdbValue::BOOLEAN(None), p))
        }
    }
}

/// Reads a text of any of the text types.
#[verifier::rlimit(40)]
fn parse_text(code: u8, nullable: bool, b: &[u8], pos: usize) -> (r: Result<
    (HdbValue, usize),
    HdbError,
>)
    requires
        shape_of(code) == Some(Shape::Text) || shape_of(code) == Some(Shape::FixedText),
    ensures
        agrees_view(r, value_at(code, nullable, b@, pos as int)),
        r matches Ok((v, _)) ==> value_wf(v@),
{
    let (o, p) = if nullable {
        parse_nullable_string(b, pos)?
    } else {
        let (t, q) = parse_string(b, pos)?;
        (Some(t), q)
    };
    let v: HdbValue = if code == type_id::CHAR {
        HdbValue::CHAR(o)
    } else if code == type_id::VARCHAR {
        HdbValue::VARCHAR(o)
    } else if code == type_id::NCHAR {
        HdbValue::NCHAR(o)
    } else if code == type_id::NVARCHAR {
        HdbValue::NVARCHAR(o)
    } else if code == type_id::STRING {
        HdbValue::STRING(o)
    } else if code == type_id::NSTRING {
        HdbValue::NSTRING(o)
    } else if code == type_id::TEXT {
        HdbValue::TEXT(o)
    } else {
        HdbValue::SHORTTEXT(o)
    };
    Ok((v, p))
}

/// Reads a byte string of any of the binary types.
#[verifier::rlimit(40)]
fn parse_bin(code: u8, nullable: bool, b: &[u8], pos: usize) -> (r: Result<
    (HdbValue, usize),
    HdbError,
>)
    requires
        shape_of(code) == Some(Shape::Binary),
    ensures
        agrees_view(r, value_at(code, nullable, b@, pos as int)),
        r matches Ok((v, _)) ==> value_wf(v@),
{
    let (o, p) = if nullable {
        parse_nullable_binary(b, pos)?
    } else {
        let (t, q) = parse_binary(b, pos)?;
        (Some(t), q)
    };
    let v: HdbValue = if code == type_id::BINARY {
        HdbValue::BINARY(o)
    } else if code == type_id::VARBINARY {
        HdbValue::VARBINARY(o)
    } else {
        HdbValue::BSTRING(o)
    };
    Ok((v, p))
}

/// Reads a decimal.
#[verifier::rlimit(40)]
fn parse_number(code: u8, nullable: bool, b: &[u8], pos: usize) -> (r: Result<
    (HdbValue, usize),
    HdbError,
>)
    requires
        code == type_id::DECIMAL || code == type_id::SMALLDECIMAL,
    ensures
        agrees_view(r, value_at(code, nullable, b@, pos as int)),
        r matches Ok((v, _)) ==> value_wf(v@),
{
    let (o, p) = parse_decimal(b, pos, nullable)?;
    if code == type_id::DECIMAL {
        Ok((HdbValue::DECIMAL(o), p))
    } else {
        Ok((HdbValue::SMALLDECIMAL(o), p))
    }
}

/// Reads a large object.
#[verifier::rlimit(40)]
fn parse_large(code: u8, nullable: bool, b: &[u8], pos: usize) -> (r: Result<
    (HdbValue, usize),
    HdbError,
>)
    requires
        code == type_id::CLOB || code == type_id::NCLOB || code == type_id::BLOB,
    ensures
        agrees_view(r, value_at(code, nullable, b@, pos as int)),
        r matches Ok((v, _)) ==> value_wf(v@),
{
    if code == type_id::CLOB {
        let (o, p) = parse_lob(b, pos, nullable, true)?;
        Ok((HdbValue::CLOB(o), p))
    } else if code == type_id::NCLOB {
        let (o, p) = parse_lob(b, pos, nullable, true)?;
        Ok((HdbValue::NCLOB(o), p))
    } else {
        let (o, p) = parse_lob(b, pos, nullable, false)?;
        Ok((HdbValue::BLOB(o), p))
    }
}

/// Reads a timestamp or a date.
#[verifier::rlimit(40)]
fn parse_date(code: u8, nullable: bool, b: &[u8], pos: usize) -> (r: Result<
    (HdbValue, usize),
    HdbError,
>)
    requires
        code == type_id::LONGDATE || code == type_id::SECONDDATE || code == type_id::DAYDATE,
    ensures
        agrees_view(r, value_at(code, nullable, b@, pos as int)),
        r matches Ok((v, _)) ==> value_wf(v@),
{
    if code == type_id::LONGDATE {
        let (o, p) = parse_longdate(b, pos, nullable)?;
        Ok((HdbValue::LONGDATE(o), p))
    } else if code == type_id::SECONDDATE {
        let (o, p) = parse_seconddate(b, pos, nullable)?;
        Ok((HdbValue::SECONDDATE(o), p))
    } else {
        let (o, p) = parse_daydate(b, pos, nullable)?;
        Ok((HdbValue::DAYDATE(o), p))
    }
}

/// Reads a time of day.
#[verifier::rlimit(40)]
fn parse_time(nullable: bool, b: &[u8], pos: usize) -> (r: Result<(HdbValue, usize), HdbError>)
    ensures
        agrees_view(r, value_at(type_id::SECONDTIME, nullable, b@, pos as int)),
        r matches Ok((v, _)) ==> value_wf(v@),
{
    if nullable {
        let (o, p) = parse_nullable_secondtime(b, pos)?;
        Ok((HdbValue::SECONDTIME(o), p))
    } else {
        let (t, p) = parse_secondtime(b, pos)?;
        Ok((HdbValue::SECONDTIME(Some(t)), p))
    }
}

/// Reads the value of a column from a reply. The type code and whether the
/// column may be NULL come from the metadata of the column.
#[verifier::rlimit(40)]
pub fn parse_from_reply(p_typecode: u8, nullable: bool, b: &[u8], pos: usize) -> (r: Result<
    (HdbValue, usize),
    HdbError,
>)
    ensures
        agrees_view(r, value_at(p_typecode, nullable, b@, pos as int)),
        r matches Ok((v, _)) ==> value_wf(v@),
        r matches Ok((_, p)) ==> pos <= p <= b@.len(),
{
    match shape(p_typecode) {
        None => Err(HdbError::Impl(ImplError::UnsupportedTypeCode(p_typecode))),
        Some(sh) => match sh {
            Shape::U8 | Shape::I16 | Shape::I32 | Shape::I64 | Shape::Boolean => parse_plain(
                p_typecode,
                nullable,
                b,
                pos,
            ),
            Shape::Real | Shape::Double => parse_float(p_typecode, nullable, b, pos),
            Shape::FixedText | Shape::Text => parse_text(p_typecode, nullable, b, pos),
            Shape::Binary => parse_bin(p_typecode, nullable, b, pos),
            Shape::Decimal => parse_number(p_typecode, nullable, b, pos),
            Shape::CharLob | Shape::ByteLob => parse_large(p_typecode, nullable, b, pos),
            Shape::LongDate | Shape::SecondDate | Shape::DayDate => parse_date(
                p_typecode,
                nullable,
                b,
                pos,
            ),
            Shape::SecondTime => parse_time(nullable, b, pos),
        },
    }
}

} // verus!
