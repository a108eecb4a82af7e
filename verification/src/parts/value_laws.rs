//! What holds of values that are sent and then read.
//!
//! A value is sent as its type code and its payload. In a reply the type is
//! known from the metadata, and the payload stands alone, or behind a null
//! indicator. The payload itself has the same form in both directions, for
//! all types but large objects.

use crate::error::HdbError;
use crate::parts::hdb_value::{
    emit_failure, payload_at, payload_wire, value_at, value_size, value_wf, value_wire, Payload,
    ValueView,
};
use crate::parts::length::lemma_framed_reads_back;
use crate::parts::read_lob_reply::LOB_IS_NULL;
use crate::parts::type_id::{shape_of, Shape};
use crate::text::{cesu8_encoding, decoded_text};
use crate::types::dates::{LONGDATE_NULL, SECONDDATE_NULL};
use crate::types::decimal::lemma_decimal_reads_back;
use crate::wire::{
    le32, le64, lemma_concat4, lemma_i16_reads_back, lemma_i32_reads_back, lemma_i64_reads_back,
    lemma_le_len, lemma_u32_reads_back, lemma_u64_reads_back,
};
use vstd::prelude::*;

verus! {

/// What comes back of a payload that was sent: itself, but for a text, which
/// comes back as the decoding of its own encoding.
pub open spec fn reread(d: Payload) -> Result<Payload, HdbError> {
    match d {
        Payload::Text(t) => match decoded_text(cesu8_encoding(t)) {
            Ok(u) => Ok(Payload::Text(u)),
            Err(e) => Err(e),
        },
        _ => Ok(d),
    }
}

/// Shapes whose payload has the same form when sent and when received.
pub open spec fn same_form(sh: Shape) -> bool {
    sh != Shape::FixedText && sh != Shape::CharLob && sh != Shape::ByteLob
}

/// Shapes that are read behind a null indicator.
pub open spec fn behind_indicator(sh: Shape) -> bool {
    sh == Shape::U8 || sh == Shape::I16 || sh == Shape::I32 || sh == Shape::I64 || sh
        == Shape::Boolean
}

/// Where reading starts in what was sent: at the type code where that can
/// stand in for the null indicator, and behind it otherwise.
pub open spec fn read_offset(sh: Shape) -> int {
    if behind_indicator(sh) {
        0
    } else {
        1
    }
}

/// The bytes that stand for NULL in a reply.
pub open spec fn null_pattern(sh: Shape) -> Seq<u8> {
    match sh {
        Shape::U8 | Shape::I16 | Shape::I32 | Shape::I64 | Shape::Boolean => seq![0u8],
        Shape::Real => le32(u32::MAX as int),
        Shape::Double => le64(u64::MAX as int),
        Shape::Decimal => le64(u64::MAX as int) + le64(u64::MAX as int),
        Shape::FixedText | Shape::Text | Shape::Binary => seq![255u8],
        Shape::CharLob | Shape::ByteLob => seq![0u8, LOB_IS_NULL],
        Shape::LongDate => le64(LONGDATE_NULL as int),
        Shape::SecondDate => le64(SECONDDATE_NULL as int),
        Shape::DayDate => le32(0),
        Shape::SecondTime => le32(86_402),
    }
}

/// A type code and a payload, written between `a` and `b`.
proof fn lemma_coded(a: Seq<u8>, code: u8, pay: Seq<u8>, b: Seq<u8>)
    ensures
        a + (seq![code] + pay) + b == (a + seq![code]) + pay + b,
        (a + (seq![code] + pay) + b)[a.len() as int] == code,
        (a + seq![code]).len() == (a.len() + 1) as int,
        (a + (seq![code] + pay) + b).len() == a.len() + 1 + pay.len() + b.len(),
{
    lemma_concat4(a, seq![code], pay, b);
}

/// Integers and booleans come back.
proof fn lemma_plain_reads_back(
    v: ValueView,
    sh: Shape,
    d: Payload,
    nullable: bool,
    a: Seq<u8>,
    b: Seq<u8>,
)
    requires
        value_wf(v),
        shape_of(v.code) == Some(sh),
        v.data == Some(d),
        sh == Shape::U8 || sh == Shape::I16 || sh == Shape::I32 || sh == Shape::I64 || sh
            == Shape::Boolean,
    ensures
        payload_at(
            sh,
            nullable,
            a + (seq![v.code] + payload_wire(sh, d, 0)) + b,
            a.len() + read_offset(sh),
        ) == Ok::<_, HdbError>((Some(d), a.len() + value_size(v))),
{
    let pay = payload_wire(sh, d, 0);
    let s = a + (seq![v.code] + pay) + b;
    let a1 = a + seq![v.code];
    lemma_coded(a, v.code, pay, b);
    match d {
        Payload::Int(x) => {
            lemma_le_len(x);
            if sh == Shape::U8 {
                assert(s[(a.len() + 1) as int] == x as u8);
            } else if sh == Shape::I16 {
                lemma_i16_reads_back(a1, x as i16, b);
            } else if sh == Shape::I32 {
                lemma_i32_reads_back(a1, x as i32, b);
            } else {
                lemma_i64_reads_back(a1, x as i64, b);
            }
        },
        Payload::Bool(t) => {
            assert(s[(a.len() + 1) as int] == pay[0]);
        },
        _ => {},
    }
}

/// Floating-point bits, dates and times come back.
proof fn lemma_raw_reads_back(
    v: ValueView,
    sh: Shape,
    x: int,
    nullable: bool,
    a: Seq<u8>,
    b: Seq<u8>,
)
    requires
        value_wf(v),
        shape_of(v.code) == Some(sh),
        v.data == Some(Payload::Int(x)),
        sh == Shape::Real || sh == Shape::Double || sh == Shape::LongDate || sh
            == Shape::SecondDate || sh == Shape::DayDate || sh == Shape::SecondTime,
    ensures
        payload_at(
            sh,
            nullable,
            a + (seq![v.code] + payload_wire(sh, Payload::Int(x), 0)) + b,
            (a.len() + 1) as int,
        ) == Ok::<_, HdbError>((Some(Payload::Int(x)), a.len() + value_size(v))),
{
    let pay = payload_wire(sh, Payload::Int(x), 0);
    let a1 = a + seq![v.code];
    lemma_coded(a, v.code, pay, b);
    lemma_le_len(x);
    if sh == Shape::Real {
        lemma_u32_reads_back(a1, x as u32, b);
    } else if sh == Shape::Double {
        lemma_u64_reads_back(a1, x as u64, b);
    } else if sh == Shape::DayDate || sh == Shape::SecondTime {
        lemma_i32_reads_back(a1, x as i32, b);
    } else {
        lemma_i64_reads_back(a1, x as i64, b);
    }
}

/// Decimals come back.
proof fn lemma_decimal_value_reads_back(
    v: ValueView,
    d: Payload,
    nullable: bool,
    a: Seq<u8>,
    b: Seq<u8>,
)
    requires
        value_wf(v),
        shape_of(v.code) == Some(Shape::Decimal),
        v.data == Some(d),
    ensures
        payload_at(
            Shape::Decimal,
            nullable,
            a + (seq![v.code] + payload_wire(Shape::Decimal, d, 0)) + b,
            (a.len() + 1) as int,
        ) == Ok::<_, HdbError>((Some(d), a.len() + value_size(v))),
{
    let pay = payload_wire(Shape::Decimal, d, 0);
    let a1 = a + seq![v.code];
    lemma_coded(a, v.code, pay, b);
    match d {
        Payload::Decimal(p) => {
            lemma_decimal_reads_back(a1, p.negative, p.mantissa, p.exponent, nullable, b);
        },
        _ => {},
    }
}

/// A text comes back as the decoding of its encoding.
#[verifier::rlimit(40)]
proof fn lemma_text_reads_back(
    v: ValueView,
    t: Seq<char>,
    nullable: bool,
    a: Seq<u8>,
    b: Seq<u8>,
)
    requires
        value_wf(v),
        shape_of(v.code) == Some(Shape::Text),
        v.data == Some(Payload::Text(t)),
        emit_failure(v) is None,
    ensures
        payload_at(
            Shape::Text,
            nullable,
            a + (seq![v.code] + payload_wire(Shape::Text, Payload::Text(t), 0)) + b,
            (a.len() + 1) as int,
        )
            == (match reread(Payload::Text(t)) {
            Ok(u) => Ok::<_, HdbError>((Some(u), a.len() + value_size(v))),
            Err(e) => Err(e),
        }),
{
    let pay = payload_wire(Shape::Text, Payload::Text(t), 0);
    lemma_coded(a, v.code, pay, b);
    lemma_framed_reads_back(a + seq![v.code], cesu8_encoding(t), nullable, b);
}

/// A byte string comes back.
#[verifier::rlimit(40)]
proof fn lemma_bytes_read_back(v: ValueView, x: Seq<u8>, nullable: bool, a: Seq<u8>, b: Seq<u8>)
    requires
        value_wf(v),
        shape_of(v.code) == Some(Shape::Binary),
        v.data == Some(Payload::Bytes(x)),
        emit_failure(v) is None,
    ensures
        payload_at(
            Shape::Binary,
            nullable,
            a + (seq![v.code] + payload_wire(Shape::Binary, Payload::Bytes(x), 0)) + b,
            (a.len() + 1) as int,
        )
            == (match reread(Payload::Bytes(x)) {
            Ok(u) => Ok::<_, HdbError>((Some(u), a.len() + value_size(v))),
            Err(e) => Err(e),
        }),
{
    let pay = payload_wire(Shape::Binary, Payload::Bytes(x), 0);
    lemma_coded(a, v.code, pay, b);
    lemma_framed_reads_back(a + seq![v.code], x, nullable, b);
}

/// A value that was sent comes back when it is read as a value of its type:
/// from the type code on where the code can stand in for the null indicator,
/// from behind the code otherwise. A text comes back as the decoding of its
/// encoding. Large objects and the text types that are only ever received
/// are left out: they are not sent in the form in which they arrive.
pub proof fn lemma_value_reads_back(
    v: ValueView,
    nullable: bool,
    data_pos: int,
    a: Seq<u8>,
    b: Seq<u8>,
)
    requires
        value_wf(v),
        v.data is Some,
        same_form(shape_of(v.code).unwrap()),
        emit_failure(v) is None,
    ensures
        value_at(
            v.code,
            nullable,
            a + value_wire(v, data_pos) + b,
            a.len() + read_offset(shape_of(v.code).unwrap()),
        ) == (match reread(v.data.unwrap()) {
            Ok(u) => Ok::<_, HdbError>(
                (ValueView { code: v.code, data: Some(u) }, a.len() + value_size(v)),
            ),
            Err(e) => Err(e),
        }),
{
    let sh = shape_of(v.code).unwrap();
    let d = v.data.unwrap();
    assert(value_wire(v, data_pos) == seq![v.code] + payload_wire(sh, d, 0));
    match sh {
        Shape::U8 | Shape::I16 | Shape::I32 | Shape::I64 | Shape::Boolean => {
            lemma_plain_reads_back(v, sh, d, nullable, a, b);
        },
        Shape::Decimal => {
            lemma_decimal_value_reads_back(v, d, nullable, a, b);
        },
        Shape::Text => {
            match d {
                Payload::Text(t) => {
                    lemma_text_reads_back(v, t, nullable, a, b);
                },
                _ => {},
            }
        },
        Shape::Binary => {
            match d {
                Payload::Bytes(x) => {
                    lemma_bytes_read_back(v, x, nullable, a, b);
                },
                _ => {},
            }
        },
        _ => {
            match d {
                Payload::Int(x) => {
                    lemma_raw_reads_back(v, sh, x, nullable, a, b);
                },
                _ => {},
            }
        },
    }
}

/// In a column that may be NULL, the bytes that stand for NULL are read as
/// NULL, whatever the type.
pub proof fn lemma_null_reads_as_null(code: u8, a: Seq<u8>, b: Seq<u8>)
    requires
        shape_of(code) is Some,
    ensures
        value_at(code, true, a + null_pattern(shape_of(code).unwrap()) + b, a.len() as int)
            == Ok::<_, HdbError>(
            (
                ValueView { code, data: None },
                (a.len() + null_pattern(shape_of(code).unwrap()).len()) as int,
            ),
        ),
{
    let sh = shape_of(code).unwrap();
    let pat = null_pattern(sh);
    let s = a + pat + b;
    let p0 = a.len() as int;
    match sh {
        Shape::U8 | Shape::I16 | Shape::I32 | Shape::I64 | Shape::Boolean => {
            assert(s[p0] == 0u8);
        },
        Shape::Real => {
            lemma_le_len(u32::MAX as int);
            lemma_u32_reads_back(a, u32::MAX, b);
        },
        Shape::Double => {
            lemma_le_len(u64::MAX as int);
            lemma_u64_reads_back(a, u64::MAX, b);
        },
        Shape::Decimal => {
            let m = le64(u64::MAX as int);
            lemma_le_len(u64::MAX as int);
            lemma_concat4(a, m, m, b);
            lemma_u64_reads_back(a, u64::MAX, m + b);
            lemma_u64_reads_back(a + m, u64::MAX, b);
        },
        Shape::FixedText | Shape::Text | Shape::Binary => {
            assert(s[p0] == 255u8);
        },
        Shape::CharLob | Shape::ByteLob => {
            assert(s[p0] == 0u8);
            assert(s[p0 + 1] == LOB_IS_NULL);
            assert(LOB_IS_NULL & LOB_IS_NULL != 0) by (bit_vector);
        },
        Shape::LongDate => {
            lemma_le_len(LONGDATE_NULL as int);
            lemma_i64_reads_back(a, LONGDATE_NULL, b);
        },
        Shape::SecondDate => {
            lemma_le_len(SECONDDATE_NULL as int);
            lemma_i64_reads_back(a, SECONDDATE_NULL, b);
        },
        Shape::DayDate => {
            lemma_le_len(0);
            lemma_i32_reads_back(a, 0i32, b);
        },
        Shape::SecondTime => {
            lemma_le_len(86_402);
            lemma_i32_reads_back(a, 86_402i32, b);
        },
    }
}

} // verus!
