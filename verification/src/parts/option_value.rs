//! The values of options: a type tag, then the value.

use crate::error::{HdbError, ImplError, ProtocolError};
use crate::text::{cesu8_encoding, cesu8_to_string, decoded_text, to_cesu8};
use crate::wire::{
    agrees_view, get_bytes, get_i16, get_i32, get_i64, get_u64, get_u8, le16, le32, le64,
    lemma_le_len, parse_bytes, serialize_bytes, take_i16, take_i32, take_i64, take_u64, take_u8,
    write_i16, write_i32, write_i64, write_u64, write_u8,
};
use vstd::prelude::*;

verus! {

/// Tag of a 32-bit number.
pub const TAG_INT: u8 = 3;

/// Tag of a 64-bit number.
pub const TAG_BIGINT: u8 = 4;

/// Tag of a double-precision number.
pub const TAG_DOUBLE: u8 = 7;

/// Tag of a truth value.
pub const TAG_BOOLEAN: u8 = 28;

/// Tag of a text.
pub const TAG_STRING: u8 = 29;

/// Tag of a byte string.
pub const TAG_BSTRING: u8 = 33;

/// The longest string an option can hold.
pub const MAX_OPTION_LENGTH: usize = 32767;

/// The value of an option. `DOUBLE` holds the IEEE 754 bit pattern.
#[allow(non_camel_case_types)]
#[derive(Clone, Debug, PartialEq, Eq)]
pub enum OptionValue {
    INT(i32),
    BIGINT(i64),
    DOUBLE(u64),
    BOOLEAN(bool),
    STRING(String),
    BSTRING(Vec<u8>),
}

/// The value of an option as the model sees it.
pub enum OptionData {
    Int(i32),
    BigInt(i64),
    Double(u64),
    Boolean(bool),
    Text(Seq<char>),
    Bytes(Seq<u8>),
}

impl View for OptionValue {
    type V = OptionData;

    open spec fn view(&self) -> OptionData {
        match self {
            OptionValue::INT(i) => OptionData::Int(*i),
            OptionValue::BIGINT(i) => OptionData::BigInt(*i),
            OptionValue::DOUBLE(f) => OptionData::Double(*f),
            OptionValue::BOOLEAN(b) => OptionData::Boolean(*b),
            OptionValue::STRING(s) => OptionData::Text(s@),
            OptionValue::BSTRING(v) => OptionData::Bytes(v@),
        }
    }
}

/// The bytes of an option value: its type tag, and the value; a string has
/// its length in two bytes before it.
pub open spec fn option_wire(v: OptionData) -> Seq<u8> {
    match v {
        OptionData::Int(i) => seq![TAG_INT] + le32(i as int),
        OptionData::BigInt(i) => seq![TAG_BIGINT] + le64(i as int),
        OptionData::Double(f) => seq![TAG_DOUBLE] + le64(f as int),
        OptionData::Boolean(b) => seq![
            TAG_BOOLEAN,
            if b {
                1u8
            } else {
                0u8
            },
        ],
        OptionData::Text(t) => seq![TAG_STRING] + le16(cesu8_encoding(t).len() as int)
            + cesu8_encoding(t),
        OptionData::Bytes(b) => seq![TAG_BSTRING] + le16(b.len() as int) + b,
    }
}

/// Number of bytes of an option value.
pub open spec fn option_size(v: OptionData) -> int {
    match v {
        OptionData::Int(_) => 5,
        OptionData::BigInt(_) => 9,
        OptionData::Double(_) => 9,
        OptionData::Boolean(_) => 2,
        OptionData::Text(t) => 3 + cesu8_encoding(t).len() as int,
        OptionData::Bytes(b) => 3 + b.len() as int,
    }
}

/// A string of an option must fit a two-byte length.
pub open spec fn option_fits(v: OptionData) -> bool {
    match v {
        OptionData::Text(t) => cesu8_encoding(t).len() <= MAX_OPTION_LENGTH,
        OptionData::Bytes(b) => b.len() <= MAX_OPTION_LENGTH,
        _ => true,
    }
}

/// An option value has the size that `option_size` says.
pub proof fn lemma_option_size(v: OptionData)
    ensures
        option_wire(v).len() == option_size(v),
{
    match v {
        OptionData::Int(i) => lemma_le_len(i as int),
        OptionData::BigInt(i) => lemma_le_len(i as int),
        OptionData::Double(f) => lemma_le_len(f as int),
        OptionData::Boolean(_) => {},
        OptionData::Text(t) => lemma_le_len(cesu8_encoding(t).len() as int),
        OptionData::Bytes(b) => lemma_le_len(b.len() as int),
    }
}

/// A string with a two-byte length at `pos`.
pub open spec fn short_bytes_at(s: Seq<u8>, pos: int) -> Result<(Seq<u8>, int), HdbError> {
    match get_i16(s, pos) {
        Err(e) => Err(e),
        Ok((n, p)) => if n < 0 {
            Err(HdbError::Protocol(ProtocolError::NegativeLength))
        } else {
            get_bytes(s, p, n as int)
        },
    }
}

/// What the bytes at `pos` say of an option value.
pub open spec fn option_value_at(s: Seq<u8>, pos: int) -> Result<(OptionData, int), HdbError> {
    match get_u8(s, pos) {
        Err(e) => Err(e),
        Ok((tag, p)) => if tag == TAG_INT {
            match get_i32(s, p) {
                Err(e) => Err(e),
                Ok((i, q)) => Ok((OptionData::Int(i), q)),
            }
        } else if tag == TAG_BIGINT {
            match get_i64(s, p) {
                Err(e) => Err(e),
                Ok((i, q)) => Ok((OptionData::BigInt(i), q)),
            }
        } else if tag == TAG_DOUBLE {
            match get_u64(s, p) {
                Err(e) => Err(e),
                Ok((f, q)) => Ok((OptionData::Double(f), q)),
            }
        } else if tag == TAG_BOOLEAN {
            match get_u8(s, p) {
                Err(e) => Err(e),
                Ok((b, q)) => Ok((OptionData::Boolean(b > 0), q)),
            }
        } else if tag == TAG_STRING {
            match short_bytes_at(s, p) {
                Err(e) => Err(e),
                Ok((d, q)) => match decoded_text(d) {
                    Err(e) => Err(e),
                    Ok(t) => Ok((OptionData::Text(t), q)),
                },
            }
        } else if tag == TAG_BSTRING {
            match short_bytes_at(s, p) {
                Err(e) => Err(e),
                Ok((d, q)) => Ok((OptionData::Bytes(d), q)),
            }
        } else {
            Err(HdbError::Protocol(ProtocolError::UnknownOptionType(tag)))
        },
    }
}

/// Appends a type tag and a string behind its two-byte length.
fn emit_short(tag: u8, v: &[u8], w: &mut Vec<u8>) -> (r: Result<(), HdbError>)
    ensures
        match r {
            Ok(()) => v@.len() <= MAX_OPTION_LENGTH && final(w)@ == old(w)@ + (seq![tag] + le16(
                v@.len() as int,
            ) + v@),
            Err(e) => v@.len() > MAX_OPTION_LENGTH && e == HdbError::Impl(ImplError::TooLarge)
                && final(w)@ == old(w)@,
        },
{
    if v.len() > MAX_OPTION_LENGTH {
        return Err(HdbError::Impl(ImplError::TooLarge));
    }
    write_u8(w, tag);
    write_i16(w, v.len() as i16);
    serialize_bytes(v, w);
    assert(w@ =~= old(w)@ + (seq![tag] + le16(v@.len() as int) + v@));
    Ok(())
}

/// Reads a string behind its two-byte length.
fn parse_short(b: &[u8], pos: usize) -> (r: Result<(Vec<u8>, usize), HdbError>)
    ensures
        agrees_view(r, short_bytes_at(b@, pos as int)),
{
    let (n, p) = take_i16(b, pos)?;
    if n < 0 {
        return Err(HdbError::Protocol(ProtocolError::NegativeLength));
    }
    parse_bytes(b, p, n as usize)
}

impl OptionValue {
    /// Appends the value; a string too long for its length field is refused
    /// and nothing is written.
    pub fn emit(&self, w: &mut Vec<u8>) -> (r: Result<(), HdbError>)
        ensures
            match r {
                Ok(()) => option_fits(self@) && final(w)@ == old(w)@ + option_wire(self@),
                Err(e) => !option_fits(self@) && e == HdbError::Impl(ImplError::TooLarge)
                    && final(w)@ == old(w)@,
            },
    {
        match self {
            OptionValue::INT(i) => {
                write_u8(w, TAG_INT);
                write_i32(w, *i);
                assert(w@ =~= old(w)@ + option_wire(self@));
                Ok(())
            },
            OptionValue::BIGINT(i) => {
                write_u8(w, TAG_BIGINT);
                write_i64(w, *i);
                assert(w@ =~= old(w)@ + option_wire(self@));
                Ok(())
            },
            OptionValue::DOUBLE(f) => {
                write_u8(w, TAG_DOUBLE);
                write_u64(w, *f);
                assert(w@ =~= old(w)@ + option_wire(self@));
                Ok(())
            },
            OptionValue::BOOLEAN(b) => {
                write_u8(w, TAG_BOOLEAN);
                write_u8(
                    w,
                    if *b {
                        1
                    } else {
                        0
                    },
                );
                assert(w@ =~= old(w)@ + option_wire(self@));
                Ok(())
            },
            OptionValue::STRING(s) => {
                let v: Vec<u8> = to_cesu8(s.as_str());
                emit_short(TAG_STRING, v.as_slice(), w)
            },
            OptionValue::BSTRING(v) => emit_short(TAG_BSTRING, v.as_slice(), w),
        }
    }

    /// Number of bytes that `emit` writes.
    pub fn size(&self) -> (r: Result<usize, HdbError>)
        ensures
            match r {
                Ok(n) => option_fits(self@) && n == option_size(self@),
                Err(e) => !option_fits(self@) && e == HdbError::Impl(ImplError::TooLarge),
            },
    {
        match self {
            OptionValue::INT(_) => Ok(5),
            OptionValue::BIGINT(_) => Ok(9),
            OptionValue::DOUBLE(_) => Ok(9),
            OptionValue::BOOLEAN(_) => Ok(2),
            OptionValue::STRING(s) => {
                let v: Vec<u8> = to_cesu8(s.as_str());
                if v.len() > MAX_OPTION_LENGTH {
                    Err(HdbError::Impl(ImplError::TooLarge))
                } else {
                    Ok(3 + v.len())
                }
            },
            OptionValue::BSTRING(v) => {
                if v.len() > MAX_OPTION_LENGTH {
                    Err(HdbError::Impl(ImplError::TooLarge))
                } else {
                    Ok(3 + v.len())
                }
            },
        }
    }

    /// Reads a value.
    pub fn parse(b: &[u8], pos: usize) -> (r: Result<(OptionValue, usize), HdbError>)
        ensures
            agrees_view(r, option_value_at(b@, pos as int)),
    {
        let (tag, p) = take_u8(b, pos)?;
        if tag == TAG_INT {
            let (i, q) = take_i32(b, p)?;
            Ok((OptionValue::INT(i), q))
        } else if tag == TAG_BIGINT {
            let (i, q) = take_i64(b, p)?;
            Ok((OptionValue::BIGINT(i), q))
        } else if tag == TAG_DOUBLE {
            let (f, q) = take_u64(b, p)?;
            Ok((OptionValue::DOUBLE(f), q))
        } else if tag == TAG_BOOLEAN {
            let (x, q) = take_u8(b, p)?;
            Ok((OptionValue::BOOLEAN(x > 0), q))
        } else if tag == TAG_STRING {
            let (d, q) = parse_short(b, p)?;
            let t: String = cesu8_to_string(d.as_slice())?;
            Ok((OptionValue::STRING(t), q))
        } else if tag == TAG_BSTRING {
            let (d, q) = parse_short(b, p)?;
            Ok((OptionValue::BSTRING(d), q))
        } else {
            Err(HdbError::Protocol(ProtocolError::UnknownOptionType(tag)))
        }
    }
}

} // verus!
