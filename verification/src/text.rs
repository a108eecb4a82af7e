//! Text on the wire is CESU-8; in memory it is a Rust string. The conversion
//! itself is the `cesu8` crate's.

use crate::error::{HdbError, ImplError};
use vstd::prelude::*;

verus! {

/// The error of `cesu8::from_cesu8`. Nothing is known of what it holds.
#[verifier::external_type_specification]
#[verifier::external_body]
pub struct ExCesu8DecodingError(cesu8::Cesu8DecodingError);

/// The bytes that `cesu8::to_cesu8` gives for a text.
pub uninterp spec fn cesu8_encoding(text: Seq<char>) -> Seq<u8>;

/// The text that `cesu8::from_cesu8` gives for bytes, if it accepts them.
pub uninterp spec fn cesu8_decoding(bytes: Seq<u8>) -> Option<Seq<char>>;

/// `cesu8::to_cesu8`, as an owned vector. The result depends on the text
/// alone; nothing more is claimed of it.
#[verifier::external_body]
pub(crate) fn to_cesu8(s: &str) -> (r: Vec<u8>)
    ensures
        r@ == cesu8_encoding(s@),
{
    cesu8::to_cesu8(s).into_owned()
}

/// `cesu8::from_cesu8`, as an owned string. Whether the bytes are accepted,
/// and the text they give, depend on the bytes alone.
#[verifier::external_body]
pub(crate) fn from_cesu8(bytes: &[u8]) -> (r: Result<String, cesu8::Cesu8DecodingError>)
    ensures
        match r {
            Ok(t) => cesu8_decoding(bytes@) == Some(t@),
            Err(_) => cesu8_decoding(bytes@) is None,
        },
{
    match cesu8::from_cesu8(bytes) {
        Ok(t) => Ok(t.into_owned()),
        Err(e) => Err(e),
    }
}

/// What decoding a byte string as text gives.
pub open spec fn decoded_text(bytes: Seq<u8>) -> Result<Seq<char>, HdbError> {
    match cesu8_decoding(bytes) {
        Some(t) => Ok(t),
        None => Err(HdbError::Impl(ImplError::InvalidCesu8)),
    }
}

/// Length in bytes of the CESU-8 form of `s`.
pub fn cesu8_length(s: &str) -> (r: usize)
    ensures
        r == cesu8_encoding(s@).len(),
{
    let v: Vec<u8> = to_cesu8(s);
    v.len()
}

/// The CESU-8 form of `s`.
pub fn string_to_cesu8(s: &str) -> (r: Vec<u8>)
    ensures
        r@ == cesu8_encoding(s@),
{
    to_cesu8(s)
}

/// The text that CESU-8 `bytes` stand for.
pub fn cesu8_to_string(bytes: &[u8]) -> (r: Result<String, HdbError>)
    ensures
        match r {
            Ok(t) => decoded_text(bytes@) == Ok::<Seq<char>, HdbError>(t@),
            Err(e) => decoded_text(bytes@) == Err::<Seq<char>, HdbError>(e),
        },
{
    match from_cesu8(bytes) {
        Ok(t) => Ok(t),
        Err(_) => Err(HdbError::Impl(ImplError::InvalidCesu8)),
    }
}

} // verus!
