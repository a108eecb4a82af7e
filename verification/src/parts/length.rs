//! Byte strings and text behind a length indicator: one byte for lengths up
//! to 245; 246 and a two-byte length; 247 and a four-byte length; 255 alone
//! for NULL.

use crate::error::{HdbError, ImplError, ProtocolError};
use crate::text::{cesu8_encoding, cesu8_to_string, decoded_text, to_cesu8};
use crate::wire::{
    get_bytes, get_i16, get_i32, get_u8, le16, le32, lemma_concat4, lemma_i16_reads_back,
    lemma_i32_reads_back, lemma_le_len, parse_bytes, serialize_bytes, take_i16, take_i32, take_u8,
    write_i16, write_i32, write_u8,
};
use vstd::prelude::*;

verus! {

/// The longest length that is its own indicator.
pub const MAX_1_BYTE_LENGTH: u8 = 245;

/// The longest length that follows its indicator in two bytes.
pub const MAX_2_BYTE_LENGTH: i16 = 32767;

/// Indicator of a length in the two bytes that follow.
pub const LENGTH_INDICATOR_2BYTE: u8 = 246;

/// Indicator of a length in the four bytes that follow.
pub const LENGTH_INDICATOR_4BYTE: u8 = 247;

/// Indicator of NULL.
pub const LENGTH_INDICATOR_NULL: u8 = 255;

/// The longest byte string that a length indicator can announce.
pub const MAX_LENGTH: usize = 0x7fff_ffff;

/// The indicator for a length.
pub open spec fn length_prefix(n: int) -> Seq<u8> {
    if n <= 245 {
        seq![n as u8]
    } else if n <= 32767 {
        seq![246u8] + le16(n)
    } else {
        seq![247u8] + le32(n)
    }
}

/// A byte string behind its length indicator.
pub open spec fn framed(bytes: Seq<u8>) -> Seq<u8> {
    length_prefix(bytes.len() as int) + bytes
}

/// Number of bytes that a string of `n` bytes takes with its indicator.
pub open spec fn framed_len(n: int) -> int {
    if n <= 245 {
        n + 1
    } else if n <= 32767 {
        n + 3
    } else {
        n + 5
    }
}

/// What the indicator at `pos` announces: a length, or NULL where that is
/// allowed.
pub open spec fn length_at(s: Seq<u8>, pos: int, nullable: bool) -> Result<
    (Option<int>, int),
    HdbError,
> {
    match get_u8(s, pos) {
        Err(e) => Err(e),
        Ok((l, p)) => if l <= 245 {
            Ok((Some(l as int), p))
        } else if l == 246 {
            match get_i16(s, p) {
                Err(e) => Err(e),
                Ok((n, q)) => if n < 0 {
                    Err(HdbError::Protocol(ProtocolError::NegativeLength))
                } else {
                    Ok((Some(n as int), q))
                },
            }
        } else if l == 247 {
            match get_i32(s, p) {
                Err(e) => Err(e),
                Ok((n, q)) => if n < 0 {
                    Err(HdbError::Protocol(ProtocolError::NegativeLength))
                } else {
                    Ok((Some(n as int), q))
                },
            }
        } else if l == 255 && nullable {
            Ok((None, p))
        } else {
            Err(HdbError::Impl(ImplError::InvalidLengthIndicator(l)))
        },
    }
}

/// The byte string at `pos`, or NULL where that is allowed.
pub open spec fn framed_at(s: Seq<u8>, pos: int, nullable: bool) -> Result<
    (Option<Seq<u8>>, int),
    HdbError,
> {
    match length_at(s, pos, nullable) {
        Err(e) => Err(e),
        Ok((None, p)) => Ok((None, p)),
        Ok((Some(n), p)) => match get_bytes(s, p, n) {
            Err(e) => Err(e),
            Ok((d, q)) => Ok((Some(d), q)),
        },
    }
}

/// The text at `pos`, or NULL where that is allowed.
pub open spec fn text_at(s: Seq<u8>, pos: int, nullable: bool) -> Result<
    (Option<Seq<char>>, int),
    HdbError,
> {
    match framed_at(s, pos, nullable) {
        Err(e) => Err(e),
        Ok((None, p)) => Ok((None, p)),
        Ok((Some(d), p)) => match decoded_text(d) {
            Err(e) => Err(e),
            Ok(t) => Ok((Some(t), p)),
        },
    }
}

/// Appends the indicator for a string of `l` bytes; a length above 2^31 - 1
/// has none.
pub fn serialize_length(l: usize, w: &mut Vec<u8>) -> (r: Result<(), HdbError>)
    ensures
        match r {
            Ok(()) => l <= MAX_LENGTH && final(w)@ == old(w)@ + length_prefix(l as int),
            Err(e) => l > MAX_LENGTH && e == HdbError::Impl(ImplError::TooLarge) && final(w)@
                == old(w)@,
        },
{
    if l <= MAX_1_BYTE_LENGTH as usize {
        write_u8(w, l as u8);
        Ok(())
    } else if l <= MAX_2_BYTE_LENGTH as usize {
        write_u8(w, LENGTH_INDICATOR_2BYTE);
        write_i16(w, l as i16);
        assert(w@ =~= old(w)@ + length_prefix(l as int));
        Ok(())
    } else if l <= MAX_LENGTH {
        write_u8(w, LENGTH_INDICATOR_4BYTE);
        write_i32(w, l as i32);
        assert(w@ =~= old(w)@ + length_prefix(l as int));
        Ok(())
    } else {
        Err(HdbError::Impl(ImplError::TooLarge))
    }
}

/// Appends a byte string behind its length indicator.
pub fn serialize_length_and_bytes(v: &[u8], w: &mut Vec<u8>) -> (r: Result<(), HdbError>)
    ensures
        match r {
            Ok(()) => v@.len() <= MAX_LENGTH && final(w)@ == old(w)@ + framed(v@),
            Err(e) => v@.len() > MAX_LENGTH && e == HdbError::Impl(ImplError::TooLarge) && final(w)@
                == old(w)@,
        },
{
    serialize_length(v.len(), w)?;
    serialize_bytes(v, w);
    assert(w@ =~= old(w)@ + framed(v@));
    Ok(())
}

/// Appends a text, in CESU-8, behind its length indicator.
pub fn serialize_length_and_string(s: &str, w: &mut Vec<u8>) -> (r: Result<(), HdbError>)
    ensures
        match r {
            Ok(()) => cesu8_encoding(s@).len() <= MAX_LENGTH && final(w)@ == old(w)@ + framed(
                cesu8_encoding(s@),
            ),
            Err(e) => cesu8_encoding(s@).len() > MAX_LENGTH && e == HdbError::Impl(
                ImplError::TooLarge,
            ) && final(w)@ == old(w)@,
        },
{
    let v: Vec<u8> = to_cesu8(s);
    serialize_length_and_bytes(v.as_slice(), w)
}

/// Number of bytes that a string of `n` bytes takes with its indicator.
pub fn binary_length(n: usize) -> (r: Result<usize, HdbError>)
    ensures
        match r {
            Ok(l) => n <= MAX_LENGTH && l == framed_len(n as int),
            Err(e) => n > MAX_LENGTH && e == HdbError::Impl(ImplError::TooLarge),
        },
{
    if n <= MAX_1_BYTE_LENGTH as usize {
        Ok(1 + n)
    } else if n <= MAX_2_BYTE_LENGTH as usize {
        Ok(3 + n)
    } else if n <= MAX_LENGTH {
        Ok(5 + n)
    } else {
        Err(HdbError::Impl(ImplError::TooLarge))
    }
}

/// Number of bytes that a text takes on the wire, with its indicator.
pub fn string_length(s: &str) -> (r: Result<usize, HdbError>)
    ensures
        match r {
            Ok(l) => cesu8_encoding(s@).len() <= MAX_LENGTH && l == framed_len(
                cesu8_encoding(s@).len() as int,
            ),
            Err(e) => cesu8_encoding(s@).len() > MAX_LENGTH && e == HdbError::Impl(
                ImplError::TooLarge,
            ),
        },
{
    let v: Vec<u8> = to_cesu8(s);
    binary_length(v.len())
}

/// The indicator and the bytes have the length that `framed_len` says.
pub proof fn lemma_framed_len(d: Seq<u8>)
    ensures
        framed(d).len() == framed_len(d.len() as int),
{
    lemma_le_len(d.len() as int);
}

/// Reads a length indicator.
pub fn parse_length(b: &[u8], pos: usize, nullable: bool) -> (r: Result<
    (Option<usize>, usize),
    HdbError,
>)
    ensures
        match r {
            Ok((o, p)) => length_at(b@, pos as int, nullable) == Ok::<_, HdbError>(
                (
                    match o {
                        Some(n) => Some(n as int),
                        None => None,
                    },
                    p as int,
                ),
            ),
            Err(e) => length_at(b@, pos as int, nullable) == Err::<(Option<int>, int), _>(e),
        },
{
    let (l8, p) = take_u8(b, pos)?;
    if l8 <= MAX_1_BYTE_LENGTH {
        Ok((Some(l8 as usize), p))
    } else if l8 == LENGTH_INDICATOR_2BYTE {
        let (n, q) = take_i16(b, p)?;
        if n < 0 {
            Err(HdbError::Protocol(ProtocolError::NegativeLength))
        } else {
            Ok((Some(n as usize), q))
        }
    } else if l8 == LENGTH_INDICATOR_4BYTE {
        let (n, q) = take_i32(b, p)?;
        if n < 0 {
            Err(HdbError::Protocol(ProtocolError::NegativeLength))
        } else {
            Ok((Some(n as usize), q))
        }
    } else if l8 == LENGTH_INDICATOR_NULL && nullable {
        Ok((None, p))
    } else {
        Err(HdbError::Impl(ImplError::InvalidLengthIndicator(l8)))
    }
}

/// View of a byte string that may be absent.
pub open spec fn bytes_view(o: Option<Vec<u8>>) -> Option<Seq<u8>> {
    match o {
        Some(v) => Some(v@),
        None => None,
    }
}

/// View of a text that may be absent.
pub open spec fn text_view(o: Option<String>) -> Option<Seq<char>> {
    match o {
        Some(v) => Some(v@),
        None => None,
    }
}

/// Reads a byte string that may be NULL.
pub fn parse_nullable_binary(b: &[u8], pos: usize) -> (r: Result<
    (Option<Vec<u8>>, usize),
    HdbError,
>)
    ensures
        match r {
            Ok((o, p)) => framed_at(b@, pos as int, true) == Ok::<_, HdbError>(
                (bytes_view(o), p as int),
            ),
            Err(e) => framed_at(b@, pos as int, true) == Err::<(Option<Seq<u8>>, int), _>(e),
        },
{
    let (o, p) = parse_length(b, pos, true)?;
    match o {
        None => Ok((None, p)),
        Some(n) => {
            let (d, q) = parse_bytes(b, p, n)?;
            Ok((Some(d), q))
        },
    }
}

/// Reads a byte string that cannot be NULL.
pub fn parse_binary(b: &[u8], pos: usize) -> (r: Result<(Vec<u8>, usize), HdbError>)
    ensures
        match r {
            Ok((v, p)) => framed_at(b@, pos as int, false) == Ok::<_, HdbError>(
                (Some(v@), p as int),
            ),
            Err(e) => framed_at(b@, pos as int, false) == Err::<(Option<Seq<u8>>, int), _>(e),
        },
{
    let (o, p) = parse_length(b, pos, false)?;
    match o {
        None => {
            proof {
                assert(false);
            }
            Err(HdbError::Impl(ImplError::InvalidLengthIndicator(LENGTH_INDICATOR_NULL)))
        },
        Some(n) => {
            let (d, q) = parse_bytes(b, p, n)?;
            Ok((d, q))
        },
    }
}

/// Reads a text that may be NULL.
pub fn parse_nullable_string(b: &[u8], pos: usize) -> (r: Result<
    (Option<String>, usize),
    HdbError,
>)
    ensures
        match r {
            Ok((o, p)) => text_at(b@, pos as int, true) == Ok::<_, HdbError>(
                (text_view(o), p as int),
            ),
            Err(e) => text_at(b@, pos as int, true) == Err::<(Option<Seq<char>>, int), _>(e),
        },
{
    let (o, p) = parse_nullable_binary(b, pos)?;
    match o {
        None => Ok((None, p)),
        Some(v) => {
            let t: String = cesu8_to_string(v.as_slice())?;
            Ok((Some(t), p))
        },
    }
}

/// Reads a text that cannot be NULL.
pub fn parse_string(b: &[u8], pos: usize) -> (r: Result<(String, usize), HdbError>)
    ensures
        match r {
            Ok((t, p)) => text_at(b@, pos as int, false) == Ok::<_, HdbError>(
                (Some(t@), p as int),
            ),
            Err(e) => text_at(b@, pos as int, false) == Err::<(Option<Seq<char>>, int), _>(e),
        },
{
    let (v, p) = parse_binary(b, pos)?;
    let t: String = cesu8_to_string(v.as_slice())?;
    Ok((t, p))
}

/// A byte string that was written behind its indicator is read back.
#[verifier::rlimit(40)]
pub proof fn lemma_framed_reads_back(a: Seq<u8>, d: Seq<u8>, nullable: bool, b: Seq<u8>)
    requires
        d.len() <= MAX_LENGTH,
    ensures
        framed_at(a + framed(d) + b, a.len() as int, nullable) == Ok::<_, HdbError>(
            (Some(d), a.len() + framed_len(d.len() as int)),
        ),
        (a + framed(d) + b).len() == a.len() + framed_len(d.len() as int) + b.len(),
{
    let s = a + framed(d) + b;
    let n = d.len() as int;
    let p0 = a.len() as int;
    let pre = length_prefix(n);
    lemma_le_len(n);
    lemma_concat4(a, pre, d, b);
    assert(s[p0] == pre[0]);
    if n <= 245 {
        assert(length_at(s, p0, nullable) == Ok::<_, HdbError>((Some(n), p0 + 1)));
    } else if n <= 32767 {
        let a1 = a + seq![246u8];
        lemma_concat4(a, seq![246u8], le16(n), d + b);
        assert(s == a1 + le16(n) + (d + b));
        lemma_i16_reads_back(a1, n as i16, d + b);
        assert(length_at(s, p0, nullable) == Ok::<_, HdbError>((Some(n), p0 + 3)));
    } else {
        let a1 = a + seq![247u8];
        lemma_concat4(a, seq![247u8], le32(n), d + b);
        assert(s == a1 + le32(n) + (d + b));
        lemma_i32_reads_back(a1, n as i32, d + b);
        assert(length_at(s, p0, nullable) == Ok::<_, HdbError>((Some(n), p0 + 5)));
    }
    let p = p0 + pre.len();
    assert(s.subrange(p, p + n) =~= d);
}

} // verus!
