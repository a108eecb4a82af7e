//! Wire primitives: little-endian integers, runs of bytes, and padding to
//! eight bytes. Reading never goes past the end of the buffer: what is not
//! there is reported as truncation.

use crate::error::{truncated, HdbError, ProtocolError};
use byteorder::{ByteOrder, LittleEndian, WriteBytesExt};
use vstd::prelude::*;
use vstd::slice::{slice_subrange, slice_to_vec};

verus! {

/// Number of zero bytes that follow a payload of `n` bytes.
pub open spec fn pad_len(n: nat) -> nat {
    if n == 0 {
        0
    } else {
        (7 - (n - 1) % 8) as nat
    }
}

/// A payload of `n` bytes together with its padding.
pub open spec fn padded_len(n: nat) -> nat {
    n + pad_len(n)
}

/// Every padded length is a multiple of eight, and padding is shorter than
/// eight bytes.
pub proof fn lemma_padding(n: nat)
    ensures
        (n + pad_len(n)) % 8 == 0,
        pad_len(n) < 8,
        padded_len(n) % 8 == 0,
{
}

/// Padding that brings `size` up to the next multiple of eight.
pub fn padsize(size: usize) -> (r: usize)
    ensures
        r == pad_len(size as nat),
        r < 8,
{
    if size == 0 {
        0
    } else {
        7 - (size - 1) % 8
    }
}

/// Two's-complement bytes of `v`, least significant first, two bytes.
#[verifier::opaque]
pub open spec fn le16(v: int) -> Seq<u8> {
    seq![(v % 0x100) as u8, (v / 0x100 % 0x100) as u8]
}

/// Two's-complement bytes of `v`, least significant first, four bytes.
#[verifier::opaque]
pub open spec fn le32(v: int) -> Seq<u8> {
    seq![
        (v % 0x100) as u8,
        (v / 0x100 % 0x100) as u8,
        (v / 0x100 / 0x100 % 0x100) as u8,
        (v / 0x100 / 0x100 / 0x100 % 0x100) as u8,
    ]
}

/// What is left of `v` above its lowest four bytes.
pub open spec fn above32(v: int) -> int {
    v / 0x100 / 0x100 / 0x100 / 0x100
}

/// Two's-complement bytes of `v`, least significant first, eight bytes.
pub open spec fn le64(v: int) -> Seq<u8> {
    le32(v) + le32(above32(v))
}

/// Unsigned value of the two bytes at `p`.
pub open spec fn u16_at(s: Seq<u8>, p: int) -> int {
    s[p] as int + 0x100 * (s[p + 1] as int)
}

/// Unsigned value of the four bytes at `p`.
pub open spec fn u32_at(s: Seq<u8>, p: int) -> int {
    s[p] as int + 0x100 * (s[p + 1] as int) + 0x1_0000 * (s[p + 2] as int) + 0x100_0000 * (s[p
        + 3] as int)
}

/// Unsigned value of the eight bytes at `p`.
pub open spec fn u64_at(s: Seq<u8>, p: int) -> int {
    u32_at(s, p) + 0x1_0000_0000 * u32_at(s, p + 4)
}

/// Reading of an unsigned value below `2 * half` as two's complement.
pub open spec fn signed(u: int, half: int) -> int {
    if u >= half {
        u - 2 * half
    } else {
        u
    }
}

/// Value of the two bytes at `p`, read as two's complement.
pub open spec fn i16_at(s: Seq<u8>, p: int) -> int {
    signed(u16_at(s, p), 0x8000)
}

/// Value of the four bytes at `p`, read as two's complement.
pub open spec fn i32_at(s: Seq<u8>, p: int) -> int {
    signed(u32_at(s, p), 0x8000_0000)
}

/// Value of the eight bytes at `p`, read as two's complement.
pub open spec fn i64_at(s: Seq<u8>, p: int) -> int {
    signed(u64_at(s, p), 0x8000_0000_0000_0000)
}

/// Four bytes taken off a number one after the other make up its value
/// modulo 2^32, and what is left is the number divided by 2^32.
pub proof fn lemma_split32(v: int)
    ensures
        v % 0x1_0000_0000 == v % 0x100 + 0x100 * (v / 0x100 % 0x100) + 0x1_0000 * (v / 0x100
            / 0x100 % 0x100) + 0x100_0000 * (v / 0x100 / 0x100 / 0x100 % 0x100),
        above32(v) == v / 0x1_0000_0000,
{
    let q1 = v / 0x100;
    let q2 = q1 / 0x100;
    let q3 = q2 / 0x100;
    let q4 = q3 / 0x100;
    assert(v == 0x100 * q1 + v % 0x100);
    assert(q1 == 0x100 * q2 + q1 % 0x100);
    assert(q2 == 0x100 * q3 + q2 % 0x100);
    assert(q3 == 0x100 * q4 + q3 % 0x100);
    let r = v % 0x100 + 0x100 * (q1 % 0x100) + 0x1_0000 * (q2 % 0x100) + 0x100_0000 * (q3
        % 0x100);
    assert(v == r + 0x1_0000_0000 * q4);
    assert(0 <= r < 0x1_0000_0000);
}

/// The lower and the upper half of a number modulo 2^64.
pub proof fn lemma_halves64(v: int, x: int, y: int)
    requires
        x == v % 0x1_0000_0000,
        y == (v / 0x1_0000_0000) % 0x1_0000_0000,
    ensures
        x + 0x1_0000_0000 * y == v % 0x1_0000_0000_0000_0000,
{
    let q = v / 0x1_0000_0000;
    let z = q / 0x1_0000_0000;
    assert(v == 0x1_0000_0000 * q + x);
    assert(q == 0x1_0000_0000 * z + y);
    assert(v == 0x1_0000_0000_0000_0000 * z + (x + 0x1_0000_0000 * y));
    assert(0 <= x + 0x1_0000_0000 * y < 0x1_0000_0000_0000_0000);
}

/// The two bytes `le16(v)` hold `v` modulo 2^16.
pub proof fn lemma_le16_value(a: Seq<u8>, v: int, b: Seq<u8>)
    ensures
        (a + le16(v) + b).len() == a.len() + 2 + b.len(),
        le16(v).len() == 2,
        u16_at(a + le16(v) + b, a.len() as int) == v % 0x1_0000,
{
    reveal(le16);
    let s = a + le16(v) + b;
    let p = a.len() as int;
    assert(s[p] == le16(v)[0]);
    assert(s[p + 1] == le16(v)[1]);
    let q1 = v / 0x100;
    let q2 = q1 / 0x100;
    assert(v == 0x100 * q1 + v % 0x100);
    assert(q1 == 0x100 * q2 + q1 % 0x100);
    let r = v % 0x100 + 0x100 * (q1 % 0x100);
    assert(v == r + 0x1_0000 * q2);
    assert(0 <= r < 0x1_0000);
}

/// The four bytes `le32(v)` hold `v` modulo 2^32.
pub proof fn lemma_le32_value(a: Seq<u8>, v: int, b: Seq<u8>)
    ensures
        (a + le32(v) + b).len() == a.len() + 4 + b.len(),
        le32(v).len() == 4,
        u32_at(a + le32(v) + b, a.len() as int) == v % 0x1_0000_0000,
{
    reveal(le32);
    let s = a + le32(v) + b;
    let p = a.len() as int;
    assert(s[p] == le32(v)[0]);
    assert(s[p + 1] == le32(v)[1]);
    assert(s[p + 2] == le32(v)[2]);
    assert(s[p + 3] == le32(v)[3]);
    lemma_split32(v);
}

/// The eight bytes `le64(v)` hold `v` modulo 2^64.
pub proof fn lemma_le64_value(a: Seq<u8>, v: int, b: Seq<u8>)
    ensures
        (a + le64(v) + b).len() == a.len() + 8 + b.len(),
        le64(v).len() == 8,
        u64_at(a + le64(v) + b, a.len() as int) == v % 0x1_0000_0000_0000_0000,
{
    let lo = le32(v);
    let hi = le32(above32(v));
    let s = a + (lo + hi) + b;
    lemma_le_len(v);
    lemma_le_len(above32(v));
    lemma_concat4(a, lo, hi, b);
    lemma_le32_value(a, v, hi + b);
    lemma_le32_value(a + lo, above32(v), b);
    let x = u32_at(s, a.len() as int);
    let y = u32_at(s, (a.len() + 4) as int);
    assert(x == v % 0x1_0000_0000);
    assert(y == above32(v) % 0x1_0000_0000);
    assert(above32(v) == v / 0x1_0000_0000) by {
        lemma_split32(v);
    }
    lemma_halves64(v, x, y);
}

/// Lengths of the byte forms.
pub proof fn lemma_le_len(v: int)
    ensures
        le16(v).len() == 2,
        le32(v).len() == 4,
        le64(v).len() == 8,
{
    reveal(le16);
    reveal(le32);
}

/// What is appended to a buffer in two steps is appended to it as one.
pub proof fn lemma_append(a: Seq<u8>, x: Seq<u8>, y: Seq<u8>)
    ensures
        (a + x) + y == a + (x + y),
{
    assert((a + x) + y =~= a + (x + y));
}

/// Two pieces written one after the other lie side by side in the buffer.
pub proof fn lemma_concat4(a: Seq<u8>, x: Seq<u8>, y: Seq<u8>, b: Seq<u8>)
    ensures
        a + (x + y) + b == a + x + (y + b),
        a + (x + y) + b == (a + x) + y + b,
        (a + x).len() == a.len() + x.len(),
{
    assert(a + (x + y) + b =~= a + x + (y + b));
    assert(a + (x + y) + b =~= (a + x) + y + b);
}

/// `byteorder::ByteOrder::read_i16` for `LittleEndian`, on the bytes from
/// `pos`: the two bytes there, least significant first, as two's complement.
#[verifier::external_body]
pub(crate) fn read_i16(b: &[u8], pos: usize) -> (r: i16)
    requires
        pos + 2 <= b@.len(),
    ensures
        r == i16_at(b@, pos as int),
{
    LittleEndian::read_i16(&b[pos..])
}

/// `byteorder::ByteOrder::read_i32` for `LittleEndian`, on the bytes from
/// `pos`: the four bytes there, least significant first, as two's complement.
#[verifier::external_body]
pub(crate) fn read_i32(b: &[u8], pos: usize) -> (r: i32)
    requires
        pos + 4 <= b@.len(),
    ensures
        r == i32_at(b@, pos as int),
{
    LittleEndian::read_i32(&b[pos..])
}

/// `byteorder::ByteOrder::read_u32` for `LittleEndian`, on the bytes from
/// `pos`: the unsigned value of the four bytes there, least significant first.
#[verifier::external_body]
pub(crate) fn read_u32(b: &[u8], pos: usize) -> (r: u32)
    requires
        pos + 4 <= b@.len(),
    ensures
        r == u32_at(b@, pos as int),
{
    LittleEndian::read_u32(&b[pos..])
}

/// `byteorder::ByteOrder::read_i64` for `LittleEndian`, on the bytes from
/// `pos`: the eight bytes there, least significant first, as two's complement.
#[verifier::external_body]
pub(crate) fn read_i64(b: &[u8], pos: usize) -> (r: i64)
    requires
        pos + 8 <= b@.len(),
    ensures
        r == i64_at(b@, pos as int),
{
    LittleEndian::read_i64(&b[pos..])
}

/// `byteorder::ByteOrder::read_u64` for `LittleEndian`, on the bytes from
/// `pos`: the unsigned value of the eight bytes there, least significant first.
#[verifier::external_body]
pub(crate) fn read_u64(b: &[u8], pos: usize) -> (r: u64)
    requires
        pos + 8 <= b@.len(),
    ensures
        r == u64_at(b@, pos as int),
{
    LittleEndian::read_u64(&b[pos..])
}

/// `byteorder::WriteBytesExt::write_i16` for `LittleEndian` on a `Vec<u8>`:
/// appends the two bytes of `v`, least significant first. Writing to a `Vec`
/// cannot fail.
#[verifier::external_body]
pub(crate) fn write_i16(w: &mut Vec<u8>, v: i16)
    ensures
        final(w)@ == old(w)@ + le16(v as int),
{
    let _ = w.write_i16::<LittleEndian>(v);
}

/// `byteorder::WriteBytesExt::write_i32` for `LittleEndian` on a `Vec<u8>`:
/// appends the four bytes of `v`, least significant first.
#[verifier::external_body]
pub(crate) fn write_i32(w: &mut Vec<u8>, v: i32)
    ensures
        final(w)@ == old(w)@ + le32(v as int),
{
    let _ = w.write_i32::<LittleEndian>(v);
}

/// `byteorder::WriteBytesExt::write_u32` for `LittleEndian` on a `Vec<u8>`:
/// appends the four bytes of `v`, least significant first.
#[verifier::external_body]
pub(crate) fn write_u32(w: &mut Vec<u8>, v: u32)
    ensures
        final(w)@ == old(w)@ + le32(v as int),
{
    let _ = w.write_u32::<LittleEndian>(v);
}

/// `byteorder::WriteBytesExt::write_i64` for `LittleEndian` on a `Vec<u8>`:
/// appends the eight bytes of `v`, least significant first.
#[verifier::external_body]
pub(crate) fn write_i64(w: &mut Vec<u8>, v: i64)
    ensures
        final(w)@ == old(w)@ + le64(v as int),
{
    let _ = w.write_i64::<LittleEndian>(v);
}

/// `byteorder::WriteBytesExt::write_u64` for `LittleEndian` on a `Vec<u8>`:
/// appends the eight bytes of `v`, least significant first.
#[verifier::external_body]
pub(crate) fn write_u64(w: &mut Vec<u8>, v: u64)
    ensures
        final(w)@ == old(w)@ + le64(v as int),
{
    let _ = w.write_u64::<LittleEndian>(v);
}

/// `n` zero bytes.
pub open spec fn zeros(n: nat) -> Seq<u8> {
    Seq::new(n, |i: int| 0u8)
}

/// The single byte of `v` in two's complement.
pub open spec fn le8(v: int) -> Seq<u8> {
    seq![(v % 0x100) as u8]
}

/// The byte at `p` read as two's complement.
pub open spec fn i8_at(s: Seq<u8>, p: int) -> int {
    signed(s[p] as int, 0x80)
}

/// `n` bytes can be read at `pos`.
pub open spec fn has(s: Seq<u8>, pos: int, n: int) -> bool {
    0 <= pos && 0 <= n && pos + n <= s.len()
}

/// An executable parse result says what the model says: the same value and
/// position, or the same error.
pub open spec fn agrees<T>(r: Result<(T, usize), HdbError>, m: Result<(T, int), HdbError>) -> bool {
    match (r, m) {
        (Ok((v, p)), Ok((w, q))) => v == w && p == q,
        (Err(e), Err(f)) => e == f,
        _ => false,
    }
}

/// As `agrees`, for a value that is compared by its view.
pub open spec fn agrees_view<T: View>(
    r: Result<(T, usize), HdbError>,
    m: Result<(T::V, int), HdbError>,
) -> bool {
    match (r, m) {
        (Ok((v, p)), Ok((w, q))) => v@ == w && p == q,
        (Err(e), Err(f)) => e == f,
        _ => false,
    }
}

/// The byte at `pos` and the position behind it, if the buffer holds
/// one byte there.
pub open spec fn get_u8(s: Seq<u8>, pos: int) -> Result<(u8, int), HdbError> {
    if has(s, pos, 1) {
        Ok((s[pos], pos + 1))
    } else {
        Err(truncated())
    }
}

/// The signed byte at `pos` and the position behind it, if the buffer holds
/// one byte there.
pub open spec fn get_i8(s: Seq<u8>, pos: int) -> Result<(i8, int), HdbError> {
    if has(s, pos, 1) {
        Ok((i8_at(s, pos) as i8, pos + 1))
    } else {
        Err(truncated())
    }
}

/// The signed sixteen-bit number at `pos` and the position behind it, if the buffer holds
/// two bytes there.
pub open spec fn get_i16(s: Seq<u8>, pos: int) -> Result<(i16, int), HdbError> {
    if has(s, pos, 2) {
        Ok((i16_at(s, pos) as i16, pos + 2))
    } else {
        Err(truncated())
    }
}

/// The signed 32-bit number at `pos` and the position behind it, if the buffer holds
/// four bytes there.
pub open spec fn get_i32(s: Seq<u8>, pos: int) -> Result<(i32, int), HdbError> {
    if has(s, pos, 4) {
        Ok((i32_at(s, pos) as i32, pos + 4))
    } else {
        Err(truncated())
    }
}

/// The unsigned 32-bit number at `pos` and the position behind it, if the buffer holds
/// four bytes there.
pub open spec fn get_u32(s: Seq<u8>, pos: int) -> Result<(u32, int), HdbError> {
    if has(s, pos, 4) {
        Ok((u32_at(s, pos) as u32, pos + 4))
    } else {
        Err(truncated())
    }
}

/// The signed 64-bit number at `pos` and the position behind it, if the buffer holds
/// eight bytes there.
pub open spec fn get_i64(s: Seq<u8>, pos: int) -> Result<(i64, int), HdbError> {
    if has(s, pos, 8) {
        Ok((i64_at(s, pos) as i64, pos + 8))
    } else {
        Err(truncated())
    }
}

/// The unsigned 64-bit number at `pos` and the position behind it, if the buffer holds
/// eight bytes there.
pub open spec fn get_u64(s: Seq<u8>, pos: int) -> Result<(u64, int), HdbError> {
    if has(s, pos, 8) {
        Ok((u64_at(s, pos) as u64, pos + 8))
    } else {
        Err(truncated())
    }
}

/// The `n` bytes at `pos`.
pub open spec fn get_bytes(s: Seq<u8>, pos: int, n: int) -> Result<(Seq<u8>, int), HdbError> {
    if has(s, pos, n) {
        Ok((s.subrange(pos, pos + n), pos + n))
    } else {
        Err(truncated())
    }
}

/// The position behind `n` bytes that are passed over unread.
pub open spec fn get_skip(s: Seq<u8>, pos: int, n: int) -> Result<int, HdbError> {
    if has(s, pos, n) {
        Ok(pos + n)
    } else {
        Err(truncated())
    }
}

/// Whether `n` bytes can be read at `pos`.
pub fn available(b: &[u8], pos: usize, n: usize) -> (r: bool)
    ensures
        r == has(b@, pos as int, n as int),
        r ==> pos + n <= usize::MAX,
{
    pos <= b.len() && b.len() - pos >= n
}

/// Reads the byte at `pos`.
pub fn take_u8(b: &[u8], pos: usize) -> (r: Result<(u8, usize), HdbError>)
    ensures
        agrees(r, get_u8(b@, pos as int)),
{
    if available(b, pos, 1) {
        Ok((b[pos], pos + 1))
    } else {
        Err(HdbError::Protocol(ProtocolError::Truncated))
    }
}

/// Reads the signed byte at `pos`.
pub fn take_i8(b: &[u8], pos: usize) -> (r: Result<(i8, usize), HdbError>)
    ensures
        agrees(r, get_i8(b@, pos as int)),
{
    if available(b, pos, 1) {
        let x: u8 = b[pos];
        let v: i8 = x as i8;
        assert(v as int == signed(x as int, 0x80)) by (bit_vector)
            requires
                v == x as i8,
        ;
        Ok((v, pos + 1))
    } else {
        Err(HdbError::Protocol(ProtocolError::Truncated))
    }
}

/// Reads the signed sixteen-bit number at `pos`.
pub fn take_i16(b: &[u8], pos: usize) -> (r: Result<(i16, usize), HdbError>)
    ensures
        agrees(r, get_i16(b@, pos as int)),
{
    if available(b, pos, 2) {
        Ok((read_i16(b, pos), pos + 2))
    } else {
        Err(HdbError::Protocol(ProtocolError::Truncated))
    }
}

/// Reads the signed 32-bit number at `pos`.
pub fn take_i32(b: &[u8], pos: usize) -> (r: Result<(i32, usize), HdbError>)
    ensures
        agrees(r, get_i32(b@, pos as int)),
{
    if available(b, pos, 4) {
        Ok((read_i32(b, pos), pos + 4))
    } else {
        Err(HdbError::Protocol(ProtocolError::Truncated))
    }
}

/// Reads the unsigned 32-bit number at `pos`.
pub fn take_u32(b: &[u8], pos: usize) -> (r: Result<(u32, usize), HdbError>)
    ensures
        agrees(r, get_u32(b@, pos as int)),
{
    if available(b, pos, 4) {
        Ok((read_u32(b, pos), pos + 4))
    } else {
        Err(HdbError::Protocol(ProtocolError::Truncated))
    }
}

/// Reads the signed 64-bit number at `pos`.
pub fn take_i64(b: &[u8], pos: usize) -> (r: Result<(i64, usize), HdbError>)
    ensures
        agrees(r, get_i64(b@, pos as int)),
{
    if available(b, pos, 8) {
        Ok((read_i64(b, pos), pos + 8))
    } else {
        Err(HdbError::Protocol(ProtocolError::Truncated))
    }
}

/// Reads the unsigned 64-bit number at `pos`.
pub fn take_u64(b: &[u8], pos: usize) -> (r: Result<(u64, usize), HdbError>)
    ensures
        agrees(r, get_u64(b@, pos as int)),
{
    if available(b, pos, 8) {
        Ok((read_u64(b, pos), pos + 8))
    } else {
        Err(HdbError::Protocol(ProtocolError::Truncated))
    }
}

/// Copies the `n` bytes at `pos` out of the buffer.
pub fn parse_bytes(b: &[u8], pos: usize, n: usize) -> (r: Result<(Vec<u8>, usize), HdbError>)
    ensures
        agrees_view(r, get_bytes(b@, pos as int, n as int)),
{
    if available(b, pos, n) {
        let part: &[u8] = slice_subrange(b, pos, pos + n);
        Ok((slice_to_vec(part), pos + n))
    } else {
        Err(HdbError::Protocol(ProtocolError::Truncated))
    }
}

/// Passes over `n` bytes.
pub fn skip_bytes(b: &[u8], pos: usize, n: usize) -> (r: Result<usize, HdbError>)
    ensures
        match r {
            Ok(p) => get_skip(b@, pos as int, n as int) == Ok::<int, HdbError>(p as int),
            Err(e) => get_skip(b@, pos as int, n as int) == Err::<int, HdbError>(e),
        },
{
    if available(b, pos, n) {
        Ok(pos + n)
    } else {
        Err(HdbError::Protocol(ProtocolError::Truncated))
    }
}

/// Appends one byte.
pub fn write_u8(w: &mut Vec<u8>, v: u8)
    ensures
        final(w)@ == old(w)@ + seq![v],
{
    w.push(v);
    assert(w@ =~= old(w)@ + seq![v]);
}

/// Appends one byte, two's complement.
pub fn write_i8(w: &mut Vec<u8>, v: i8)
    ensures
        final(w)@ == old(w)@ + le8(v as int),
{
    let x: u8 = v as u8;
    assert(x as int == (if v < 0 {
        v + 0x100
    } else {
        v as int
    })) by (bit_vector)
        requires
            x == v as u8,
    ;
    w.push(x);
    assert(w@ =~= old(w)@ + le8(v as int));
}

/// Appends the bytes of `v`.
pub fn serialize_bytes(v: &[u8], w: &mut Vec<u8>)
    ensures
        final(w)@ == old(w)@ + v@,
{
    w.extend_from_slice(v);
}

/// Appends `n` zero bytes.
pub fn emit_zeros(n: usize, w: &mut Vec<u8>)
    ensures
        final(w)@ == old(w)@ + zeros(n as nat),
{
    let mut i: usize = 0;
    while i < n
        invariant
            i <= n,
            w@ == old(w)@ + zeros(i as nat),
        decreases n - i,
    {
        w.push(0u8);
        i = i + 1;
        assert(w@ =~= old(w)@ + zeros(i as nat));
    }
}

/// A signed sixteen-bit number that was written is read back.
pub proof fn lemma_i16_reads_back(a: Seq<u8>, v: i16, b: Seq<u8>)
    ensures
        get_i16(a + le16(v as int) + b, a.len() as int) == Ok::<_, HdbError>(
            (v, (a.len() + 2) as int),
        ),
{
    lemma_le16_value(a, v as int, b);
}

/// A signed 32-bit number that was written is read back.
pub proof fn lemma_i32_reads_back(a: Seq<u8>, v: i32, b: Seq<u8>)
    ensures
        get_i32(a + le32(v as int) + b, a.len() as int) == Ok::<_, HdbError>(
            (v, (a.len() + 4) as int),
        ),
{
    lemma_le32_value(a, v as int, b);
}

/// An unsigned 32-bit number that was written is read back.
pub proof fn lemma_u32_reads_back(a: Seq<u8>, v: u32, b: Seq<u8>)
    ensures
        get_u32(a + le32(v as int) + b, a.len() as int) == Ok::<_, HdbError>(
            (v, (a.len() + 4) as int),
        ),
{
    lemma_le32_value(a, v as int, b);
}

/// A signed 64-bit number that was written is read back.
pub proof fn lemma_i64_reads_back(a: Seq<u8>, v: i64, b: Seq<u8>)
    ensures
        get_i64(a + le64(v as int) + b, a.len() as int) == Ok::<_, HdbError>(
            (v, (a.len() + 8) as int),
        ),
{
    lemma_le64_value(a, v as int, b);
}

/// An unsigned 64-bit number that was written is read back.
pub proof fn lemma_u64_reads_back(a: Seq<u8>, v: u64, b: Seq<u8>)
    ensures
        get_u64(a + le64(v as int) + b, a.len() as int) == Ok::<_, HdbError>(
            (v, (a.len() + 8) as int),
        ),
{
    lemma_le64_value(a, v as int, b);
}

} // verus!
