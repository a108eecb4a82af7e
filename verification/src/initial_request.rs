//! The first exchange on a new connection: the client names the versions of
//! product and protocol it speaks, and the server names the ones it has
//! chosen. Only after that do messages flow.

use crate::error::HdbError;
use crate::wire::{get_i16, get_i8, get_skip, skip_bytes, take_i16, take_i8};
use vstd::prelude::*;

verus! {

/// Number of bytes of the initial request.
pub const INITIAL_REQUEST_SIZE: usize = 14;

/// Number of bytes of the reply to the initial request.
pub const INITIAL_REPLY_SIZE: usize = 8;

/// The bytes of the initial request: four bytes of filler, product version
/// 4.20, protocol version 4.1, an unused byte, and one option, which asks for
/// little-endian numbers.
pub open spec fn initial_request() -> Seq<u8> {
    seq![0xffu8, 0xff, 0xff, 0xff, 4, 0, 20, 4, 0, 1, 0, 1, 1, 1]
}

/// The versions that the server has chosen.
#[derive(Clone, Copy, Debug, PartialEq, Eq, Structural)]
pub struct ServerVersions {
    pub product_major: i8,
    pub product_minor: i16,
    pub protocol_major: i8,
    pub protocol_minor: i16,
}

/// What the bytes at `pos` say of the reply to the initial request: the
/// versions of product and protocol, and two unused bytes.
pub open spec fn initial_reply_at(s: Seq<u8>, pos: int) -> Result<(ServerVersions, int), HdbError> {
    match get_i8(s, pos) {
        Err(e) => Err(e),
        Ok((product_major, p1)) => match get_i16(s, p1) {
            Err(e) => Err(e),
            Ok((product_minor, p2)) => match get_i8(s, p2) {
                Err(e) => Err(e),
                Ok((protocol_major, p3)) => match get_i16(s, p3) {
                    Err(e) => Err(e),
                    Ok((protocol_minor, p4)) => match get_skip(s, p4, 2) {
                        Err(e) => Err(e),
                        Ok(p5) => Ok(
                            (
                                ServerVersions {
                                    product_major,
                                    product_minor,
                                    protocol_major,
                                    protocol_minor,
                                },
                                p5,
                            ),
                        ),
                    },
                },
            },
        },
    }
}

/// Appends the initial request.
pub fn emit_initial_request(w: &mut Vec<u8>)
    ensures
        final(w)@ == old(w)@ + initial_request(),
        initial_request().len() == INITIAL_REQUEST_SIZE,
{
    let bytes: [u8; 14] = [0xff, 0xff, 0xff, 0xff, 4, 0, 20, 4, 0, 1, 0, 1, 1, 1];
    let mut i: usize = 0;
    while i < 14
        invariant
            i <= 14,
            bytes@ == initial_request(),
            w@ == old(w)@ + initial_request().take(i as int),
        decreases 14 - i,
    {
        w.push(bytes[i]);
        i = i + 1;
        assert(w@ =~= old(w)@ + initial_request().take(i as int));
    }
    assert(initial_request().take(14) =~= initial_request());
}

/// Reads the reply to the initial request.
pub fn parse_initial_reply(b: &[u8], pos: usize) -> (r: Result<(ServerVersions, usize), HdbError>)
    ensures
        crate::wire::agrees(r, initial_reply_at(b@, pos as int)),
{
    let (product_major, p1) = take_i8(b, pos)?;
    let (product_minor, p2) = take_i16(b, p1)?;
    let (protocol_major, p3) = take_i8(b, p2)?;
    let (protocol_minor, p4) = take_i16(b, p3)?;
    let p5: usize = skip_bytes(b, p4, 2)?;
    Ok((ServerVersions { product_major, product_minor, protocol_major, protocol_minor }, p5))
}

} // verus!
