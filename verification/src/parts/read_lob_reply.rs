//! The reply that carries the next chunk of a large object.

use crate::error::{HdbError, ProtocolError};
use crate::wire::{
    agrees_view, get_bytes, get_i32, get_skip, get_u64, get_u8, parse_bytes, skip_bytes, take_i32,
    take_u64, take_u8,
};
use vstd::prelude::*;

verus! {

/// Set in the options of a chunk when no data follows it.
pub const LOB_LAST_DATA: u8 = 0b100;

/// Set in the options of a large object that is NULL.
pub const LOB_IS_NULL: u8 = 0b001;

/// A chunk of the object behind `locator_id`.
#[derive(Debug, PartialEq, Eq)]
pub struct ReadLobReply {
    pub locator_id: u64,
    pub is_last_data: bool,
    pub data: Vec<u8>,
}

/// What a chunk holds.
pub struct ReadLobReplyView {
    pub locator_id: u64,
    pub is_last_data: bool,
    pub data: Seq<u8>,
}

impl View for ReadLobReply {
    type V = ReadLobReplyView;

    open spec fn view(&self) -> ReadLobReplyView {
        ReadLobReplyView {
            locator_id: self.locator_id,
            is_last_data: self.is_last_data,
            data: self.data@,
        }
    }
}

/// Locator, options, length of the chunk, three unused bytes, the chunk.
pub open spec fn read_lob_reply_at(s: Seq<u8>, pos: int) -> Result<
    (ReadLobReplyView, int),
    HdbError,
> {
    match get_u64(s, pos) {
        Err(e) => Err(e),
        Ok((locator_id, p1)) => match get_u8(s, p1) {
            Err(e) => Err(e),
            Ok((options, p2)) => match get_i32(s, p2) {
                Err(e) => Err(e),
                Ok((length, p3)) => match get_skip(s, p3, 3) {
                    Err(e) => Err(e),
                    Ok(p4) => if length < 0 {
                        Err(HdbError::Protocol(ProtocolError::NegativeLength))
                    } else {
                        match get_bytes(s, p4, length as int) {
                            Err(e) => Err(e),
                            Ok((data, p5)) => Ok(
                                (
                                    ReadLobReplyView {
                                        locator_id,
                                        is_last_data: options & LOB_LAST_DATA != 0,
                                        data,
                                    },
                                    p5,
                                ),
                            ),
                        }
                    },
                },
            },
        },
    }
}

impl ReadLobReply {
    /// Reads locator, options and the chunk of data.
    pub fn parse(b: &[u8], pos: usize) -> (r: Result<(ReadLobReply, usize), HdbError>)
        ensures
            agrees_view(r, read_lob_reply_at(b@, pos as int)),
    {
        let (locator_id, p1) = take_u64(b, pos)?;
        let (options, p2) = take_u8(b, p1)?;
        let (length, p3) = take_i32(b, p2)?;
        let p4: usize = skip_bytes(b, p3, 3)?;
        if length < 0 {
            return Err(HdbError::Protocol(ProtocolError::NegativeLength));
        }
        let (data, p5) = parse_bytes(b, p4, length as usize)?;
        Ok((ReadLobReply { locator_id, is_last_data: options & LOB_LAST_DATA != 0, data }, p5))
    }
}

} // verus!
