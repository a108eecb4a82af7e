//! Large objects. A handle buffers what the server has sent of the object
//! and says what to ask for next; sending the request is the caller's part.

use crate::error::{HdbError, ImplError, ProtocolError};
use crate::parts::read_lob_reply::{ReadLobReply, LOB_IS_NULL, LOB_LAST_DATA};
use crate::parts::read_lob_request::ReadLobRequest;
use crate::text::{cesu8_encoding, cesu8_to_string, decoded_text, string_to_cesu8};
use crate::wire::{
    get_bytes, get_i32, get_u64, get_u8, parse_bytes, take_i32, take_u64, take_u8,
};
use vstd::prelude::*;

verus! {

/// A byte that continues a CESU-8 sequence.
pub open spec fn is_continuation(b: u8) -> bool {
    b & 0xC0 == 0x80
}

/// Number of CESU-8 sequences that start in `s`; the server counts the
/// characters of a character object this way.
pub open spec fn sequence_starts(s: Seq<u8>) -> nat
    decreases s.len(),
{
    if s.len() == 0 {
        0
    } else {
        sequence_starts(s.drop_last()) + if is_continuation(s.last()) {
            0nat
        } else {
            1nat
        }
    }
}

/// Counts the CESU-8 sequences that start in `b`.
pub fn count_sequence_starts(b: &[u8]) -> (r: usize)
    ensures
        r == sequence_starts(b@),
{
    let mut i: usize = 0;
    let mut count: usize = 0;
    while i < b.len()
        invariant
            i <= b@.len(),
            count <= i,
            count == sequence_starts(b@.take(i as int)),
        decreases b@.len() - i,
    {
        assert(b@.take(i + 1).drop_last() =~= b@.take(i as int));
        if b[i] & 0xC0 != 0x80 {
            count = count + 1;
        }
        i = i + 1;
    }
    assert(b@.take(i as int) =~= b@);
    count
}

/// The units a large object is measured in: characters or bytes.
pub open spec fn units(character: bool, data: Seq<u8>) -> nat {
    if character {
        sequence_starts(data)
    } else {
        data.len()
    }
}

/// What a handle knows of its object.
pub struct LobView {
    pub locator_id: u64,
    /// Length of the whole object, in characters or in bytes.
    pub total: u64,
    /// Length of the whole object in bytes.
    pub byte_length: u64,
    /// The server has said that no data is left.
    pub complete: bool,
    /// What has arrived and was not yet handed out.
    pub data: Seq<u8>,
    /// How much has arrived so far, in characters or in bytes.
    pub fetched: u64,
    pub character: bool,
}

/// The handle of a large object.
#[derive(Clone, Debug, PartialEq, Eq)]
pub struct LobHandle {
    locator_id: u64,
    total: u64,
    byte_length: u64,
    is_data_complete: bool,
    data: Vec<u8>,
    fetched: u64,
    character: bool,
}

/// The handle of a character object.
pub type CLob = LobHandle;

/// The handle of a binary object.
pub type BLob = LobHandle;

/// What a reader of a large object does next.
#[derive(Clone, Copy, Debug, PartialEq, Eq, Structural)]
pub enum LobStep {
    /// Data is buffered: take it.
    Deliver,
    /// Send this request and hand the reply to `absorb`.
    Fetch(ReadLobRequest),
    /// The object has been read to its end.
    End,
}

/// How much is left of an object.
pub open spec fn remaining(v: LobView) -> int {
    if v.total > v.fetched {
        v.total - v.fetched
    } else {
        0
    }
}

/// The read length that counts: at least one unit.
pub open spec fn effective_read_length(lob_read_length: int) -> int {
    if lob_read_length < 1 {
        1
    } else {
        lob_read_length
    }
}

/// The request for the next chunk: from the unit after the last one that
/// arrived, for what is left, and for no more than `lob_read_length`.
pub open spec fn next_request(v: LobView, lob_read_length: int) -> ReadLobRequest {
    ReadLobRequest {
        locator_id: v.locator_id,
        offset: (if v.fetched < u64::MAX {
            v.fetched + 1
        } else {
            v.fetched as int
        }) as u64,
        length_to_read: (if remaining(v) < effective_read_length(lob_read_length) {
            remaining(v)
        } else {
            effective_read_length(lob_read_length)
        }) as i32,
    }
}

/// The next step of a reader that wants `wanted` bytes.
pub open spec fn lob_step(v: LobView, wanted: int, lob_read_length: int) -> LobStep {
    if !v.complete && v.data.len() < wanted {
        LobStep::Fetch(next_request(v, lob_read_length))
    } else if v.data.len() == 0 && wanted > 0 {
        LobStep::End
    } else {
        LobStep::Deliver
    }
}

/// The handle after a chunk has arrived.
pub open spec fn absorbed(v: LobView, reply_data: Seq<u8>, is_last_data: bool) -> LobView {
    LobView {
        complete: is_last_data,
        data: v.data + reply_data,
        fetched: (v.fetched + units(v.character, reply_data)) as u64,
        ..v
    }
}

/// An object that the caller has made of data of its own: it holds all of
/// its data, and the server knows nothing of it yet.
pub open spec fn loaded(character: bool, data: Seq<u8>) -> LobView {
    LobView {
        locator_id: 0,
        total: units(character, data) as u64,
        byte_length: data.len() as u64,
        complete: true,
        data,
        fetched: units(character, data) as u64,
        character,
    }
}

impl View for LobHandle {
    type V = LobView;

    closed spec fn view(&self) -> LobView {
        LobView {
            locator_id: self.locator_id,
            total: self.total,
            byte_length: self.byte_length,
            complete: self.is_data_complete,
            data: self.data@,
            fetched: self.fetched,
            character: self.character,
        }
    }
}

impl LobHandle {
    /// The handle of a binary object of `length` bytes, of which `data` has
    /// arrived.
    pub fn new_blob(locator_id: u64, length: u64, is_last_data: bool, data: Vec<u8>) -> (r:
        LobHandle)
        ensures
            r@ == (LobView {
                locator_id,
                total: length,
                byte_length: length,
                complete: is_last_data,
                data: data@,
                fetched: data@.len() as u64,
                character: false,
            }),
    {
        let fetched: u64 = data.len() as u64;
        LobHandle {
            locator_id,
            total: length,
            byte_length: length,
            is_data_complete: is_last_data,
            data,
            fetched,
            character: false,
        }
    }

    /// The handle of a character object of `char_length` characters in
    /// `byte_length` bytes, of which `data` has arrived.
    pub fn new_clob(
        locator_id: u64,
        char_length: u64,
        byte_length: u64,
        is_last_data: bool,
        data: Vec<u8>,
    ) -> (r: LobHandle)
        ensures
            r@ == (LobView {
                locator_id,
                total: char_length,
                byte_length,
                complete: is_last_data,
                data: data@,
                fetched: sequence_starts(data@) as u64,
                character: true,
            }),
    {
        let fetched: u64 = count_sequence_starts(data.as_slice()) as u64;
        LobHandle {
            locator_id,
            total: char_length,
            byte_length,
            is_data_complete: is_last_data,
            data,
            fetched,
            character: true,
        }
    }

    /// A binary object that holds these bytes.
    pub fn of_bytes(data: Vec<u8>) -> (r: LobHandle)
        ensures
            r@ == loaded(false, data@),
    {
        let length: u64 = data.len() as u64;
        LobHandle::new_blob(0, length, true, data)
    }

    /// A character object that holds this text, in CESU-8.
    pub fn of_text(text: &str) -> (r: LobHandle)
        ensures
            r@ == loaded(true, cesu8_encoding(text@)),
    {
        let data: Vec<u8> = string_to_cesu8(text);
        let chars: u64 = count_sequence_starts(data.as_slice()) as u64;
        let length: u64 = data.len() as u64;
        LobHandle::new_clob(0, chars, length, true, data)
    }

    /// The bytes that have arrived and were not yet handed out.
    pub fn data(&self) -> (r: &[u8])
        ensures
            r@ == self@.data,
    {
        self.data.as_slice()
    }

    /// The handle by which the server knows the large object.
    pub fn locator_id(&self) -> (r: u64)
        ensures
            r == self@.locator_id,
    {
        self.locator_id
    }

    /// Length of the whole object in bytes.
    pub fn len(&self) -> (r: u64)
        ensures
            r == self@.byte_length,
    {
        self.byte_length
    }

    /// Length of the whole object in characters, or in bytes if it is binary.
    pub fn total_units(&self) -> (r: u64)
        ensures
            r == self@.total,
    {
        self.total
    }

    /// Whether the large object holds text.
    pub fn is_character(&self) -> (r: bool)
        ensures
            r == self@.character,
    {
        self.character
    }

    /// Whether the server has said that no data is left.
    pub fn is_complete(&self) -> (r: bool)
        ensures
            r == self@.complete,
    {
        self.is_data_complete
    }

    /// Number of bytes that have arrived and were not yet handed out.
    pub fn buffered(&self) -> (r: usize)
        ensures
            r == self@.data.len(),
    {
        self.data.len()
    }

    /// What a reader that wants `wanted` bytes does next. A handle that is
    /// complete never asks for a fetch. A read length below 1 counts as 1.
    pub fn poll(&self, wanted: usize, lob_read_length: i32) -> (r: LobStep)
        ensures
            r == lob_step(self@, wanted as int, lob_read_length as int),
            self@.complete ==> !(r is Fetch),
    {
        if !self.is_data_complete && self.data.len() < wanted {
            let left: u64 = if self.total > self.fetched {
                self.total - self.fetched
            } else {
                0
            };
            let read_length: i32 = if lob_read_length < 1 {
                1
            } else {
                lob_read_length
            };
            let length_to_read: i32 = if left < read_length as u64 {
                left as i32
            } else {
                read_length
            };
            let offset: u64 = if self.fetched < u64::MAX {
                self.fetched + 1
            } else {
                self.fetched
            };
            LobStep::Fetch(ReadLobRequest::new(self.locator_id, offset, length_to_read))
        } else if self.data.len() == 0 && wanted > 0 {
            LobStep::End
        } else {
            LobStep::Deliver
        }
    }

    /// Takes in the chunk of a reply. A reply for another locator, or one
    /// whose chunk would run the count of what arrived past 64 bits, is
    /// refused and leaves the handle as it was.
    pub fn absorb(&mut self, reply: ReadLobReply) -> (r: Result<(), HdbError>)
        ensures
            match r {
                Ok(()) => reply@.locator_id == old(self)@.locator_id && old(self)@.fetched + units(
                    old(self)@.character,
                    reply@.data,
                ) <= u64::MAX && final(self)@ == absorbed(
                    old(self)@,
                    reply@.data,
                    reply@.is_last_data,
                ),
                Err(e) => final(self)@ == old(self)@ && (if reply@.locator_id != old(
                    self,
                )@.locator_id {
                    e == HdbError::Impl(ImplError::WrongLocator)
                } else {
                    e == HdbError::Impl(ImplError::TooLarge) && old(self)@.fetched + units(
                        old(self)@.character,
                        reply@.data,
                    ) > u64::MAX
                }),
            },
    {
        if reply.locator_id != self.locator_id {
            return Err(HdbError::Impl(ImplError::WrongLocator));
        }
        let mut chunk: Vec<u8> = reply.data;
        let n: u64 = if self.character {
            count_sequence_starts(chunk.as_slice()) as u64
        } else {
            chunk.len() as u64
        };
        match self.fetched.checked_add(n) {
            None => Err(HdbError::Impl(ImplError::TooLarge)),
            Some(total) => {
                self.data.append(&mut chunk);
                self.fetched = total;
                self.is_data_complete = reply.is_last_data;
                Ok(())
            },
        }
    }

    /// Hands out the first `n` buffered bytes, or all of them if there are
    /// fewer.
    pub fn take(&mut self, n: usize) -> (r: Vec<u8>)
        ensures
            r@ == old(self)@.data.take(
                if n <= old(self)@.data.len() {
                    n as int
                } else {
                    old(self)@.data.len() as int
                },
            ),
            final(self)@ == (LobView {
                data: old(self)@.data.skip(
                    if n <= old(self)@.data.len() {
                        n as int
                    } else {
                        old(self)@.data.len() as int
                    },
                ),
                ..old(self)@
            }),
    {
        let k: usize = if n <= self.data.len() {
            n
        } else {
            self.data.len()
        };
        let rest: Vec<u8> = self.data.split_off(k);
        let mut head: Vec<u8> = rest;
        std::mem::swap(&mut self.data, &mut head);
        assert(head@ =~= old(self)@.data.take(k as int));
        assert(self.data@ =~= old(self)@.data.skip(k as int));
        head
    }

    /// The buffered bytes.
    pub fn into_bytes(self) -> (r: Vec<u8>)
        ensures
            r@ == self@.data,
    {
        self.data
    }

    /// The buffered bytes as text.
    pub fn into_string(self) -> (r: Result<String, HdbError>)
        ensures
            match r {
                Ok(t) => decoded_text(self@.data) == Ok::<Seq<char>, HdbError>(t@),
                Err(e) => decoded_text(self@.data) == Err::<Seq<char>, HdbError>(e),
            },
    {
        cesu8_to_string(self.data.as_slice())
    }
}

/// What the bytes at `pos` say of a large object in a reply: type, options,
/// and, unless the object is NULL, length in characters, length in bytes,
/// locator, length of the first chunk, and the chunk.
pub open spec fn lob_at(s: Seq<u8>, pos: int, nullable: bool, character: bool) -> Result<
    (Option<LobView>, int),
    HdbError,
> {
    match get_u8(s, pos) {
        Err(e) => Err(e),
        Ok((_, p1)) => match get_u8(s, p1) {
            Err(e) => Err(e),
            Ok((options, p2)) => if options & LOB_IS_NULL != 0 {
                if nullable {
                    Ok((None, p2))
                } else {
                    Err(HdbError::Impl(ImplError::UnexpectedNull))
                }
            } else {
                match get_u64(s, p2) {
                    Err(e) => Err(e),
                    Ok((char_length, p3)) => match get_u64(s, p3) {
                        Err(e) => Err(e),
                        Ok((byte_length, p4)) => match get_u64(s, p4) {
                            Err(e) => Err(e),
                            Ok((locator_id, p5)) => match get_i32(s, p5) {
                                Err(e) => Err(e),
                                Ok((length, p6)) => if length < 0 {
                                    Err(HdbError::Protocol(ProtocolError::NegativeLength))
                                } else {
                                    match get_bytes(s, p6, length as int) {
                                        Err(e) => Err(e),
                                        Ok((data, p7)) => Ok(
                                            (
                                                Some(
                                                    LobView {
                                                        locator_id,
                                                        total: if character {
                                                            char_length
                                                        } else {
                                                            byte_length
                                                        },
                                                        byte_length,
                                                        complete: options & LOB_LAST_DATA != 0,
                                                        data,
                                                        fetched: units(character, data) as u64,
                                                        character,
                                                    },
                                                ),
                                                p7,
                                            ),
                                        ),
                                    }
                                },
                            },
                        },
                    },
                }
            },
        },
    }
}

/// View of a handle that may be absent.
pub open spec fn lob_view(o: Option<LobHandle>) -> Option<LobView> {
    match o {
        Some(h) => Some(h@),
        None => None,
    }
}

/// Reads the large object of a reply.
pub fn parse_lob(b: &[u8], pos: usize, nullable: bool, character: bool) -> (r: Result<
    (Option<LobHandle>, usize),
    HdbError,
>)
    ensures
        match r {
            Ok((o, p)) => lob_at(b@, pos as int, nullable, character) == Ok::<_, HdbError>(
                (lob_view(o), p as int),
            ),
            Err(e) => lob_at(b@, pos as int, nullable, character) == Err::<
                (Option<LobView>, int),
                _,
            >(e),
        },
{
    let (_, p1) = take_u8(b, pos)?;
    let (options, p2) = take_u8(b, p1)?;
    if options & LOB_IS_NULL != 0 {
        if nullable {
            return Ok((None, p2));
        } else {
            return Err(HdbError::Impl(ImplError::UnexpectedNull));
        }
    }
    let (char_length, p3) = take_u64(b, p2)?;
    let (byte_length, p4) = take_u64(b, p3)?;
    let (locator_id, p5) = take_u64(b, p4)?;
    let (length, p6) = take_i32(b, p5)?;
    if length < 0 {
        return Err(HdbError::Protocol(ProtocolError::NegativeLength));
    }
    let (data, p7) = parse_bytes(b, p6, length as usize)?;
    let is_last_data: bool = options & LOB_LAST_DATA != 0;
    let handle: LobHandle = if character {
        LobHandle::new_clob(locator_id, char_length, byte_length, is_last_data, data)
    } else {
        LobHandle::new_blob(locator_id, byte_length, is_last_data, data)
    };
    Ok((Some(handle), p7))
}

} // verus!
