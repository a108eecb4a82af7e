//! The request for the next chunk of a large object.

use crate::wire::{le32, le64, lemma_le_len, write_i32, write_u32, write_u64};
use vstd::prelude::*;

verus! {

/// Asks for `length_to_read` units of the object behind `locator_id`,
/// starting at `offset`; the first unit has offset 1.
#[derive(Clone, Copy, Debug, PartialEq, Eq, Structural)]
pub struct ReadLobRequest {
    pub locator_id: u64,
    pub offset: u64,
    pub length_to_read: i32,
}

impl ReadLobRequest {
    /// The 24 bytes of the request: locator, offset, length, and a filler.
    pub open spec fn wire(&self) -> Seq<u8> {
        le64(self.locator_id as int) + le64(self.offset as int) + le32(self.length_to_read as int)
            + le32(0)
    }

    /// Asks for `length_to_read` units of the large object from `offset` on.
    pub fn new(locator_id: u64, offset: u64, length_to_read: i32) -> (r: ReadLobRequest)
        ensures
            r == (ReadLobRequest { locator_id, offset, length_to_read }),
    {
        ReadLobRequest { locator_id, offset, length_to_read }
    }

    /// Writes locator, offset, length and four bytes of filler.
    pub fn emit(&self, w: &mut Vec<u8>)
        ensures
            final(w)@ == old(w)@ + self.wire(),
            self.wire().len() == 24,
    {
        proof {
            lemma_le_len(self.locator_id as int);
            lemma_le_len(self.offset as int);
            lemma_le_len(self.length_to_read as int);
            lemma_le_len(0);
        }
        write_u64(w, self.locator_id);
        write_u64(w, self.offset);
        write_i32(w, self.length_to_read);
        write_u32(w, 0u32);
        assert(w@ =~= old(w)@ + self.wire());
    }

    /// Number of bytes that `emit` writes.
    pub fn size(&self) -> (r: usize)
        ensures
            r == 24,
            r == self.wire().len(),
    {
        proof {
            lemma_le_len(self.locator_id as int);
            lemma_le_len(self.offset as int);
            lemma_le_len(self.length_to_read as int);
            lemma_le_len(0);
        }
        24
    }
}

} // verus!
