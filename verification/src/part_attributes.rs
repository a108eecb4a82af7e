//! The attribute byte of a part.

use vstd::prelude::*;

verus! {

/// This is the last packet of its result set.
pub const LAST_PACKET: u8 = 0b0000_0001;

/// Another packet follows.
pub const NEXT_PACKET: u8 = 0b0000_0010;

/// This is the first packet.
pub const FIRST_PACKET: u8 = 0b0000_0100;

/// The statement found no row.
pub const ROW_NOT_FOUND: u8 = 0b0000_1000;

/// The server has closed the result set.
pub const RESULTSET_CLOSED: u8 = 0b0001_0000;

/// A set of flags in one byte.
#[derive(Clone, Copy, Debug, PartialEq, Eq, Structural)]
pub struct PartAttributes(pub u8);

impl PartAttributes {
    /// The byte that holds the flags.
    pub open spec fn bits(self) -> u8 {
        self.0
    }

    /// Whether the flag is set.
    pub open spec fn has(self, flag: u8) -> bool {
        self.0 & flag != 0
    }

    /// The flags of this byte.
    pub fn new(bits: u8) -> (r: PartAttributes)
        ensures
            r.bits() == bits,
    {
        PartAttributes(bits)
    }

    /// The byte that holds the flags.
    pub fn to_u8(&self) -> (r: u8)
        ensures
            r == self.bits(),
    {
        self.0
    }

    /// Whether no packet follows this one.
    pub fn is_last_packet(&self) -> (r: bool)
        ensures
            r == self.has(LAST_PACKET),
    {
        (self.0 & LAST_PACKET) != 0
    }

    /// Whether another packet follows.
    pub fn has_next_packet(&self) -> (r: bool)
        ensures
            r == self.has(NEXT_PACKET),
    {
        (self.0 & NEXT_PACKET) != 0
    }

    /// Whether this is the first packet.
    pub fn is_first_packet(&self) -> (r: bool)
        ensures
            r == self.has(FIRST_PACKET),
    {
        (self.0 & FIRST_PACKET) != 0
    }

    /// Whether the statement found no row.
    pub fn row_not_found(&self) -> (r: bool)
        ensures
            r == self.has(ROW_NOT_FOUND),
    {
        (self.0 & ROW_NOT_FOUND) != 0
    }

    /// Whether the server has closed the result set.
    pub fn resultset_is_closed(&self) -> (r: bool)
        ensures
            r == self.has(RESULTSET_CLOSED),
    {
        (self.0 & RESULTSET_CLOSED) != 0
    }
}

/// The attributes of a first packet say neither that the result set has
/// ended nor that it is closed.
pub proof fn lemma_first_packet_is_open()
    ensures
        !PartAttributes(FIRST_PACKET).has(LAST_PACKET),
        !PartAttributes(FIRST_PACKET).has(RESULTSET_CLOSED),
        PartAttributes(FIRST_PACKET).has(FIRST_PACKET),
{
    assert(0b0000_0100u8 & 0b0000_0001u8 == 0) by (bit_vector);
    assert(0b0000_0100u8 & 0b0001_0000u8 == 0) by (bit_vector);
    assert(0b0000_0100u8 & 0b0000_0100u8 != 0) by (bit_vector);
}

} // verus!
