//! Parts: a header that says what follows, an argument, and padding.

use crate::argument::{
    arg_check, arg_count, arg_padded_wire, arg_size, argument_at, descriptors_view,
    lemma_arg_size, Argument, ArgumentView, ParseContext,
};
use crate::error::{HdbError, ImplError, ProtocolError};
use crate::part_attributes::PartAttributes;
use crate::partkind::PartKind;
use crate::parts::parameter_descriptor::{ParameterDescriptor, ParameterDescriptorView};
use crate::parts::resultset::ResultSet;
use crate::parts::resultset_metadata::ResultSetMetadata;
use crate::repeat::{lemma_views_empty, lemma_views_push, views};
use crate::wire::{
    available, get_bytes, get_i16, get_i32, get_i8, get_skip, get_u8, le16, le32, le8,
    lemma_append, lemma_le_len, pad_len, padsize, skip_bytes, take_i16, take_i32, take_i8,
    take_u8, write_i16, write_i32, write_i8, write_u32, write_u8,
};
use std::sync::Arc;
use vstd::prelude::*;
use vstd::slice::slice_subrange;

verus! {

/// Number of bytes of the header of a part.
pub const PART_HEADER_SIZE: usize = 16;

/// The largest argument count that the two-byte field holds.
pub const MAX_SMALL_COUNT: usize = 32767;

/// The largest number that a signed four-byte field holds.
pub const MAX_FIELD: usize = 0x7fff_ffff;

/// A part of a message.
#[derive(Debug, PartialEq, Eq)]
pub struct Part {
    kind: PartKind,
    arg: Argument,
}

/// A part as the model sees it.
pub struct PartView {
    pub kind: PartKind,
    pub arg: ArgumentView,
}

impl View for Part {
    type V = PartView;

    closed spec fn view(&self) -> PartView {
        PartView { kind: self.kind, arg: self.arg@ }
    }
}

/// The two fields of the argument count: a count above 32767 leaves the
/// two-byte field 0 and goes into the four-byte field.
pub open spec fn count_fields(count: int) -> Seq<u8> {
    if count <= 32767 {
        le16(count) + le32(0)
    } else {
        le16(0) + le32(count)
    }
}

/// The header of a part: kind, attributes, argument count, length of the
/// argument without padding, and what is left of the budget of the message.
pub open spec fn part_header(kind: PartKind, count: int, size: int, remaining: int) -> Seq<u8> {
    le8(kind.code() as int) + seq![0u8] + count_fields(count) + le32(size) + le32(remaining)
}

/// Whether a part can be sent, and the number of bytes it takes with header
/// and padding: its argument count and the length of its argument must fit
/// their fields.
#[verifier::opaque]
pub open spec fn part_ready(v: PartView, par_md: Option<Seq<ParameterDescriptorView>>) -> Result<
    int,
    HdbError,
> {
    match arg_count(v.arg) {
        Err(e) => Err(e),
        Ok(c) => if c > MAX_FIELD {
            Err(HdbError::Impl(ImplError::TooLarge))
        } else {
            match arg_check(v.arg, par_md) {
                Err(e) => Err(e),
                Ok(m) => if m > MAX_FIELD {
                    Err(HdbError::Impl(ImplError::TooLarge))
                } else {
                    Ok(16 + m + pad_len(m as nat))
                },
            }
        },
    }
}

/// Whether a part can be sent within a budget of `remaining` bytes, and the
/// number of bytes it takes with header and padding.
pub open spec fn part_check(
    v: PartView,
    par_md: Option<Seq<ParameterDescriptorView>>,
    remaining: int,
) -> Result<int, HdbError> {
    match part_ready(v, par_md) {
        Err(e) => Err(e),
        Ok(n) => if n > remaining {
            Err(HdbError::Impl(ImplError::TooLarge))
        } else {
            Ok(n)
        },
    }
}

/// The bytes of a part that is sent with `remaining` bytes of budget left.
#[verifier::opaque]
pub open spec fn part_wire(
    v: PartView,
    par_md: Option<Seq<ParameterDescriptorView>>,
    remaining: int,
) -> Seq<u8> {
    part_header(v.kind, arg_count(v.arg)->Ok_0, arg_check(v.arg, par_md)->Ok_0, remaining)
        + arg_padded_wire(v.arg)
}

/// Number of bytes of a part, with or without the padding of its argument.
pub open spec fn part_size(
    v: PartView,
    par_md: Option<Seq<ParameterDescriptorView>>,
    with_padding: bool,
) -> Result<int, HdbError> {
    match arg_size(v.arg, par_md, with_padding) {
        Err(e) => Err(e),
        Ok(n) => if 16 + n > usize::MAX {
            Err(HdbError::Impl(ImplError::TooLarge))
        } else {
            Ok(16 + n)
        },
    }
}

/// The header of a part has sixteen bytes.
pub proof fn lemma_part_header_len(kind: PartKind, count: int, size: int, remaining: int)
    ensures
        part_header(kind, count, size, remaining).len() == 16,
{
    lemma_le_len(count);
    lemma_le_len(0);
    lemma_le_len(size);
    lemma_le_len(remaining);
}

/// Every part that is sent takes exactly the bytes that its size with
/// padding says.
pub proof fn lemma_part_emits_its_size(
    v: PartView,
    par_md: Option<Seq<ParameterDescriptorView>>,
    remaining: int,
)
    requires
        part_check(v, par_md, remaining) is Ok,
        remaining <= u32::MAX,
    ensures
        part_size(v, par_md, true) == part_check(v, par_md, remaining),
        part_ready(v, par_md) == part_check(v, par_md, remaining),
        part_wire(v, par_md, remaining).len() == part_check(v, par_md, remaining)->Ok_0,
        part_wire(v, par_md, remaining).len() % 8 == 0,
        16 <= part_ready(v, par_md)->Ok_0 <= MAX_FIELD + 24,
{
    reveal(part_ready);
    reveal(part_wire);
    lemma_arg_size(v.arg, par_md);
    lemma_part_header_len(
        v.kind,
        arg_count(v.arg)->Ok_0,
        arg_check(v.arg, par_md)->Ok_0,
        remaining,
    );
    crate::wire::lemma_padding(arg_check(v.arg, par_md)->Ok_0 as nat);
}

impl Part {
    /// A part of this kind with this argument.
    pub fn new(kind: PartKind, arg: Argument) -> (r: Part)
        ensures
            r@ == (PartView { kind, arg: arg@ }),
    {
        Part { kind, arg }
    }

    /// The kind of the part.
    pub fn kind(&self) -> (r: &PartKind)
        ensures
            *r == self@.kind,
    {
        &self.kind
    }

    /// The argument of the part.
    pub fn arg(&self) -> (r: &Argument)
        ensures
            r@ == self@.arg,
    {
        &self.arg
    }

    /// Kind and argument, by value.
    pub fn into_elements(self) -> (r: (PartKind, Argument))
        ensures
            r.0 == self@.kind,
            r.1@ == self@.arg,
    {
        (self.kind, self.arg)
    }

    /// Number of bytes that `emit` writes for the part, with or without the
    /// padding of its argument.
    pub fn size(&self, with_padding: bool, o_par_md: Option<&[ParameterDescriptor]>) -> (r:
        Result<usize, HdbError>)
        ensures
            match r {
                Ok(n) => part_size(self@, descriptors_view(o_par_md), with_padding) == Ok::<
                    _,
                    HdbError,
                >(n as int),
                Err(e) => part_size(self@, descriptors_view(o_par_md), with_padding) == Err::<
                    int,
                    _,
                >(e),
            },
    {
        let n: usize = self.arg.size(with_padding, o_par_md)?;
        match n.checked_add(PART_HEADER_SIZE) {
            Some(t) => Ok(t),
            None => Err(HdbError::Impl(ImplError::TooLarge)),
        }
    }

    /// Number of bytes that `emit` writes for the part, if the part can be
    /// sent.
    pub fn ready(&self, o_par_md: Option<&[ParameterDescriptor]>) -> (r: Result<usize, HdbError>)
        ensures
            match r {
                Ok(n) => part_ready(self@, descriptors_view(o_par_md)) == Ok::<_, HdbError>(
                    n as int,
                ) && n <= MAX_FIELD + 24,
                Err(e) => part_ready(self@, descriptors_view(o_par_md)) == Err::<int, _>(e),
            },
    {
        reveal(part_ready);
        let count: usize = self.arg.count()?;
        if count > MAX_FIELD {
            return Err(HdbError::Impl(ImplError::TooLarge));
        }
        let size: usize = self.arg.size(false, o_par_md)?;
        if size > MAX_FIELD {
            return Err(HdbError::Impl(ImplError::TooLarge));
        }
        Ok(PART_HEADER_SIZE + size + padsize(size))
    }

    /// Appends the part, and returns what is left of the budget of the
    /// message. Fails, and writes nothing, if the part cannot be sent within
    /// the budget.
    #[verifier::rlimit(40)]
    pub fn emit(
        &self,
        remaining_bufsize: u32,
        o_par_md: Option<&[ParameterDescriptor]>,
        w: &mut Vec<u8>,
    ) -> (r: Result<u32, HdbError>)
        ensures
            match r {
                Ok(left) => part_check(
                    self@,
                    descriptors_view(o_par_md),
                    remaining_bufsize as int,
                ) matches Ok(n) && left == remaining_bufsize - n && final(w)@ == old(w)@
                    + part_wire(self@, descriptors_view(o_par_md), remaining_bufsize as int)
                    && final(w)@.len() == old(w)@.len() + n,
                Err(e) => final(w)@ == old(w)@ && part_check(
                    self@,
                    descriptors_view(o_par_md),
                    remaining_bufsize as int,
                ) == Err::<int, _>(e),
            },
    {
        reveal(part_ready);
        reveal(part_wire);
        let count: usize = self.arg.count()?;
        if count > MAX_FIELD {
            return Err(HdbError::Impl(ImplError::TooLarge));
        }
        let size: usize = self.arg.size(false, o_par_md)?;
        if size > MAX_FIELD {
            return Err(HdbError::Impl(ImplError::TooLarge));
        }
        let total: usize = PART_HEADER_SIZE + size + padsize(size);
        if total > remaining_bufsize as usize {
            return Err(HdbError::Impl(ImplError::TooLarge));
        }
        let ghost md = descriptors_view(o_par_md);
        let ghost header = part_header(
            self@.kind,
            count as int,
            size as int,
            remaining_bufsize as int,
        );
        proof {
            lemma_arg_size(self@.arg, md);
            lemma_part_header_len(self@.kind, count as int, size as int, remaining_bufsize as int);
        }
        write_i8(w, self.kind.to_i8());
        write_u8(w, 0);
        if count <= MAX_SMALL_COUNT {
            write_i16(w, count as i16);
            write_i32(w, 0);
        } else {
            write_i16(w, 0);
            write_i32(w, count as i32);
        }
        write_i32(w, size as i32);
        write_u32(w, remaining_bufsize);
        proof {
            assert(w@ =~= old(w)@ + header);
        }
        match self.arg.emit(remaining_bufsize - PART_HEADER_SIZE as u32, o_par_md, w) {
            Ok(left) => {
                proof {
                    lemma_append(old(w)@, header, arg_padded_wire(self@.arg));
                }
                Ok(left)
            },
            Err(e) => {
                proof {
                    assert(false);
                }
                Err(e)
            },
        }
    }
}

/// The parts of a message, in the order in which they are sent.
#[derive(Debug, PartialEq, Eq)]
pub struct Parts(Vec<Part>);

impl View for Parts {
    type V = Seq<PartView>;

    closed spec fn view(&self) -> Seq<PartView> {
        views(self.0@)
    }
}

/// The last part is of this kind.
pub open spec fn last_is(parts: Seq<PartView>, kind: PartKind) -> bool {
    parts.len() > 0 && parts.last().kind == kind
}

impl Default for Parts {
    fn default() -> (r: Parts)
        ensures
            r@ == Seq::<PartView>::empty(),
    {
        Parts::new()
    }
}

impl Parts {
    /// No parts.
    pub fn new() -> (r: Parts)
        ensures
            r@ == Seq::<PartView>::empty(),
    {
        let r = Parts(Vec::new());
        proof {
            lemma_views_empty(r.0@);
        }
        r
    }

    /// Number of parts.
    pub fn len(&self) -> (r: usize)
        ensures
            r == self@.len(),
    {
        self.0.len()
    }

    /// Whether there is no part.
    pub fn is_empty(&self) -> (r: bool)
        ensures
            r == (self@.len() == 0),
    {
        self.0.len() == 0
    }

    /// Adds a part behind the others.
    pub fn push(&mut self, part: Part)
        ensures
            final(self)@ == old(self)@.push(part@),
    {
        proof {
            lemma_views_push(self.0@, part);
        }
        self.0.push(part);
    }

    /// Takes the last part off.
    pub fn pop(&mut self) -> (r: Option<Part>)
        ensures
            match r {
                Some(p) => old(self)@.len() > 0 && p@ == old(self)@.last() && final(self)@
                    == old(self)@.drop_last(),
                None => old(self)@.len() == 0 && final(self)@ == old(self)@,
            },
    {
        let r: Option<Part> = self.0.pop();
        proof {
            if r is Some {
                assert(views(self.0@) =~= views(old(self).0@).drop_last());
            }
        }
        r
    }

    /// Takes the first part off.
    pub fn pop_first(&mut self) -> (r: Option<Part>)
        ensures
            match r {
                Some(p) => old(self)@.len() > 0 && p@ == old(self)@[0] && final(self)@
                    == old(self)@.skip(1),
                None => old(self)@.len() == 0 && final(self)@ == old(self)@,
            },
    {
        if self.0.len() == 0 {
            None
        } else {
            let p: Part = self.0.remove(0);
            proof {
                assert(views(self.0@) =~= views(old(self).0@).skip(1));
            }
            Some(p)
        }
    }

    /// The part at an index.
    pub fn get(&self, i: usize) -> (r: &Part)
        requires
            i < self@.len(),
        ensures
            r@ == self@[i as int],
    {
        &self.0[i]
    }

    /// Takes the argument of the last part off.
    pub fn pop_arg(&mut self) -> (r: Option<Argument>)
        ensures
            match r {
                Some(a) => old(self)@.len() > 0 && a@ == old(self)@.last().arg && final(self)@
                    == old(self)@.drop_last(),
                None => old(self)@.len() == 0 && final(self)@ == old(self)@,
            },
    {
        match self.pop() {
            Some(p) => Some(p.arg),
            None => None,
        }
    }

    /// Takes the argument of the last part off, if that part is of this
    /// kind.
    pub fn pop_arg_if_kind(&mut self, kind: PartKind) -> (r: Option<Argument>)
        ensures
            match r {
                Some(a) => last_is(old(self)@, kind) && a@ == old(self)@.last().arg && final(self)@
                    == old(self)@.drop_last(),
                None => !last_is(old(self)@, kind) && final(self)@ == old(self)@,
            },
    {
        let n: usize = self.0.len();
        if n == 0 {
            return None;
        }
        if self.0[n - 1].kind == kind {
            self.pop_arg()
        } else {
            None
        }
    }

    /// Index of the first part of this kind.
    pub fn position(&self, kind: PartKind) -> (r: Option<usize>)
        ensures
            match r {
                Some(i) => i < self@.len() && self@[i as int].kind == kind && forall|j: int|
                    0 <= j < i ==> (#[trigger] self@[j]).kind != kind,
                None => forall|j: int| 0 <= j < self@.len() ==> (#[trigger] self@[j]).kind != kind,
            },
    {
        let mut i: usize = 0;
        while i < self.0.len()
            invariant
                i <= self.0@.len(),
                self@ == views(self.0@),
                forall|j: int| 0 <= j < i ==> (#[trigger] self@[j]).kind != kind,
            decreases self.0@.len() - i,
        {
            if self.0[i].kind == kind {
                return Some(i);
            }
            i = i + 1;
        }
        None
    }

    /// Takes the part at an index out, and puts the last part in its place.
    pub fn swap_remove(&mut self, idx: usize) -> (r: Part)
        requires
            idx < old(self)@.len(),
        ensures
            r@ == old(self)@[idx as int],
            final(self)@ == old(self)@.update(idx as int, old(self)@.last()).drop_last(),
    {
        let r: Part = self.0.swap_remove(idx);
        proof {
            assert(views(self.0@) =~= views(old(self).0@).update(
                idx as int,
                views(old(self).0@).last(),
            ).drop_last());
        }
        r
    }
}

/// The argument count that the two fields of a header announce: the larger
/// of the two.
pub open spec fn announced_count(small: i16, big: i32) -> int {
    if small as int > big as int {
        small as int
    } else {
        big as int
    }
}

/// What was read of a part: the part, the parts before it that are left,
/// and the position behind its padding.
pub struct PartRead {
    pub part: PartView,
    pub parts: Seq<PartView>,
    pub end: int,
}

/// The frame of a part: what its header says, its payload, and the position
/// behind its padding.
pub struct Frame {
    pub kind: PartKind,
    pub attributes: PartAttributes,
    pub count: nat,
    pub payload: Seq<u8>,
    pub end: int,
}

/// What the bytes at `pos` say of the frame of a part: the header, the
/// payload of the length that the header announces, and the padding.
pub open spec fn frame_at(s: Seq<u8>, pos: int) -> Result<Frame, HdbError> {
    match get_i8(s, pos) {
        Err(e) => Err(e),
        Ok((code, p1)) => match PartKind::read(code) {
            Err(e) => Err(e),
            Ok(kind) => match get_u8(s, p1) {
                Err(e) => Err(e),
                Ok((attributes, p2)) => match get_i16(s, p2) {
                    Err(e) => Err(e),
                    Ok((small, p3)) => match get_i32(s, p3) {
                        Err(e) => Err(e),
                        Ok((big, p4)) => match get_i32(s, p4) {
                            Err(e) => Err(e),
                            Ok((size, p5)) => match get_i32(s, p5) {
                                Err(e) => Err(e),
                                Ok((_, p6)) => if announced_count(small, big) < 0 || size < 0 {
                                    Err(HdbError::Protocol(ProtocolError::NegativeLength))
                                } else {
                                    match get_bytes(s, p6, size as int) {
                                        Err(e) => Err(e),
                                        Ok((payload, p7)) => match get_skip(
                                            s,
                                            p7,
                                            pad_len(size as nat) as int,
                                        ) {
                                            Err(e) => Err(e),
                                            Ok(end) => Ok(
                                                Frame {
                                                    kind,
                                                    attributes: PartAttributes(attributes),
                                                    count: announced_count(small, big) as nat,
                                                    payload,
                                                    end,
                                                },
                                            ),
                                        },
                                    }
                                },
                            },
                        },
                    },
                },
            },
        },
    }
}

/// What the bytes at `pos` say of a part: its frame, and in the payload the
/// argument that goes with the kind of the part.
pub open spec fn part_at(parts: Seq<PartView>, ctx: ParseContext, s: Seq<u8>, pos: int) -> Result<
    PartRead,
    HdbError,
> {
    match frame_at(s, pos) {
        Err(e) => Err(e),
        Ok(f) => match argument_at(f.kind, f.attributes, f.count, parts, ctx, f.payload) {
            Err(e) => Err(e),
            Ok((arg, rest)) => Ok(
                PartRead { part: PartView { kind: f.kind, arg }, parts: rest, end: f.end },
            ),
        },
    }
}

/// The parts that are left once a part was read, or could not be read: a
/// part whose frame cannot be read takes none away.
pub open spec fn parts_behind(parts: Seq<PartView>, ctx: ParseContext, s: Seq<u8>, pos: int)
    -> Seq<PartView> {
    match frame_at(s, pos) {
        Err(_) => parts,
        Ok(f) => crate::argument::parts_left(f.kind, parts, ctx),
    }
}

/// What the bytes at `pos` say of `count` parts, one after the other.
pub open spec fn parts_at(ctx: ParseContext, s: Seq<u8>, pos: int, count: nat) -> Result<
    (Seq<PartView>, int),
    HdbError,
>
    decreases count,
{
    if count == 0 {
        Ok((Seq::<PartView>::empty(), pos))
    } else {
        match parts_at(ctx, s, pos, (count - 1) as nat) {
            Err(e) => Err(e),
            Ok((acc, p)) => match part_at(acc, ctx, s, p) {
                Err(e) => Err(e),
                Ok(read) => Ok((read.parts.push(read.part), read.end)),
            },
        }
    }
}

/// Once a part fails, the parts fail the same way.
pub proof fn lemma_parts_failure(ctx: ParseContext, s: Seq<u8>, pos: int, i: nat, n: nat)
    requires
        i <= n,
        parts_at(ctx, s, pos, i) is Err,
    ensures
        parts_at(ctx, s, pos, n) == parts_at(ctx, s, pos, i),
    decreases n - i,
{
    if i < n {
        lemma_parts_failure(ctx, s, pos, i, (n - 1) as nat);
    }
}

impl Part {
    /// Reads a part. `parts` are the parts of the message that were read
    /// before; the rows of a result set take their id and their metadata
    /// from them.
    pub fn parse(
        parts: &mut Parts,
        o_rs_md: Option<&Arc<ResultSetMetadata>>,
        o_par_md: Option<&[ParameterDescriptor]>,
        o_rs: Option<&ResultSet>,
        b: &[u8],
        pos: usize,
    ) -> (r: Result<(Part, usize), HdbError>)
        ensures
            final(parts)@ == parts_behind(
                old(parts)@,
                crate::argument::context_of(o_rs_md, o_par_md, o_rs),
                b@,
                pos as int,
            ),
            match r {
                Ok((part, end)) => part_at(
                    old(parts)@,
                    crate::argument::context_of(o_rs_md, o_par_md, o_rs),
                    b@,
                    pos as int,
                ) == Ok::<_, HdbError>(
                    PartRead { part: part@, parts: final(parts)@, end: end as int },
                ),
                Err(e) => part_at(
                    old(parts)@,
                    crate::argument::context_of(o_rs_md, o_par_md, o_rs),
                    b@,
                    pos as int,
                ) == Err::<PartRead, _>(e),
            },
    {
        let (code, p1) = take_i8(b, pos)?;
        let kind: PartKind = PartKind::from_i8(code)?;
        let (attributes, p2) = take_u8(b, p1)?;
        let (small, p3) = take_i16(b, p2)?;
        let (big, p4) = take_i32(b, p3)?;
        let (size, p5) = take_i32(b, p4)?;
        let (_, p6) = take_i32(b, p5)?;
        let count: i32 = if small as i32 > big {
            small as i32
        } else {
            big
        };
        if count < 0 || size < 0 {
            return Err(HdbError::Protocol(ProtocolError::NegativeLength));
        }
        if !available(b, p6, size as usize) {
            return Err(HdbError::Protocol(ProtocolError::Truncated));
        }
        let p7: usize = p6 + size as usize;
        let payload: &[u8] = slice_subrange(b, p6, p7);
        let end: usize = skip_bytes(b, p7, padsize(size as usize))?;
        let arg: Argument = Argument::parse(
            kind,
            PartAttributes::new(attributes),
            count as usize,
            parts,
            o_rs_md,
            o_par_md,
            o_rs,
            payload,
        )?;
        Ok((Part { kind, arg }, end))
    }
}

} // verus!
