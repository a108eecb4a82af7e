//! Messages. A message holds exactly one segment, so the two are one here;
//! requests and replies are told apart.

use crate::argument::{
    context_of, descriptors_view, Argument, ArgumentData, ArgumentView, ParseContext,
};
use crate::conn_core::{
    after_request, with_flags, with_statement_context, ConnectionState, ConnectionView,
};
use crate::error::{EvaluationError, HdbError, ImplError, ProtocolError};
use crate::hdb_response::{
    multiple_return_values, numbers, resultset, resultset_of, rows_affected, rows_affected_of,
    success, success_of, HdbResponse, InternalReturnValue, ResponseView, ReturnValueView,
};
use crate::part::{
    lemma_part_emits_its_size, lemma_parts_failure, part_ready, part_wire, parts_at, Part,
    PartView, Parts,
};
use crate::part_attributes::{PartAttributes, FIRST_PACKET};
use crate::partkind::PartKind;
use crate::parts::option_part::put;
use crate::parts::option_value::OptionData;
use crate::parts::parameter_descriptor::{ParameterDescriptor, ParameterDescriptorView};
use crate::parts::resultset::{ResultSet, ResultSetView};
use crate::parts::resultset_metadata::ResultSetMetadata;
use crate::parts::statement_context::{StatementContext, STATEMENT_SEQUENCE_INFO};
use crate::repeat::{lemma_views_empty, lemma_views_push, views};
use crate::reply_type::ReplyType;
use crate::request_type::RequestType;
use crate::wire::{
    emit_zeros, get_i16, get_i32, get_i64, get_i8, get_skip, get_u32, get_u8, le16, le32, le64,
    le8, lemma_append, lemma_le_len, skip_bytes, take_i16, take_i32, take_i64, take_i8,
    take_u32, take_u8, write_i16, write_i32, write_i64, write_i8, write_u32, write_u8, zeros,
};
use std::sync::Arc;
use vstd::prelude::*;

verus! {

/// Number of bytes of the header of a message.
pub const MESSAGE_HEADER_SIZE: u32 = 32;

/// Number of bytes of the header of a segment, the same for requests and
/// replies.
pub const SEGMENT_HEADER_SIZE: usize = 24;

/// Command option: cursors stay open over a commit.
pub const HOLD_CURSORS_OVER_COMMIT: u8 = 8;

/// The largest number of parts that the header of a segment can announce.
pub const MAX_PARTS: usize = 32767;

/// The largest size of a segment.
pub const MAX_SEGMENT_SIZE: usize = 0x7fff_ffff;

/// Packets with the same sequence number are one request and its reply.
#[derive(Debug, PartialEq, Eq)]
pub struct Request {
    request_type: RequestType,
    auto_commit: bool,
    command_options: u8,
    parts: Parts,
}

/// A request as the model sees it.
pub struct RequestView {
    pub request_type: RequestType,
    pub auto_commit: bool,
    pub command_options: u8,
    pub parts: Seq<PartView>,
}

impl View for Request {
    type V = RequestView;

    closed spec fn view(&self) -> RequestView {
        RequestView {
            request_type: self.request_type,
            auto_commit: self.auto_commit,
            command_options: self.command_options,
            parts: self.parts@,
        }
    }
}

/// The part that echoes a statement sequence info.
pub open spec fn ssi_part(ssi: Seq<u8>) -> PartView {
    PartView {
        kind: PartKind::StatementContext,
        arg: ArgumentView {
            kind: PartKind::StatementContext,
            data: ArgumentData::Options(
                put(
                    Seq::<(u8, OptionData)>::empty(),
                    STATEMENT_SEQUENCE_INFO,
                    OptionData::Bytes(ssi),
                ),
            ),
        },
    }
}

/// The parts with which a request starts out on a connection: a statement
/// context that echoes the statement sequence info, if the connection holds
/// one.
pub open spec fn first_parts(c: ConnectionView) -> Seq<PartView> {
    match c.ssi {
        Some(ssi) => seq![ssi_part(ssi)],
        None => Seq::<PartView>::empty(),
    }
}

/// Size of the segment with the first `k` parts of a request, or why one of
/// them cannot be sent.
pub open spec fn segment_check(
    parts: Seq<PartView>,
    par_md: Option<Seq<ParameterDescriptorView>>,
    k: nat,
) -> Result<int, HdbError>
    decreases k,
{
    if k == 0 {
        Ok(24)
    } else {
        match segment_check(parts, par_md, (k - 1) as nat) {
            Err(e) => Err(e),
            Ok(t) => match part_ready(parts[k - 1], par_md) {
                Err(e) => Err(e),
                Ok(n) => if t + n > MAX_SEGMENT_SIZE {
                    Err(HdbError::Impl(ImplError::TooLarge))
                } else {
                    Ok(t + n)
                },
            },
        }
    }
}

/// Size of the segment of a request: 24 bytes of header and the parts with
/// their padding. A request with more parts than the header can announce,
/// or with a part that cannot be sent, has none.
pub open spec fn segment_size(r: RequestView, par_md: Option<Seq<ParameterDescriptorView>>)
    -> Result<int, HdbError> {
    if r.parts.len() > MAX_PARTS {
        Err(HdbError::Impl(ImplError::TooLarge))
    } else {
        segment_check(r.parts, par_md, r.parts.len())
    }
}

/// Once a part cannot be sent, the segment cannot.
pub proof fn lemma_segment_failure(
    parts: Seq<PartView>,
    par_md: Option<Seq<ParameterDescriptorView>>,
    i: nat,
    n: nat,
)
    requires
        i <= n,
        segment_check(parts, par_md, i) is Err,
    ensures
        segment_check(parts, par_md, n) == segment_check(parts, par_md, i),
    decreases n - i,
{
    if i < n {
        lemma_segment_failure(parts, par_md, i, (n - 1) as nat);
    }
}

/// If a segment can be sent, so can its first parts, and sizes only grow.
pub proof fn lemma_segment_prefix(
    parts: Seq<PartView>,
    par_md: Option<Seq<ParameterDescriptorView>>,
    i: nat,
    n: nat,
)
    requires
        i <= n,
        segment_check(parts, par_md, n) is Ok,
    ensures
        segment_check(parts, par_md, i) is Ok,
        24 <= segment_check(parts, par_md, i)->Ok_0 <= segment_check(parts, par_md, n)->Ok_0,
        i < n ==> part_ready(parts[i as int], par_md) is Ok && segment_check(parts, par_md, i)->Ok_0
            + part_ready(parts[i as int], par_md)->Ok_0 <= segment_check(parts, par_md, n)->Ok_0,
    decreases n - i,
{
    if i < n {
        lemma_segment_prefix(parts, par_md, i, (n - 1) as nat);
        lemma_segment_prefix(parts, par_md, (i + 1) as nat, n);
        if i + 1 == n {
            assert((n - 1) as nat == i);
        }
        lemma_ready_bounds(parts[i as int], par_md);
    } else {
        lemma_segment_nonneg(parts, par_md, n);
    }
}

/// A segment has at least the bytes of its header.
pub proof fn lemma_segment_nonneg(
    parts: Seq<PartView>,
    par_md: Option<Seq<ParameterDescriptorView>>,
    n: nat,
)
    requires
        segment_check(parts, par_md, n) is Ok,
    ensures
        24 <= segment_check(parts, par_md, n)->Ok_0 <= MAX_SEGMENT_SIZE,
    decreases n,
{
    if n > 0 {
        lemma_segment_nonneg(parts, par_md, (n - 1) as nat);
        lemma_ready_bounds(parts[n - 1], par_md);
    }
}

/// A part that can be sent has at least the bytes of its header.
pub proof fn lemma_ready_bounds(v: PartView, par_md: Option<Seq<ParameterDescriptorView>>)
    requires
        part_ready(v, par_md) is Ok,
    ensures
        16 <= part_ready(v, par_md)->Ok_0 <= MAX_SEGMENT_SIZE + 24,
{
    reveal(part_ready);
    crate::argument::lemma_arg_size(v.arg, par_md);
}

/// The header of a message: session id, packet sequence number, size of
/// what follows the header, the same again as the budget that is left, the
/// number of segments, and ten unused bytes.
pub open spec fn message_header(session_id: i64, seq_number: i32, varpart_size: int) -> Seq<u8> {
    le64(session_id as int) + le32(seq_number as int) + le32(varpart_size) + le32(varpart_size)
        + le16(1) + zeros(10)
}

/// The header of the segment of a request: size, offset, number of parts,
/// number of the segment, kind of the segment, request type, auto-commit,
/// command options, and eight unused bytes.
pub open spec fn segment_header(r: RequestView, size: int) -> Seq<u8> {
    le32(size) + le32(0) + le16(r.parts.len() as int) + le16(1) + le8(1) + le8(
        r.request_type.code() as int,
    ) + le8(
        if r.auto_commit {
            1
        } else {
            0
        },
    ) + seq![r.command_options] + zeros(8)
}

/// The bytes of the first `k` parts of a request that starts out with a
/// budget of `budget` bytes for its parts.
pub open spec fn parts_wire(
    parts: Seq<PartView>,
    par_md: Option<Seq<ParameterDescriptorView>>,
    budget: int,
    k: nat,
) -> Seq<u8>
    decreases k,
{
    if k == 0 {
        Seq::<u8>::empty()
    } else {
        parts_wire(parts, par_md, budget, (k - 1) as nat) + part_wire(
            parts[k - 1],
            par_md,
            budget - (segment_check(parts, par_md, (k - 1) as nat)->Ok_0 - 24),
        )
    }
}

/// The bytes of a request that is sent in a session under a sequence
/// number.
pub open spec fn request_wire(
    r: RequestView,
    par_md: Option<Seq<ParameterDescriptorView>>,
    session_id: i64,
    seq_number: i32,
) -> Seq<u8> {
    let size = segment_size(r, par_md)->Ok_0;
    message_header(session_id, seq_number, size) + segment_header(r, size) + parts_wire(
        r.parts,
        par_md,
        size - 24,
        r.parts.len(),
    )
}

/// The parts of a request take what the size of the segment counts for
/// them.
pub proof fn lemma_parts_wire_len(
    parts: Seq<PartView>,
    par_md: Option<Seq<ParameterDescriptorView>>,
    k: nat,
    n: nat,
)
    requires
        k <= n,
        segment_check(parts, par_md, n) is Ok,
    ensures
        parts_wire(parts, par_md, segment_check(parts, par_md, n)->Ok_0 - 24, k).len()
            == segment_check(parts, par_md, k)->Ok_0 - 24,
    decreases k,
{
    lemma_segment_prefix(parts, par_md, k, n);
    if k > 0 {
        lemma_parts_wire_len(parts, par_md, (k - 1) as nat, n);
        lemma_segment_prefix(parts, par_md, (k - 1) as nat, n);
        let budget = segment_check(parts, par_md, n)->Ok_0 - 24;
        let before = segment_check(parts, par_md, (k - 1) as nat)->Ok_0 - 24;
        lemma_part_emits_its_size(parts[k - 1], par_md, budget - before);
    }
}

/// The headers of a message and of its segment have 32 and 24 bytes.
pub proof fn lemma_header_len(r: RequestView, session_id: i64, seq_number: i32, size: int)
    ensures
        message_header(session_id, seq_number, size).len() == 32,
        segment_header(r, size).len() == 24,
{
    lemma_le_len(session_id as int);
    lemma_le_len(seq_number as int);
    lemma_le_len(size);
    lemma_le_len(1);
    lemma_le_len(0);
    lemma_le_len(r.parts.len() as int);
}

/// The bytes that are written for a request are 32 more than the size of
/// what follows the header of the message.
pub proof fn lemma_request_len(
    r: RequestView,
    par_md: Option<Seq<ParameterDescriptorView>>,
    session_id: i64,
    seq_number: i32,
)
    requires
        segment_size(r, par_md) is Ok,
    ensures
        request_wire(r, par_md, session_id, seq_number).len() == segment_size(r, par_md)->Ok_0
            + 32,
{
    let size = segment_size(r, par_md)->Ok_0;
    lemma_header_len(r, session_id, seq_number, size);
    lemma_parts_wire_len(r.parts, par_md, r.parts.len(), r.parts.len());
}

/// Appends the header of a message.
fn emit_message_header(session_id: i64, seq_number: i32, varpart_size: u32, w: &mut Vec<u8>)
    ensures
        final(w)@ == old(w)@ + message_header(session_id, seq_number, varpart_size as int),
{
    write_i64(w, session_id);
    write_i32(w, seq_number);
    write_u32(w, varpart_size);
    write_u32(w, varpart_size);
    write_i16(w, 1);
    emit_zeros(10, w);
    assert(w@ =~= old(w)@ + message_header(session_id, seq_number, varpart_size as int));
}

impl Request {
    /// A request on a connection. If the connection holds a statement
    /// sequence info, the request starts out with a statement context that
    /// echoes it.
    pub fn new(
        conn: &ConnectionState,
        request_type: RequestType,
        auto_commit: bool,
        command_options: u8,
    ) -> (r: Request)
        ensures
            r@ == (RequestView {
                request_type,
                auto_commit,
                command_options,
                parts: first_parts(conn@),
            }),
    {
        let mut request = Request {
            request_type,
            auto_commit,
            command_options,
            parts: Parts::default(),
        };
        request.add_ssi(conn);
        request
    }

    /// The request that ends a session.
    pub fn new_for_disconnect() -> (r: Request)
        ensures
            r@ == (RequestView {
                request_type: RequestType::Disconnect,
                auto_commit: false,
                command_options: 0,
                parts: Seq::<PartView>::empty(),
            }),
    {
        Request {
            request_type: RequestType::Disconnect,
            auto_commit: false,
            command_options: 0,
            parts: Parts::default(),
        }
    }

    /// Adds the statement context that echoes the statement sequence info
    /// of the connection, if the connection holds one.
    pub fn add_ssi(&mut self, conn: &ConnectionState)
        ensures
            final(self)@ == (RequestView {
                parts: old(self)@.parts + first_parts(conn@),
                ..old(self)@
            }),
    {
        match conn.ssi() {
            None => {
                assert(self@.parts + first_parts(conn@) =~= self@.parts);
            },
            Some(ssi) => {
                let mut stmt_ctx = StatementContext::new();
                stmt_ctx.set_statement_sequence_info(ssi.clone());
                self.parts.push(
                    Part::new(PartKind::StatementContext, Argument::StatementContext(stmt_ctx)),
                );
                assert(self@.parts =~= old(self)@.parts + first_parts(conn@));
            },
        }
    }

    /// Adds a part behind the others.
    pub fn push(&mut self, part: Part)
        ensures
            final(self)@ == (RequestView { parts: old(self)@.parts.push(part@), ..old(self)@ }),
    {
        self.parts.push(part);
    }

    /// The type of the request.
    pub fn request_type(&self) -> (r: RequestType)
        ensures
            r == self@.request_type,
    {
        self.request_type
    }

    /// The parts of the request.
    pub fn parts(&self) -> (r: &Parts)
        ensures
            r@ == self@.parts,
    {
        &self.parts
    }

    /// Size of the segment: its header and its parts.
    pub fn seg_size(&self, o_par_md: Option<&[ParameterDescriptor]>) -> (r: Result<
        usize,
        HdbError,
    >)
        ensures
            match r {
                Ok(n) => segment_size(self@, descriptors_view(o_par_md)) == Ok::<_, HdbError>(
                    n as int,
                ) && 24 <= n <= MAX_SEGMENT_SIZE,
                Err(e) => segment_size(self@, descriptors_view(o_par_md)) == Err::<int, _>(e),
            },
    {
        if self.parts.len() > MAX_PARTS {
            return Err(HdbError::Impl(ImplError::TooLarge));
        }
        let ghost parts = self@.parts;
        let ghost md = descriptors_view(o_par_md);
        let mut len: usize = SEGMENT_HEADER_SIZE;
        let mut i: usize = 0;
        while i < self.parts.len()
            invariant
                i <= self.parts@.len(),
                parts == self.parts@,
                parts == self@.parts,
                parts.len() <= MAX_PARTS,
                md == descriptors_view(o_par_md),
                24 <= len <= MAX_SEGMENT_SIZE,
                segment_check(parts, md, i as nat) == Ok::<_, HdbError>(len as int),
            decreases self.parts@.len() - i,
        {
            proof {
                assert((i + 1 - 1) as nat == i as nat);
            }
            let ghost next = segment_check(parts, md, (i + 1) as nat);
            let step: Result<usize, HdbError> = match self.parts.get(i).ready(o_par_md) {
                Err(e) => Err(e),
                Ok(n) => if n > MAX_SEGMENT_SIZE - len {
                    Err(HdbError::Impl(ImplError::TooLarge))
                } else {
                    Ok(len + n)
                },
            };
            match step {
                Err(e) => {
                    proof {
                        assert(next == Err::<int, _>(e));
                        lemma_segment_failure(parts, md, (i + 1) as nat, parts.len());
                    }
                    return Err(e);
                },
                Ok(t) => {
                    len = t;
                },
            }
            i = i + 1;
        }
        Ok(len)
    }

    /// Length in bytes of the variable part of the message: the message
    /// without its header.
    pub fn varpart_size(&self, o_par_md: Option<&[ParameterDescriptor]>) -> (r: Result<
        u32,
        HdbError,
    >)
        ensures
            match r {
                Ok(n) => segment_size(self@, descriptors_view(o_par_md)) == Ok::<_, HdbError>(
                    n as int,
                ),
                Err(e) => segment_size(self@, descriptors_view(o_par_md)) == Err::<int, _>(e),
            },
    {
        let len: usize = self.seg_size(o_par_md)?;
        Ok(len as u32)
    }

    /// Appends the header of the segment.
    fn emit_segment_header(&self, size: u32, w: &mut Vec<u8>)
        requires
            self@.parts.len() <= MAX_PARTS,
            size <= MAX_SEGMENT_SIZE,
        ensures
            final(w)@ == old(w)@ + segment_header(self@, size as int),
    {
        write_i32(w, size as i32);
        write_i32(w, 0);
        write_i16(w, self.parts.len() as i16);
        write_i16(w, 1);
        write_i8(w, 1);
        write_i8(w, self.request_type.to_i8());
        write_i8(
            w,
            if self.auto_commit {
                1
            } else {
                0
            },
        );
        write_u8(w, self.command_options);
        emit_zeros(8, w);
        assert(w@ =~= old(w)@ + segment_header(self@, size as int));
    }

    /// Appends the parts, with `budget` bytes to spend on them.
    fn emit_parts(&self, budget: u32, o_par_md: Option<&[ParameterDescriptor]>, w: &mut Vec<u8>)
        requires
            segment_check(self@.parts, descriptors_view(o_par_md), self@.parts.len()) == Ok::<
                _,
                HdbError,
            >(budget + 24),
        ensures
            final(w)@ == old(w)@ + parts_wire(
                self@.parts,
                descriptors_view(o_par_md),
                budget as int,
                self@.parts.len(),
            ),
    {
        let ghost parts = self@.parts;
        let ghost md = descriptors_view(o_par_md);
        let mut remaining_bufsize: u32 = budget;
        let mut i: usize = 0;
        proof {
            assert(w@ =~= old(w)@ + parts_wire(parts, md, budget as int, 0));
            lemma_segment_prefix(parts, md, 0, parts.len());
        }
        while i < self.parts.len()
            invariant
                i <= self.parts@.len(),
                parts == self.parts@,
                md == descriptors_view(o_par_md),
                segment_check(parts, md, parts.len()) == Ok::<_, HdbError>(budget + 24),
                segment_check(parts, md, i as nat) is Ok,
                remaining_bufsize == budget + 24 - segment_check(parts, md, i as nat)->Ok_0,
                w@ == old(w)@ + parts_wire(parts, md, budget as int, i as nat),
            decreases self.parts@.len() - i,
        {
            proof {
                assert((i + 1 - 1) as nat == i as nat);
                lemma_segment_prefix(parts, md, i as nat, parts.len());
                lemma_segment_prefix(parts, md, (i + 1) as nat, parts.len());
            }
            let ghost left_before = remaining_bufsize as int;
            match self.parts.get(i).emit(remaining_bufsize, o_par_md, w) {
                Ok(left) => {
                    remaining_bufsize = left;
                },
                Err(_) => {
                    proof {
                        assert(false);
                    }
                },
            }
            proof {
                lemma_append(
                    old(w)@,
                    parts_wire(parts, md, budget as int, i as nat),
                    part_wire(parts[i as int], md, left_before),
                );
            }
            i = i + 1;
        }
    }

    /// Appends the bytes of the request as they go over the wire in the
    /// session `session_id` under the sequence number `seq_number`. Fails,
    /// and writes nothing, if the request cannot be sent.
    pub fn serialize_impl(
        &self,
        session_id: i64,
        seq_number: i32,
        o_par_md: Option<&[ParameterDescriptor]>,
        w: &mut Vec<u8>,
    ) -> (r: Result<(), HdbError>)
        ensures
            match r {
                Ok(()) => segment_size(self@, descriptors_view(o_par_md)) matches Ok(size)
                    && final(w)@ == old(w)@ + request_wire(
                    self@,
                    descriptors_view(o_par_md),
                    session_id,
                    seq_number,
                ) && final(w)@.len() == old(w)@.len() + 32 + size,
                Err(e) => segment_size(self@, descriptors_view(o_par_md)) == Err::<int, _>(e)
                    && final(w)@ == old(w)@,
            },
    {
        let varpart_size: u32 = self.varpart_size(o_par_md)?;
        let ghost v = self@;
        let ghost md = descriptors_view(o_par_md);
        let ghost size = varpart_size as int;
        proof {
            lemma_segment_nonneg(v.parts, md, v.parts.len());
        }
        emit_message_header(session_id, seq_number, varpart_size, w);
        self.emit_segment_header(varpart_size, w);
        self.emit_parts(varpart_size - SEGMENT_HEADER_SIZE as u32, o_par_md, w);
        proof {
            lemma_append(
                old(w)@,
                message_header(session_id, seq_number, size),
                segment_header(v, size),
            );
            lemma_append(
                old(w)@,
                message_header(session_id, seq_number, size) + segment_header(v, size),
                parts_wire(v.parts, md, size - 24, v.parts.len()),
            );
            lemma_request_len(v, md, session_id, seq_number);
        }
        Ok(())
    }

    /// Appends the bytes of the request as they go over the wire on a
    /// connection, under the sequence number that follows the last one of
    /// the connection. Fails, and changes nothing, if the request cannot be
    /// sent or the connection has used up its sequence numbers.
    pub fn serialize(
        &self,
        conn: &mut ConnectionState,
        o_par_md: Option<&[ParameterDescriptor]>,
        w: &mut Vec<u8>,
    ) -> (r: Result<(), HdbError>)
        ensures
            match r {
                Ok(()) => old(conn)@.seq_number < i32::MAX && final(conn)@ == after_request(
                    old(conn)@,
                ) && segment_size(self@, descriptors_view(o_par_md)) is Ok && final(w)@ == old(w)@
                    + request_wire(
                    self@,
                    descriptors_view(o_par_md),
                    old(conn)@.session_id,
                    (old(conn)@.seq_number + 1) as i32,
                ),
                Err(e) => final(w)@ == old(w)@ && final(conn)@ == old(conn)@ && (if old(
                    conn,
                )@.seq_number == i32::MAX {
                    e == HdbError::Impl(ImplError::SequenceNumbersExhausted)
                } else {
                    segment_size(self@, descriptors_view(o_par_md)) == Err::<int, _>(e)
                }),
            },
    {
        if !conn.has_seq_number() {
            return Err(HdbError::Impl(ImplError::SequenceNumbersExhausted));
        }
        let _ = self.seg_size(o_par_md)?;
        let session_id: i64 = conn.session_id();
        let seq_number: i32 = conn.next_seq_number();
        match self.serialize_impl(session_id, seq_number, o_par_md, w) {
            Ok(()) => Ok(()),
            Err(e) => {
                proof {
                    assert(false);
                }
                Err(e)
            },
        }
    }
}

/// The kinds of messages that are read.
#[derive(Clone, Copy, Debug, PartialEq, Eq, Structural)]
pub enum MsgType {
    Reply,
}

/// A message that was read.
#[derive(Debug, PartialEq, Eq)]
pub enum Message {
    Request(Request),
    Reply(Reply),
}

/// What the rest of the header of a segment holds.
#[derive(Clone, Copy, Debug, PartialEq, Eq, Structural)]
pub enum Kind {
    Request,
    Reply,
    Error,
}

/// The kind of segment that a number stands for.
pub open spec fn kind_of(val: i8) -> Result<Kind, HdbError> {
    if val == 1 {
        Ok(Kind::Request)
    } else if val == 2 {
        Ok(Kind::Reply)
    } else if val == 5 {
        Ok(Kind::Error)
    } else {
        Err(HdbError::Protocol(ProtocolError::UnknownSegmentKind(val)))
    }
}

impl Kind {
    /// The segment kind with this number; another number is a protocol error.
    pub fn from_i8(val: i8) -> (r: Result<Kind, HdbError>)
        ensures
            match r {
                Ok(k) => kind_of(val) == Ok::<_, HdbError>(k),
                Err(e) => kind_of(val) == Err::<Kind, _>(e),
            },
    {
        match val {
            1 => Ok(Kind::Request),
            2 => Ok(Kind::Reply),
            5 => Ok(Kind::Error),
            _ => Err(HdbError::Protocol(ProtocolError::UnknownSegmentKind(val))),
        }
    }
}

/// A reply of the server.
#[derive(Debug, PartialEq, Eq)]
pub struct Reply {
    session_id: i64,
    seq_number: i32,
    type_: ReplyType,
    parts: Parts,
}

/// A reply as the model sees it.
pub struct ReplyView {
    pub session_id: i64,
    pub seq_number: i32,
    pub type_: ReplyType,
    pub parts: Seq<PartView>,
}

impl View for Reply {
    type V = ReplyView;

    closed spec fn view(&self) -> ReplyView {
        ReplyView {
            session_id: self.session_id,
            seq_number: self.seq_number,
            type_: self.type_,
            parts: self.parts@,
        }
    }
}

/// A message as the model sees it.
pub enum MessageView {
    Request(RequestView),
    Reply(ReplyView),
}

impl View for Message {
    type V = MessageView;

    open spec fn view(&self) -> MessageView {
        match self {
            Message::Request(r) => MessageView::Request(r@),
            Message::Reply(r) => MessageView::Reply(r@),
        }
    }
}

/// What the headers of a message and its segment say.
pub struct HeaderRead {
    pub no_of_parts: i16,
    pub message: MessageView,
    pub end: int,
}

/// What follows the kind in the header of the segment of a request: request
/// type, auto-commit, command options, eight unused bytes.
pub open spec fn request_rest_at(s: Seq<u8>, pos: int, no_of_parts: i16) -> Result<
    HeaderRead,
    HdbError,
> {
    match get_i8(s, pos) {
        Err(e) => Err(e),
        Ok((t, p1)) => match RequestType::read(t) {
            Err(e) => Err(e),
            Ok(request_type) => match get_i8(s, p1) {
                Err(e) => Err(e),
                Ok((ac, p2)) => match get_u8(s, p2) {
                    Err(e) => Err(e),
                    Ok((command_options, p3)) => match get_skip(s, p3, 8) {
                        Err(e) => Err(e),
                        Ok(end) => Ok(
                            HeaderRead {
                                no_of_parts,
                                message: MessageView::Request(
                                    RequestView {
                                        request_type,
                                        auto_commit: ac != 0,
                                        command_options,
                                        parts: Seq::<PartView>::empty(),
                                    },
                                ),
                                end,
                            },
                        ),
                    },
                },
            },
        },
    }
}

/// What follows the kind in the header of the segment of a reply: an unused
/// byte, the reply type, eight unused bytes.
pub open spec fn reply_rest_at(
    s: Seq<u8>,
    pos: int,
    no_of_parts: i16,
    session_id: i64,
    seq_number: i32,
) -> Result<HeaderRead, HdbError> {
    match get_skip(s, pos, 1) {
        Err(e) => Err(e),
        Ok(p1) => match get_i16(s, p1) {
            Err(e) => Err(e),
            Ok((t, p2)) => match ReplyType::read(t) {
                Err(e) => Err(e),
                Ok(type_) => match get_skip(s, p2, 8) {
                    Err(e) => Err(e),
                    Ok(end) => Ok(
                        HeaderRead {
                            no_of_parts,
                            message: MessageView::Reply(
                                ReplyView {
                                    session_id,
                                    seq_number,
                                    type_,
                                    parts: Seq::<PartView>::empty(),
                                },
                            ),
                            end,
                        },
                    ),
                },
            },
        },
    }
}

/// What the bytes at `pos` say of the header of the segment, given what the
/// header of the message said.
pub open spec fn segment_header_at(s: Seq<u8>, pos: int, session_id: i64, seq_number: i32)
    -> Result<HeaderRead, HdbError> {
    match get_i32(s, pos) {
        Err(e) => Err(e),
        Ok((_, p1)) => match get_i32(s, p1) {
            Err(e) => Err(e),
            Ok((_, p2)) => match get_i16(s, p2) {
                Err(e) => Err(e),
                Ok((no_of_parts, p3)) => match get_i16(s, p3) {
                    Err(e) => Err(e),
                    Ok((_, p4)) => match get_i8(s, p4) {
                        Err(e) => Err(e),
                        Ok((k, p5)) => match kind_of(k) {
                            Err(e) => Err(e),
                            Ok(Kind::Request) => request_rest_at(s, p5, no_of_parts),
                            Ok(_) => reply_rest_at(s, p5, no_of_parts, session_id, seq_number),
                        },
                    },
                },
            },
        },
    }
}

/// What the bytes at `pos` say of the headers of a message and its segment.
/// A message must hold exactly one segment.
pub open spec fn header_at(s: Seq<u8>, pos: int) -> Result<HeaderRead, HdbError> {
    match get_i64(s, pos) {
        Err(e) => Err(e),
        Ok((session_id, p1)) => match get_i32(s, p1) {
            Err(e) => Err(e),
            Ok((seq_number, p2)) => match get_u32(s, p2) {
                Err(e) => Err(e),
                Ok((_, p3)) => match get_u32(s, p3) {
                    Err(e) => Err(e),
                    Ok((_, p4)) => match get_i16(s, p4) {
                        Err(e) => Err(e),
                        Ok((no_of_segs, p5)) => if no_of_segs != 1 {
                            Err(HdbError::Protocol(ProtocolError::SegmentCount(no_of_segs)))
                        } else {
                            match get_skip(s, p5, 10) {
                                Err(e) => Err(e),
                                Ok(p6) => segment_header_at(s, p6, session_id, seq_number),
                            }
                        },
                    },
                },
            },
        },
    }
}

/// Number of parts that a header announces; a negative number announces
/// none.
pub open spec fn part_count(n: i16) -> nat {
    if n > 0 {
        n as nat
    } else {
        0
    }
}

/// What a buffer says of a reply: the headers, and the parts that they
/// announce.
pub open spec fn reply_at(ctx: ParseContext, s: Seq<u8>) -> Result<ReplyView, HdbError> {
    match header_at(s, 0) {
        Err(e) => Err(e),
        Ok(h) => match h.message {
            MessageView::Request(_) => Err(HdbError::Protocol(ProtocolError::RequestFound)),
            MessageView::Reply(r) => match parts_at(ctx, s, h.end, part_count(h.no_of_parts)) {
                Err(e) => Err(e),
                Ok((parts, _)) => Ok(ReplyView { parts, ..r }),
            },
        },
    }
}

/// Reads the header of a message and the header of its segment.
pub fn parse_message_and_sequence_header(b: &[u8], pos: usize) -> (r: Result<
    (i16, Message, usize),
    HdbError,
>)
    ensures
        match r {
            Ok((n, m, end)) => header_at(b@, pos as int) == Ok::<_, HdbError>(
                HeaderRead { no_of_parts: n, message: m@, end: end as int },
            ),
            Err(e) => header_at(b@, pos as int) == Err::<HeaderRead, _>(e),
        },
{
    // MESSAGE HEADER: 32 bytes
    let (session_id, p1) = take_i64(b, pos)?;
    let (packet_seq_number, p2) = take_i32(b, p1)?;
    let (_, p3) = take_u32(b, p2)?;
    let (_, p4) = take_u32(b, p3)?;
    let (no_of_segs, p5) = take_i16(b, p4)?;
    if no_of_segs != 1 {
        return Err(HdbError::Protocol(ProtocolError::SegmentCount(no_of_segs)));
    }
    let p6: usize = skip_bytes(b, p5, 10)?;
    // SEGMENT HEADER: 24 bytes
    let (_, q1) = take_i32(b, p6)?;
    let (_, q2) = take_i32(b, q1)?;
    let (no_of_parts, q3) = take_i16(b, q2)?;
    let (_, q4) = take_i16(b, q3)?;
    let (k, q5) = take_i8(b, q4)?;
    let seg_kind: Kind = Kind::from_i8(k)?;
    match seg_kind {
        Kind::Request => {
            let (t, r1) = take_i8(b, q5)?;
            let request_type: RequestType = RequestType::from_i8(t)?;
            let (ac, r2) = take_i8(b, r1)?;
            let (command_options, r3) = take_u8(b, r2)?;
            let end: usize = skip_bytes(b, r3, 8)?;
            Ok(
                (
                    no_of_parts,
                    Message::Request(
                        Request {
                            request_type,
                            auto_commit: ac != 0,
                            command_options,
                            parts: Parts::default(),
                        },
                    ),
                    end,
                ),
            )
        },
        Kind::Reply | Kind::Error => {
            let r1: usize = skip_bytes(b, q5, 1)?;
            let (t, r2) = take_i16(b, r1)?;
            let rt: ReplyType = ReplyType::from_i16(t)?;
            let end: usize = skip_bytes(b, r2, 8)?;
            Ok((no_of_parts, Message::Reply(Reply::new(session_id, packet_seq_number, rt)), end))
        },
    }
}

/// Number of bytes of the message whose header starts the buffer: what the
/// header says of the size of what follows it, and the 32 bytes of the
/// header itself.
pub fn message_size(header: &[u8]) -> (r: Result<usize, HdbError>)
    ensures
        match get_u32(header@, 12) {
            Ok((v, _)) => if v + 32 <= usize::MAX {
                r == Ok::<usize, HdbError>((v + 32) as usize)
            } else {
                r == Err::<usize, _>(HdbError::Impl(ImplError::TooLarge))
            },
            Err(e) => r == Err::<usize, _>(e),
        },
{
    let (varpart_size, _) = take_u32(header, 12)?;
    match (varpart_size as usize).checked_add(MESSAGE_HEADER_SIZE as usize) {
        Some(n) => Ok(n),
        None => Err(HdbError::Impl(ImplError::TooLarge)),
    }
}

/// Whether a part of kind error is among parts.
pub open spec fn has_error(parts: Seq<PartView>) -> bool {
    exists|i: int| 0 <= i < parts.len() && (#[trigger] parts[i]).kind == PartKind::Error
}

/// The index of the first part of kind error.
pub open spec fn is_first_error(parts: Seq<PartView>, i: int) -> bool {
    &&& 0 <= i < parts.len()
    &&& parts[i].kind == PartKind::Error
    &&& forall|j: int| 0 <= j < i ==> (#[trigger] parts[j]).kind != PartKind::Error
}

/// The error that a part of kind error stands for.
pub open spec fn is_error_of(e: HdbError, arg: ArgumentView) -> bool {
    match arg.data {
        ArgumentData::Errors(v) => if arg.kind == PartKind::Error {
            e matches HdbError::DbMessage(errors) && views(errors@) == v
        } else {
            e == HdbError::Protocol(ProtocolError::InconsistentErrorPart)
        },
        _ => e == HdbError::Protocol(ProtocolError::InconsistentErrorPart),
    }
}

impl Reply {
    /// A reply without parts.
    pub fn new(session_id: i64, seq_number: i32, type_: ReplyType) -> (r: Reply)
        ensures
            r@ == (ReplyView { session_id, seq_number, type_, parts: Seq::<PartView>::empty() }),
    {
        Reply { session_id, seq_number, type_, parts: Parts::default() }
    }

    /// The session that the reply names.
    pub fn session_id(&self) -> (r: i64)
        ensures
            r == self@.session_id,
    {
        self.session_id
    }

    /// The sequence number of the packet: that of the request which the
    /// reply answers.
    pub fn seq_number(&self) -> (r: i32)
        ensures
            r == self@.seq_number,
    {
        self.seq_number
    }

    /// The type of the reply.
    pub fn reply_type(&self) -> (r: ReplyType)
        ensures
            r == self@.type_,
    {
        self.type_
    }

    /// Adds a part behind the others.
    pub fn push(&mut self, part: Part)
        ensures
            final(self)@ == (ReplyView { parts: old(self)@.parts.push(part@), ..old(self)@ }),
    {
        self.parts.push(part);
    }

    /// The parts of the reply.
    pub fn parts(&self) -> (r: &Parts)
        ensures
            r@ == self@.parts,
    {
        &self.parts
    }

    /// The parts of the reply, without the reply.
    pub fn into_parts(self) -> (r: Parts)
        ensures
            r@ == self@.parts,
    {
        self.parts
    }

    /// Reads a reply from the bytes of a message. The metadata of the result
    /// set and the descriptors of the parameters are those of the prepared
    /// statement that was executed, if one was; `o_rs` is the result set for
    /// which rows were fetched, if the request was a fetch.
    pub fn parse(
        o_rs_md: Option<&Arc<ResultSetMetadata>>,
        o_par_md: Option<&[ParameterDescriptor]>,
        o_rs: Option<&ResultSet>,
        b: &[u8],
    ) -> (r: Result<Reply, HdbError>)
        ensures
            match r {
                Ok(reply) => reply_at(context_of(o_rs_md, o_par_md, o_rs), b@) == Ok::<
                    _,
                    HdbError,
                >(reply@),
                Err(e) => reply_at(context_of(o_rs_md, o_par_md, o_rs), b@) == Err::<
                    ReplyView,
                    _,
                >(e),
            },
    {
        let (no_of_parts, msg, start) = parse_message_and_sequence_header(b, 0)?;
        let ghost ctx = context_of(o_rs_md, o_par_md, o_rs);
        match msg {
            Message::Request(_) => Err(HdbError::Protocol(ProtocolError::RequestFound)),
            Message::Reply(mut msg) => {
                let n: usize = if no_of_parts > 0 {
                    no_of_parts as usize
                } else {
                    0
                };
                let ghost head = msg@;
                let mut p: usize = start;
                let mut i: usize = 0;
                while i < n
                    invariant
                        i <= n,
                        n == part_count(no_of_parts),
                        ctx == context_of(o_rs_md, o_par_md, o_rs),
                        msg@ == (ReplyView { parts: msg@.parts, ..head }),
                        header_at(b@, 0) == Ok::<_, HdbError>(
                            HeaderRead {
                                no_of_parts,
                                message: MessageView::Reply(head),
                                end: start as int,
                            },
                        ),
                        parts_at(ctx, b@, start as int, i as nat) == Ok::<_, HdbError>(
                            (msg@.parts, p as int),
                        ),
                    decreases n - i,
                {
                    proof {
                        assert((i + 1 - 1) as nat == i as nat);
                    }
                    let ghost next = parts_at(ctx, b@, start as int, (i + 1) as nat);
                    let (part, q) = match Part::parse(
                        &mut msg.parts,
                        o_rs_md,
                        o_par_md,
                        o_rs,
                        b,
                        p,
                    ) {
                        Ok(t) => t,
                        Err(e) => {
                            proof {
                                assert(next == Err::<(Seq<PartView>, int), _>(e));
                                lemma_parts_failure(
                                    ctx,
                                    b@,
                                    start as int,
                                    (i + 1) as nat,
                                    n as nat,
                                );
                            }
                            return Err(e);
                        },
                    };
                    msg.push(part);
                    p = q;
                    i = i + 1;
                }
                Ok(msg)
            },
        }
    }

    /// Checks that the reply is of the type that was expected, if one was.
    pub fn assert_expected_fc(&self, expected_fc: Option<ReplyType>) -> (r: Result<(), HdbError>)
        ensures
            match r {
                Ok(()) => expected_fc matches Some(fc) ==> fc == self@.type_,
                Err(e) => expected_fc matches Some(fc) && fc != self@.type_ && e
                    == HdbError::Protocol(
                    ProtocolError::UnexpectedReplyType(self@.type_.code()),
                ),
            },
    {
        match expected_fc {
            None => Ok(()),
            Some(fc) => {
                if self.type_.to_i16() == fc.to_i16() {
                    proof {
                        crate::reply_type::lemma_reply_type_codes(self.type_, fc.code());
                        crate::reply_type::lemma_reply_type_codes(fc, fc.code());
                    }
                    Ok(())
                } else {
                    Err(HdbError::Protocol(ProtocolError::UnexpectedReplyType(self.type_.to_i16())))
                }
            },
        }
    }

    /// Takes the first part of kind error out of the reply, if there is
    /// one, and fails with the errors that it holds.
    pub fn assert_no_error(&mut self) -> (r: Result<(), HdbError>)
        ensures
            final(self)@ == (ReplyView { parts: final(self)@.parts, ..old(self)@ }),
            match r {
                Ok(()) => !has_error(old(self)@.parts) && final(self)@ == old(self)@,
                Err(e) => exists|i: int|
                    is_first_error(old(self)@.parts, i) && is_error_of(e, old(self)@.parts[i].arg)
                        && final(self)@.parts == old(self)@.parts.update(
                        i,
                        old(self)@.parts.last(),
                    ).drop_last(),
            },
    {
        match self.parts.position(PartKind::Error) {
            None => Ok(()),
            Some(idx) => {
                let err_part: Part = self.parts.swap_remove(idx);
                proof {
                    assert(is_first_error(old(self)@.parts, idx as int));
                }
                match err_part.into_elements() {
                    (_, Argument::Error(vec)) => Err(HdbError::DbMessage(vec)),
                    _ => Err(HdbError::Protocol(ProtocolError::InconsistentErrorPart)),
                }
            },
        }
    }
}

/// What the parts of a reply have come to so far: the state of the session
/// and the return values.
pub struct Digest {
    pub conn: ConnectionView,
    pub values: Seq<ReturnValueView>,
}

/// The result set of which only metadata and id have arrived: the server
/// holds its rows, and the first fetch is still to come.
pub open spec fn unfetched(id: u64, metadata: Seq<crate::parts::resultset_metadata::FieldView>)
    -> ResultSetView {
    ResultSetView {
        id,
        metadata,
        rows: Seq::<crate::parts::row::RowView>::empty(),
        attributes: PartAttributes(FIRST_PACKET),
        closed: false,
        received: false,
    }
}

/// The id that the part at an index holds, if it is a result-set id.
pub open spec fn id_at(parts: Seq<PartView>, i: int) -> Option<u64> {
    if 0 <= i < parts.len() {
        crate::argument::id_of(parts[i].arg)
    } else {
        None
    }
}

/// What the parts from index `i` on come to, taken in the order in which
/// they arrived.
///
/// A statement context and transaction flags change the state of the
/// session. Execution results, a result set and output parameters are return
/// values. Result-set metadata must be followed by a result-set id, and the
/// two are the return value of a result set that is still to be fetched.
/// Every other part is passed over. An error comes with the state of the
/// session that the parts before it have led to.
pub open spec fn digest_from(parts: Seq<PartView>, i: int, d: Digest) -> Result<
    Digest,
    (HdbError, ConnectionView),
>
    decreases parts.len() - i,
{
    if i < 0 || i >= parts.len() {
        Ok(d)
    } else {
        let arg = parts[i].arg;
        match arg.data {
            ArgumentData::ExecutionResults(v) => digest_from(
                parts,
                i + 1,
                Digest {
                    values: d.values.push(ReturnValueView::AffectedRows(numbers(v))),
                    ..d
                },
            ),
            ArgumentData::ResultSet(rs) => digest_from(
                parts,
                i + 1,
                Digest { values: d.values.push(ReturnValueView::ResultSet(rs)), ..d },
            ),
            ArgumentData::OutputParameters(o) => digest_from(
                parts,
                i + 1,
                Digest { values: d.values.push(ReturnValueView::OutputParameters(o)), ..d },
            ),
            ArgumentData::ResultSetMetadata(m) => match id_at(parts, i + 1) {
                Some(id) => digest_from(
                    parts,
                    i + 2,
                    Digest {
                        values: d.values.push(ReturnValueView::ResultSet(unfetched(id, m))),
                        ..d
                    },
                ),
                None => Err((HdbError::Evaluation(EvaluationError::MissingResultSetId), d.conn)),
            },
            ArgumentData::Options(m) => if arg.kind == PartKind::StatementContext {
                digest_from(parts, i + 1, Digest { conn: with_statement_context(d.conn, m), ..d })
            } else if arg.kind == PartKind::TransactionFlags {
                match with_flags(d.conn, m, m.len()) {
                    Err(x) => Err(x),
                    Ok(c) => digest_from(parts, i + 1, Digest { conn: c, ..d }),
                }
            } else {
                digest_from(parts, i + 1, d)
            },
            _ => digest_from(parts, i + 1, d),
        }
    }
}

/// The outcome that the type of a reply calls for.
pub open spec fn classify(t: ReplyType, values: Seq<ReturnValueView>) -> Result<
    ResponseView,
    HdbError,
> {
    match t {
        ReplyType::Select | ReplyType::SelectForUpdate => resultset_of(values),
        ReplyType::Ddl | ReplyType::Commit | ReplyType::Rollback => success_of(values),
        ReplyType::Insert | ReplyType::Update | ReplyType::Delete => rows_affected_of(values),
        ReplyType::DbProcedureCall | ReplyType::DbProcedureCallWithResult => Ok(
            ResponseView::MultipleReturnValues(values),
        ),
        _ => Err(HdbError::Evaluation(EvaluationError::UnexpectedReplyType)),
    }
}

/// The outcome of a reply, or why it has none, and the state of the session
/// after it.
pub open spec fn response_of(reply: ReplyView, conn: ConnectionView) -> Result<
    (ResponseView, ConnectionView),
    (HdbError, ConnectionView),
> {
    match digest_from(
        reply.parts,
        0,
        Digest { conn, values: Seq::<ReturnValueView>::empty() },
    ) {
        Err(x) => Err(x),
        Ok(d) => match classify(reply.type_, d.values) {
            Err(e) => Err((e, d.conn)),
            Ok(r) => Ok((r, d.conn)),
        },
    }
}

impl Reply {
    /// Takes what the parts of the reply say of the session into the state
    /// of the connection, and collects the return values that they hold.
    /// Where that fails, the connection keeps what the parts before the
    /// failure said.
    pub fn digest(self, conn: &mut ConnectionState) -> (r: Result<
        Vec<InternalReturnValue>,
        HdbError,
    >)
        ensures
            match r {
                Ok(values) => digest_from(
                    self@.parts,
                    0,
                    Digest { conn: old(conn)@, values: Seq::<ReturnValueView>::empty() },
                ) == Ok::<_, (HdbError, ConnectionView)>(
                    Digest { conn: final(conn)@, values: views(values@) },
                ),
                Err(e) => digest_from(
                    self@.parts,
                    0,
                    Digest { conn: old(conn)@, values: Seq::<ReturnValueView>::empty() },
                ) == Err::<Digest, _>((e, final(conn)@)),
            },
    {
        let ghost all = self@.parts;
        let ghost start = Digest { conn: conn@, values: Seq::<ReturnValueView>::empty() };
        let mut parts: Parts = self.parts;
        let mut int_return_values: Vec<InternalReturnValue> = Vec::new();
        let ghost mut i: int = 0;
        proof {
            lemma_views_empty(int_return_values@);
            assert(all.skip(0) =~= all);
        }
        while parts.len() > 0
            invariant
                0 <= i <= all.len(),
                parts@ == all.skip(i),
                all == self@.parts,
                start == (Digest { conn: old(conn)@, values: Seq::<ReturnValueView>::empty() }),
                digest_from(all, 0, start) == digest_from(
                    all,
                    i,
                    Digest { conn: conn@, values: views(int_return_values@) },
                ),
            decreases parts@.len(),
        {
            let ghost d = Digest { conn: conn@, values: views(int_return_values@) };
            proof {
                assert(all.skip(i)[0] == all[i]);
                assert(all.skip(i).skip(1) =~= all.skip(i + 1));
                if i + 1 < all.len() {
                    assert(all.skip(i + 1)[0] == all[i + 1]);
                    assert(all.skip(i + 1).skip(1) =~= all.skip(i + 2));
                }
            }
            let part: Part = match parts.pop_first() {
                Some(p) => p,
                None => {
                    proof {
                        assert(false);
                    }
                    return Err(HdbError::Evaluation(EvaluationError::UnexpectedReplyType));
                },
            };
            let (_, arg) = part.into_elements();
            match arg {
                Argument::ExecutionResult(vra) => {
                    let v = InternalReturnValue::AffectedRows(vra);
                    proof {
                        lemma_views_push(int_return_values@, v);
                        i = i + 1;
                    }
                    int_return_values.push(v);
                },
                Argument::StatementContext(stmt_ctx) => {
                    conn.evaluate_statement_context(&stmt_ctx);
                    proof {
                        i = i + 1;
                    }
                },
                Argument::TransactionFlags(flags) => {
                    conn.evaluate_ta_flags(&flags)?;
                    proof {
                        i = i + 1;
                    }
                },
                Argument::ResultSet(rs) => {
                    let v = InternalReturnValue::ResultSet(rs);
                    proof {
                        lemma_views_push(int_return_values@, v);
                        i = i + 1;
                    }
                    int_return_values.push(v);
                },
                Argument::OutputParameters(op) => {
                    let v = InternalReturnValue::OutputParameters(op);
                    proof {
                        lemma_views_push(int_return_values@, v);
                        i = i + 1;
                    }
                    int_return_values.push(v);
                },
                Argument::ResultSetMetadata(rsm) => {
                    let next: Option<Part> = parts.pop_first();
                    let rs_id: u64 = match next {
                        Some(p) => match p.into_elements() {
                            (_, Argument::ResultSetId(rs_id)) => rs_id,
                            _ => {
                                return Err(
                                    HdbError::Evaluation(EvaluationError::MissingResultSetId),
                                );
                            },
                        },
                        None => {
                            return Err(HdbError::Evaluation(EvaluationError::MissingResultSetId));
                        },
                    };
                    let rs = ResultSet::new(
                        PartAttributes::new(FIRST_PACKET),
                        rs_id,
                        Arc::new(rsm),
                    );
                    let v = InternalReturnValue::ResultSet(rs);
                    proof {
                        lemma_views_push(int_return_values@, v);
                        i = i + 2;
                    }
                    int_return_values.push(v);
                },
                _ => {
                    proof {
                        i = i + 1;
                    }
                },
            }
        }
        Ok(int_return_values)
    }

    /// Turns the reply into the outcome of the call, and takes what the
    /// reply says of the session into the state of the connection. Where the
    /// reply has no outcome, the connection keeps what the parts before the
    /// failure said.
    pub fn into_hdbresponse(self, conn: &mut ConnectionState) -> (r: Result<HdbResponse, HdbError>)
        ensures
            match r {
                Ok(x) => response_of(self@, old(conn)@) == Ok::<_, (HdbError, ConnectionView)>(
                    (x@, final(conn)@),
                ),
                Err(e) => response_of(self@, old(conn)@) == Err::<
                    (ResponseView, ConnectionView),
                    _,
                >((e, final(conn)@)),
            },
    {
        let type_: ReplyType = self.type_;
        let int_return_values: Vec<InternalReturnValue> = self.digest(conn)?;
        // re-pack the return values into the outcome that the reply calls for
        match type_ {
            ReplyType::Select | ReplyType::SelectForUpdate => resultset(int_return_values),
            ReplyType::Ddl | ReplyType::Commit | ReplyType::Rollback => success(int_return_values),
            ReplyType::Insert | ReplyType::Update | ReplyType::Delete => rows_affected(
                int_return_values,
            ),
            ReplyType::DbProcedureCall | ReplyType::DbProcedureCallWithResult => {
                multiple_return_values(int_return_values)
            },
            _ => Err(HdbError::Evaluation(EvaluationError::UnexpectedReplyType)),
        }
    }
}

} // verus!
