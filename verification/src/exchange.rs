//! One request and its reply: the requests that the driver itself builds,
//! and what it does with the replies to them.

use crate::argument::{
    context_of, descriptors_view, Argument, ArgumentData, ArgumentView, ParseContext,
};
use crate::conn_core::{
    after_request, with_flags, with_statement_context, ConnectionState, ConnectionView,
};
use crate::error::{HdbError, ImplError, IoError, ProtocolError};
use crate::hdb_response::{HdbResponse, ReturnValueView};
use crate::message::{
    digest_from, first_parts, has_error, is_error_of, is_first_error, reply_at, request_wire,
    response_of, segment_size, Digest, Reply, Request, RequestView, HOLD_CURSORS_OVER_COMMIT,
};
use crate::part::{Part, PartView, Parts};
use crate::partkind::PartKind;
use crate::parts::parameter_descriptor::ParameterDescriptor;
use crate::parts::read_lob_reply::ReadLobReplyView;
use crate::parts::read_lob_request::ReadLobRequest;
use crate::parts::resultset::{ResultSet, ResultSetView};
use crate::parts::resultset_metadata::ResultSetMetadata;
use crate::reply_type::ReplyType;
use crate::request_type::RequestType;
use crate::types::lob::{absorbed, units, LobHandle, LobView};
use std::sync::Arc;
use vstd::prelude::*;

verus! {

/// A part whose kind is that of its argument.
pub open spec fn part_of(kind: PartKind, data: ArgumentData) -> PartView {
    PartView { kind, arg: ArgumentView { kind, data } }
}

/// What reading and checking the bytes of a reply comes to: a reply with a
/// part of kind error fails with the errors of the server, and so does a
/// reply of another type than the one that was expected, if one was.
pub open spec fn is_received(
    ctx: ParseContext,
    expected_fc: Option<ReplyType>,
    s: Seq<u8>,
    r: Result<Reply, HdbError>,
) -> bool {
    match reply_at(ctx, s) {
        Err(e) => r == Err::<Reply, _>(e),
        Ok(reply) => if has_error(reply.parts) {
            r matches Err(e) && exists|i: int|
                is_first_error(reply.parts, i) && is_error_of(e, reply.parts[i].arg)
        } else if expected_fc matches Some(fc) && fc != reply.type_ {
            r matches Err(e) && e == HdbError::Protocol(
                ProtocolError::UnexpectedReplyType(reply.type_.code()),
            )
        } else {
            r matches Ok(x) && x@ == reply
        },
    }
}

/// Reads the reply to a request, and checks it.
pub fn receive(
    o_rs_md: Option<&Arc<ResultSetMetadata>>,
    o_par_md: Option<&[ParameterDescriptor]>,
    o_rs: Option<&ResultSet>,
    expected_fc: Option<ReplyType>,
    b: &[u8],
) -> (r: Result<Reply, HdbError>)
    ensures
        is_received(context_of(o_rs_md, o_par_md, o_rs), expected_fc, b@, r),
{
    let mut reply: Reply = Reply::parse(o_rs_md, o_par_md, o_rs, b)?;
    reply.assert_no_error()?;
    reply.assert_expected_fc(expected_fc)?;
    Ok(reply)
}

/// Whether an error ends the use of the connection: an error of the
/// transport or of the protocol does, and so does a part of a kind that
/// cannot be read.
pub open spec fn is_fatal(e: HdbError) -> bool {
    match e {
        HdbError::Io(_) => true,
        HdbError::Protocol(_) => true,
        HdbError::Impl(ImplError::UnknownPartKind(_)) => true,
        _ => false,
    }
}

/// The state of a connection after an exchange on it has ended in `r`: an
/// error that ends the use of the connection poisons it.
pub open spec fn settled<T>(c: ConnectionView, r: Result<T, HdbError>) -> ConnectionView {
    match r {
        Err(e) => if is_fatal(e) {
            ConnectionView { poisoned: true, ..c }
        } else {
            c
        },
        Ok(_) => c,
    }
}

/// What the transport has come to: no reply, and the exchange fails with
/// an error of the transport; or the bytes of a reply, and the exchange ends
/// as reading and checking them ends.
pub open spec fn is_answered(
    got: Option<Vec<u8>>,
    ctx: ParseContext,
    expected_fc: Option<ReplyType>,
    r: Result<Reply, HdbError>,
) -> bool {
    match got {
        None => r == Err::<Reply, _>(HdbError::Io(IoError::TransportFailed)),
        Some(b) => is_received(ctx, expected_fc, b@, r),
    }
}

/// Why an exchange fails before anything is sent, if it does: the
/// connection is poisoned or out of sequence numbers, or the request cannot
/// be sent.
pub open spec fn refusal(
    request: RequestView,
    par_md: Option<Seq<crate::parts::parameter_descriptor::ParameterDescriptorView>>,
    c: ConnectionView,
) -> Option<HdbError> {
    if c.poisoned {
        Some(HdbError::Io(IoError::Poisoned))
    } else if c.seq_number == i32::MAX {
        Some(HdbError::Impl(ImplError::SequenceNumbersExhausted))
    } else {
        match segment_size(request, par_md) {
            Err(e) => Some(e),
            Ok(_) => None,
        }
    }
}

impl Request {
    /// Sends the request and reads the reply. `transport` takes the bytes
    /// of the request to the server and brings back the bytes of the reply,
    /// or nothing if it fails.
    ///
    /// A request that cannot be sent, or a connection that is poisoned,
    /// fails before the transport is called, and the state of the connection
    /// stays what it was. Otherwise the request goes out under the next
    /// sequence number; a failure of the transport, a reply that breaks the
    /// protocol and a part of a kind that cannot be read poison the
    /// connection.
    pub fn send_and_receive_detailed<F: FnOnce(Vec<u8>) -> Option<Vec<u8>>>(
        &self,
        rs_md: Option<&Arc<ResultSetMetadata>>,
        par_md: Option<&[ParameterDescriptor]>,
        o_rs: Option<&ResultSet>,
        conn: &mut ConnectionState,
        expected_fc: Option<ReplyType>,
        transport: F,
    ) -> (r: Result<Reply, HdbError>)
        requires
            forall|bytes: Vec<u8>| call_requires(transport, (bytes,)),
        ensures
            match refusal(self@, descriptors_view(par_md), old(conn)@) {
                Some(e) => r == Err::<Reply, _>(e) && final(conn)@ == old(conn)@,
                None => final(conn)@ == settled(after_request(old(conn)@), r) && exists|
                    sent: Vec<u8>,
                    got: Option<Vec<u8>>,
                |
                    sent@ == request_wire(
                        self@,
                        descriptors_view(par_md),
                        old(conn)@.session_id,
                        (old(conn)@.seq_number + 1) as i32,
                    ) && call_ensures(transport, (sent,), got) && is_answered(
                        got,
                        context_of(rs_md, par_md, o_rs),
                        expected_fc,
                        r,
                    ),
            },
    {
        if conn.is_poisoned() {
            return Err(HdbError::Io(IoError::Poisoned));
        }
        let mut w: Vec<u8> = Vec::new();
        match self.serialize(conn, par_md, &mut w) {
            Ok(()) => {},
            Err(e) => {
                return Err(e);
            },
        }
        let ghost sent = w;
        proof {
            assert(w@ =~= request_wire(
                self@,
                descriptors_view(par_md),
                old(conn)@.session_id,
                (old(conn)@.seq_number + 1) as i32,
            ));
        }
        let got: Option<Vec<u8>> = transport(w);
        let r: Result<Reply, HdbError> = match &got {
            None => Err(HdbError::Io(IoError::TransportFailed)),
            Some(b) => receive(rs_md, par_md, o_rs, expected_fc, b.as_slice()),
        };
        match &r {
            Err(HdbError::Io(_)) | Err(HdbError::Protocol(_)) | Err(
                HdbError::Impl(ImplError::UnknownPartKind(_)),
            ) => {
                conn.poison();
            },
            _ => {},
        }
        proof {
            assert(call_ensures(transport, (sent,), got));
            assert(is_answered(got, context_of(rs_md, par_md, o_rs), expected_fc, r));
        }
        r
    }

    /// Sends the request and reads the reply, for a request that needs no
    /// metadata and fetches no rows.
    pub fn send_and_receive<F: FnOnce(Vec<u8>) -> Option<Vec<u8>>>(
        &self,
        conn: &mut ConnectionState,
        expected_fc: Option<ReplyType>,
        transport: F,
    ) -> (r: Result<Reply, HdbError>)
        requires
            forall|bytes: Vec<u8>| call_requires(transport, (bytes,)),
        ensures
            match refusal(self@, None, old(conn)@) {
                Some(e) => r == Err::<Reply, _>(e) && final(conn)@ == old(conn)@,
                None => final(conn)@ == settled(after_request(old(conn)@), r) && exists|
                    sent: Vec<u8>,
                    got: Option<Vec<u8>>,
                |
                    sent@ == request_wire(
                        self@,
                        None,
                        old(conn)@.session_id,
                        (old(conn)@.seq_number + 1) as i32,
                    ) && call_ensures(transport, (sent,), got) && is_answered(
                        got,
                        context_of(None, None, None),
                        expected_fc,
                        r,
                    ),
            },
    {
        self.send_and_receive_detailed(None, None, None, conn, expected_fc, transport)
    }
}

/// What turning a reply into the outcome of a call comes to. A reply that
/// could not be had leaves the state of the connection as it is; one that
/// could be had is turned into its outcome, and what it says of the session
/// is taken into the state of the connection, up to the part at which that
/// fails, if it does.
pub open spec fn is_digested(
    reply: Result<Reply, HdbError>,
    before: ConnectionView,
    after: ConnectionView,
    r: Result<HdbResponse, HdbError>,
) -> bool {
    match reply {
        Err(e) => r == Err::<HdbResponse, _>(e) && after == before,
        Ok(x) => match response_of(x@, before) {
            Ok((response, c)) => r matches Ok(y) && y@ == response && after == c,
            Err((e, c)) => r == Err::<HdbResponse, _>(e) && after == c,
        },
    }
}

impl Request {
    /// Sends the request, reads the reply, and turns the reply into the
    /// outcome of the call.
    pub fn send_and_get_response<F: FnOnce(Vec<u8>) -> Option<Vec<u8>>>(
        &self,
        rs_md: Option<&Arc<ResultSetMetadata>>,
        par_md: Option<&[ParameterDescriptor]>,
        conn: &mut ConnectionState,
        expected_fc: Option<ReplyType>,
        transport: F,
    ) -> (r: Result<HdbResponse, HdbError>)
        requires
            forall|bytes: Vec<u8>| call_requires(transport, (bytes,)),
        ensures
            match refusal(self@, descriptors_view(par_md), old(conn)@) {
                Some(e) => r == Err::<HdbResponse, _>(e) && final(conn)@ == old(conn)@,
                None => exists|sent: Vec<u8>, got: Option<Vec<u8>>, reply: Result<Reply, HdbError>|
                    sent@ == request_wire(
                        self@,
                        descriptors_view(par_md),
                        old(conn)@.session_id,
                        (old(conn)@.seq_number + 1) as i32,
                    ) && call_ensures(transport, (sent,), got) && is_answered(
                        got,
                        context_of(rs_md, par_md, None),
                        expected_fc,
                        reply,
                    ) && is_digested(
                        reply,
                        settled(after_request(old(conn)@), reply),
                        final(conn)@,
                        r,
                    ),
            },
    {
        let reply: Result<Reply, HdbError> = self.send_and_receive_detailed(
            rs_md,
            par_md,
            None,
            conn,
            expected_fc,
            transport,
        );
        let ghost answer = reply;
        let ghost before = conn@;
        let r: Result<HdbResponse, HdbError> = match reply {
            Err(e) => Err(e),
            Ok(x) => x.into_hdbresponse(conn),
        };
        proof {
            if refusal(self@, descriptors_view(par_md), old(conn)@) is None {
                assert(is_digested(answer, before, conn@, r));
            }
        }
        r
    }
}

/// The request that executes an SQL command given as text.
pub fn execute_direct_request(conn: &ConnectionState, sql: &str) -> (r: Request)
    ensures
        r@ == (RequestView {
            request_type: RequestType::ExecuteDirect,
            auto_commit: conn@.auto_commit,
            command_options: HOLD_CURSORS_OVER_COMMIT,
            parts: first_parts(conn@).push(part_of(PartKind::Command, ArgumentData::Text(sql@))),
        }),
{
    let mut request = Request::new(
        conn,
        RequestType::ExecuteDirect,
        conn.is_auto_commit(),
        HOLD_CURSORS_OVER_COMMIT,
    );
    request.push(Part::new(PartKind::Command, Argument::Command(sql.to_owned())));
    request
}

/// The request that fetches the next rows of a result set: as many as the
/// connection is set to fetch at once.
pub fn fetch_request(conn: &ConnectionState, resultset_id: u64) -> (r: Request)
    ensures
        r@ == (RequestView {
            request_type: RequestType::FetchNext,
            auto_commit: conn@.auto_commit,
            command_options: 0,
            parts: first_parts(conn@).push(
                part_of(PartKind::ResultSetId, ArgumentData::Number(resultset_id)),
            ).push(part_of(PartKind::FetchSize, ArgumentData::Number(conn@.fetch_size as u64))),
        }),
{
    let mut request = Request::new(conn, RequestType::FetchNext, conn.is_auto_commit(), 0);
    request.push(Part::new(PartKind::ResultSetId, Argument::ResultSetId(resultset_id)));
    request.push(Part::new(PartKind::FetchSize, Argument::FetchSize(conn.fetch_size())));
    request
}

/// The request that closes a result set.
pub fn close_request(conn: &ConnectionState, resultset_id: u64) -> (r: Request)
    ensures
        r@ == (RequestView {
            request_type: RequestType::CloseResultSet,
            auto_commit: conn@.auto_commit,
            command_options: 0,
            parts: first_parts(conn@).push(
                part_of(PartKind::ResultSetId, ArgumentData::Number(resultset_id)),
            ),
        }),
{
    let mut request = Request::new(conn, RequestType::CloseResultSet, conn.is_auto_commit(), 0);
    request.push(Part::new(PartKind::ResultSetId, Argument::ResultSetId(resultset_id)));
    request
}

/// The request that reads a chunk of a large object.
pub fn read_lob_request(conn: &ConnectionState, chunk: ReadLobRequest) -> (r: Request)
    ensures
        r@ == (RequestView {
            request_type: RequestType::ReadLob,
            auto_commit: conn@.auto_commit,
            command_options: 0,
            parts: first_parts(conn@).push(
                part_of(PartKind::ReadLobRequest, ArgumentData::ReadLobRequest(chunk)),
            ),
        }),
{
    let mut request = Request::new(conn, RequestType::ReadLob, conn.is_auto_commit(), 0);
    request.push(Part::new(PartKind::ReadLobRequest, Argument::ReadLobRequest(chunk)));
    request
}

/// The request that commits the transaction.
pub fn commit_request(conn: &ConnectionState) -> (r: Request)
    ensures
        r@ == (RequestView {
            request_type: RequestType::Commit,
            auto_commit: conn@.auto_commit,
            command_options: 0,
            parts: first_parts(conn@),
        }),
{
    Request::new(conn, RequestType::Commit, conn.is_auto_commit(), 0)
}

/// The request that rolls the transaction back.
pub fn rollback_request(conn: &ConnectionState) -> (r: Request)
    ensures
        r@ == (RequestView {
            request_type: RequestType::Rollback,
            auto_commit: conn@.auto_commit,
            command_options: 0,
            parts: first_parts(conn@),
        }),
{
    Request::new(conn, RequestType::Rollback, conn.is_auto_commit(), 0)
}

/// Takes what a reply says of the session into the state of the connection,
/// where the outcome of the reply is not asked for: after a close, a drop or
/// a disconnect. Where that fails, the connection keeps what the parts
/// before the failure said.
pub fn absorb_session(reply: Reply, conn: &mut ConnectionState) -> (r: Result<(), HdbError>)
    ensures
        match r {
            Ok(()) => digest_from(
                reply@.parts,
                0,
                Digest { conn: old(conn)@, values: Seq::<ReturnValueView>::empty() },
            ) matches Ok(d) && d.conn == final(conn)@,
            Err(e) => digest_from(
                reply@.parts,
                0,
                Digest { conn: old(conn)@, values: Seq::<ReturnValueView>::empty() },
            ) == Err::<Digest, _>((e, final(conn)@)),
        },
{
    match reply.digest(conn) {
        Ok(_) => Ok(()),
        Err(e) => Err(e),
    }
}

/// A result set and the session it belongs to.
pub struct Fetching {
    pub conn: ConnectionView,
    pub rs: ResultSetView,
}

/// The result set after rows were taken in.
pub open spec fn extended(rs: ResultSetView, fetched: ResultSetView) -> ResultSetView {
    ResultSetView {
        rows: rs.rows + fetched.rows,
        attributes: fetched.attributes,
        received: rs.received || fetched.received,
        ..rs
    }
}

/// What the parts of the reply to a fetch, from index `i` on, do to a
/// result set and its session: rows go into the result set, a statement
/// context and transaction flags into the state of the session. An error
/// comes with what the parts before it have led to.
pub open spec fn fetched_from(parts: Seq<PartView>, i: int, f: Fetching) -> Result<
    Fetching,
    (HdbError, Fetching),
>
    decreases parts.len() - i,
{
    if i < 0 || i >= parts.len() {
        Ok(f)
    } else {
        let arg = parts[i].arg;
        match arg.data {
            ArgumentData::ResultSet(rows) => fetched_from(
                parts,
                i + 1,
                Fetching { rs: extended(f.rs, rows), ..f },
            ),
            ArgumentData::Options(m) => if arg.kind == PartKind::StatementContext {
                fetched_from(
                    parts,
                    i + 1,
                    Fetching { conn: with_statement_context(f.conn, m), ..f },
                )
            } else if arg.kind == PartKind::TransactionFlags {
                match with_flags(f.conn, m, m.len()) {
                    Err((e, c)) => Err((e, Fetching { conn: c, ..f })),
                    Ok(c) => fetched_from(parts, i + 1, Fetching { conn: c, ..f }),
                }
            } else {
                fetched_from(parts, i + 1, f)
            },
            _ => fetched_from(parts, i + 1, f),
        }
    }
}

/// Takes the reply to a fetch into the result set and the state of the
/// connection. Where that fails, both keep what the parts before the failure
/// brought.
pub fn absorb_fetch(rs: &mut ResultSet, reply: Reply, conn: &mut ConnectionState) -> (r: Result<
    (),
    HdbError,
>)
    ensures
        match r {
            Ok(()) => fetched_from(
                reply@.parts,
                0,
                Fetching { conn: old(conn)@, rs: old(rs)@ },
            ) == Ok::<_, (HdbError, Fetching)>(Fetching { conn: final(conn)@, rs: final(rs)@ }),
            Err(e) => fetched_from(
                reply@.parts,
                0,
                Fetching { conn: old(conn)@, rs: old(rs)@ },
            ) == Err::<Fetching, _>((e, Fetching { conn: final(conn)@, rs: final(rs)@ })),
        },
{
    let ghost all = reply@.parts;
    let ghost start = Fetching { conn: conn@, rs: rs@ };
    let mut parts: Parts = reply.into_parts();
    let ghost mut i: int = 0;
    proof {
        assert(all.skip(0) =~= all);
    }
    while parts.len() > 0
        invariant
            0 <= i <= all.len(),
            parts@ == all.skip(i),
            all == reply@.parts,
            start == (Fetching { conn: old(conn)@, rs: old(rs)@ }),
            fetched_from(all, 0, start) == fetched_from(
                all,
                i,
                Fetching { conn: conn@, rs: rs@ },
            ),
        decreases parts@.len(),
    {
        proof {
            assert(all.skip(i)[0] == all[i]);
            assert(all.skip(i).skip(1) =~= all.skip(i + 1));
        }
        match parts.pop_first() {
            Some(part) => {
                let (_, arg) = part.into_elements();
                match arg {
                    Argument::ResultSet(fetched) => {
                        rs.absorb(fetched);
                    },
                    Argument::StatementContext(stmt_ctx) => {
                        conn.evaluate_statement_context(&stmt_ctx);
                    },
                    Argument::TransactionFlags(flags) => {
                        conn.evaluate_ta_flags(&flags)?;
                    },
                    _ => {},
                }
            },
            None => {},
        }
        proof {
            i = i + 1;
        }
    }
    Ok(())
}

/// A large object and the session it belongs to.
pub struct Reading {
    pub conn: ConnectionView,
    pub lob: LobView,
}

/// What a chunk does to a large object, or why the chunk is refused.
pub open spec fn with_chunk(lob: LobView, chunk: ReadLobReplyView) -> Result<LobView, HdbError> {
    if chunk.locator_id != lob.locator_id {
        Err(HdbError::Impl(ImplError::WrongLocator))
    } else if lob.fetched + units(lob.character, chunk.data) > u64::MAX {
        Err(HdbError::Impl(ImplError::TooLarge))
    } else {
        Ok(absorbed(lob, chunk.data, chunk.is_last_data))
    }
}

/// What the parts of the reply to a read of a large object, from index `i`
/// on, do to the object and its session. An error comes with what the parts
/// before it have led to.
pub open spec fn read_from(parts: Seq<PartView>, i: int, f: Reading) -> Result<
    Reading,
    (HdbError, Reading),
>
    decreases parts.len() - i,
{
    if i < 0 || i >= parts.len() {
        Ok(f)
    } else {
        let arg = parts[i].arg;
        match arg.data {
            ArgumentData::ReadLobReply(chunk) => match with_chunk(f.lob, chunk) {
                Err(e) => Err((e, f)),
                Ok(lob) => read_from(parts, i + 1, Reading { lob, ..f }),
            },
            ArgumentData::Options(m) => if arg.kind == PartKind::StatementContext {
                read_from(parts, i + 1, Reading { conn: with_statement_context(f.conn, m), ..f })
            } else if arg.kind == PartKind::TransactionFlags {
                match with_flags(f.conn, m, m.len()) {
                    Err((e, c)) => Err((e, Reading { conn: c, ..f })),
                    Ok(c) => read_from(parts, i + 1, Reading { conn: c, ..f }),
                }
            } else {
                read_from(parts, i + 1, f)
            },
            _ => read_from(parts, i + 1, f),
        }
    }
}

/// Takes the reply to a read of a large object into the handle of the
/// object and the state of the connection. Where that fails, both keep what
/// the parts before the failure brought.
pub fn absorb_lob(lob: &mut LobHandle, reply: Reply, conn: &mut ConnectionState) -> (r: Result<
    (),
    HdbError,
>)
    ensures
        match r {
            Ok(()) => read_from(
                reply@.parts,
                0,
                Reading { conn: old(conn)@, lob: old(lob)@ },
            ) == Ok::<_, (HdbError, Reading)>(Reading { conn: final(conn)@, lob: final(lob)@ }),
            Err(e) => read_from(
                reply@.parts,
                0,
                Reading { conn: old(conn)@, lob: old(lob)@ },
            ) == Err::<Reading, _>((e, Reading { conn: final(conn)@, lob: final(lob)@ })),
        },
{
    let ghost all = reply@.parts;
    let ghost start = Reading { conn: conn@, lob: lob@ };
    let mut parts: Parts = reply.into_parts();
    let ghost mut i: int = 0;
    proof {
        assert(all.skip(0) =~= all);
    }
    while parts.len() > 0
        invariant
            0 <= i <= all.len(),
            parts@ == all.skip(i),
            all == reply@.parts,
            start == (Reading { conn: old(conn)@, lob: old(lob)@ }),
            read_from(all, 0, start) == read_from(all, i, Reading { conn: conn@, lob: lob@ }),
        decreases parts@.len(),
    {
        proof {
            assert(all.skip(i)[0] == all[i]);
            assert(all.skip(i).skip(1) =~= all.skip(i + 1));
        }
        match parts.pop_first() {
            Some(part) => {
                let (_, arg) = part.into_elements();
                match arg {
                    Argument::ReadLobReply(chunk) => {
                        lob.absorb(chunk)?;
                    },
                    Argument::StatementContext(stmt_ctx) => {
                        conn.evaluate_statement_context(&stmt_ctx);
                    },
                    Argument::TransactionFlags(flags) => {
                        conn.evaluate_ta_flags(&flags)?;
                    },
                    _ => {},
                }
            },
            None => {},
        }
        proof {
            i = i + 1;
        }
    }
    Ok(())
}

} // verus!
