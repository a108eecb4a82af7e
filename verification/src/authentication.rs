//! Logging on: the two requests of the handshake, and what the reply to the
//! second says of the session. What the fields of the handshake hold is the
//! caller's part.

use crate::argument::{Argument, ArgumentData};
use crate::conn_core::{with_flags, with_statement_context, ConnectionState, ConnectionView};
use crate::error::HdbError;
use crate::exchange::part_of;
use crate::message::{first_parts, Reply, ReplyView, Request, RequestView};
use crate::part::{last_is, Part, PartView, Parts};
use crate::partkind::PartKind;
use crate::parts::client_info::ClientInfo;
use crate::parts::option_part::{OptionPart, Options};
use crate::parts::option_value::OptionData;
use crate::request_type::RequestType;
use vstd::prelude::*;

verus! {

/// The request that opens the handshake with the fields of its first step.
pub fn authenticate_request(conn: &ConnectionState, fields: OptionPart) -> (r: Request)
    ensures
        r@ == (RequestView {
            request_type: RequestType::Authenticate,
            auto_commit: false,
            command_options: 0,
            parts: first_parts(conn@).push(
                part_of(PartKind::Authentication, ArgumentData::Options(fields@)),
            ),
        }),
{
    let mut request = Request::new(conn, RequestType::Authenticate, false, 0);
    request.push(Part::new(PartKind::Authentication, Argument::Auth(fields)));
    request
}

/// The request that closes the handshake: the fields of its second step,
/// what the client says of its capabilities, and what it says of itself.
pub fn connect_request(
    conn: &ConnectionState,
    fields: OptionPart,
    connect_options: OptionPart,
    client_info: ClientInfo,
) -> (r: Request)
    ensures
        r@ == (RequestView {
            request_type: RequestType::Connect,
            auto_commit: false,
            command_options: 0,
            parts: first_parts(conn@).push(
                part_of(PartKind::Authentication, ArgumentData::Options(fields@)),
            ).push(
                part_of(PartKind::ConnectOptions, ArgumentData::Options(connect_options@)),
            ).push(part_of(PartKind::ClientInfo, ArgumentData::ClientInfo(client_info@))),
        }),
{
    let mut request = Request::new(conn, RequestType::Connect, false, 0);
    request.push(Part::new(PartKind::Authentication, Argument::Auth(fields)));
    request.push(Part::new(PartKind::ConnectOptions, Argument::ConnectOptions(connect_options)));
    request.push(Part::new(PartKind::ClientInfo, Argument::ClientInfo(client_info)));
    request
}

/// The fields with which the server answers the first step: those of the
/// last part, if that is one of authentication.
pub open spec fn challenge_of(parts: Seq<PartView>) -> Option<Options> {
    if last_is(parts, PartKind::Authentication) && parts.last().arg.kind
        == PartKind::Authentication {
        match parts.last().arg.data {
            ArgumentData::Options(m) => Some(m),
            _ => None,
        }
    } else {
        None
    }
}

/// The fields with which the server answers the first step of the
/// handshake.
pub fn challenge(reply: Reply) -> (r: Option<OptionPart>)
    ensures
        match r {
            Some(o) => challenge_of(reply@.parts) == Some(o@),
            None => challenge_of(reply@.parts) is None,
        },
{
    let mut parts: Parts = reply.into_parts();
    match parts.pop_arg_if_kind(PartKind::Authentication) {
        Some(Argument::Auth(fields)) => Some(fields),
        _ => None,
    }
}

/// What the reply to the second step has come to.
pub struct Connecting {
    pub conn: ConnectionView,
    pub options: Option<Options>,
}

/// What the first `k` parts of the reply to the second step come to, taken
/// from the last to the first: connect options are what the server says of
/// itself, a statement context and transaction flags go into the state of
/// the session. An error comes with the state of the session that the parts
/// before it have led to.
pub open spec fn connecting(parts: Seq<PartView>, k: nat, acc: Connecting) -> Result<
    Connecting,
    (HdbError, ConnectionView),
>
    decreases k,
{
    if k == 0 || k > parts.len() {
        Ok(acc)
    } else {
        let arg = parts[k - 1].arg;
        let rest = (k - 1) as nat;
        match arg.data {
            ArgumentData::Options(m) => if arg.kind == PartKind::ConnectOptions {
                connecting(parts, rest, Connecting { options: Some(m), ..acc })
            } else if arg.kind == PartKind::StatementContext {
                connecting(
                    parts,
                    rest,
                    Connecting { conn: with_statement_context(acc.conn, m), ..acc },
                )
            } else if arg.kind == PartKind::TransactionFlags {
                match with_flags(acc.conn, m, m.len()) {
                    Err(x) => Err(x),
                    Ok(c) => connecting(parts, rest, Connecting { conn: c, ..acc }),
                }
            } else {
                connecting(parts, rest, acc)
            },
            _ => connecting(parts, rest, acc),
        }
    }
}

/// The state of the session once `user` is logged on with this reply: the
/// id of the session is that of the reply, and the connect options are
/// those of the reply, or none at all.
pub open spec fn logged_on(reply: ReplyView, user: Seq<char>, conn: ConnectionView) -> Result<
    ConnectionView,
    (HdbError, ConnectionView),
> {
    match connecting(reply.parts, reply.parts.len(), Connecting { conn, options: None }) {
        Err(x) => Err(x),
        Ok(c) => Ok(
            ConnectionView {
                authenticated_user: Some(user),
                session_id: reply.session_id,
                connect_options: Some(
                    match c.options {
                        Some(m) => m,
                        None => Seq::<(u8, OptionData)>::empty(),
                    },
                ),
                ..c.conn
            },
        ),
    }
}

/// Takes the reply to the second step of the handshake into the state of
/// the connection: from then on `user` is logged on, in the session that
/// the reply names. Where that fails, nobody is logged on, and the
/// connection keeps what the parts before the failure said.
pub fn absorb_connect(user: String, reply: Reply, conn: &mut ConnectionState) -> (r: Result<
    (),
    HdbError,
>)
    ensures
        match r {
            Ok(()) => logged_on(reply@, user@, old(conn)@) == Ok::<_, (HdbError, ConnectionView)>(
                final(conn)@,
            ),
            Err(e) => logged_on(reply@, user@, old(conn)@) == Err::<ConnectionView, _>(
                (e, final(conn)@),
            ),
        },
{
    let ghost all = reply@.parts;
    let ghost start = Connecting { conn: conn@, options: None };
    let session_id: i64 = reply.session_id();
    let mut parts: Parts = reply.into_parts();
    let mut server_options: Option<OptionPart> = None;
    while !parts.is_empty()
        invariant
            parts@.len() <= all.len(),
            parts@ == all.take(parts@.len() as int),
            all == reply@.parts,
            start == (Connecting { conn: old(conn)@, options: None }),
            connecting(all, all.len(), start) == connecting(
                all,
                parts@.len(),
                Connecting {
                    conn: conn@,
                    options: match server_options {
                        Some(o) => Some(o@),
                        None => None,
                    },
                },
            ),
        decreases parts@.len(),
    {
        let ghost k = parts@.len();
        proof {
            assert(all.take(k as int).last() == all[k - 1]);
            assert(all.take(k as int).drop_last() =~= all.take(k - 1));
        }
        match parts.pop_arg() {
            Some(Argument::ConnectOptions(options)) => {
                server_options = Some(options);
            },
            Some(Argument::StatementContext(ctx)) => {
                conn.evaluate_statement_context(&ctx);
            },
            Some(Argument::TransactionFlags(flags)) => {
                conn.evaluate_ta_flags(&flags)?;
            },
            _ => {},
        }
    }
    let options: OptionPart = match server_options {
        Some(o) => o,
        None => OptionPart::new(),
    };
    conn.set_authenticated(user, session_id, options);
    Ok(())
}

} // verus!
