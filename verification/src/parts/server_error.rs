//! Errors that the server reports inside a reply.

use crate::error::HdbError;
use crate::repeat::{
    lemma_repeat_failure, lemma_repeat_step, lemma_views_empty, lemma_views_push, repeat_at, views,
};
use crate::text::{cesu8_to_string, decoded_text};
use crate::wire::{
    agrees_view, get_bytes, get_i32, get_i8, parse_bytes, take_i32, take_i8,
};
use vstd::prelude::*;

verus! {

/// How bad the server thinks it is.
#[derive(Clone, Copy, Debug, PartialEq, Eq, Structural)]
pub enum Severity {
    Warning,
    Error,
    Fatal,
    /// A severity byte this driver does not know.
    Unknown(i8),
}

/// The severity that a byte stands for.
pub open spec fn severity_of(v: i8) -> Severity {
    if v == 0 {
        Severity::Warning
    } else if v == 1 {
        Severity::Error
    } else if v == 2 {
        Severity::Fatal
    } else {
        Severity::Unknown(v)
    }
}

impl Severity {
    /// The severity that the number stands for.
    pub fn from_i8(v: i8) -> (r: Severity)
        ensures
            r == severity_of(v),
    {
        if v == 0 {
            Severity::Warning
        } else if v == 1 {
            Severity::Error
        } else if v == 2 {
            Severity::Fatal
        } else {
            Severity::Unknown(v)
        }
    }

    /// The number that stands for the severity.
    pub fn to_i8(&self) -> (r: i8)
        ensures
            r == (match self {
                Severity::Warning => 0i8,
                Severity::Error => 1i8,
                Severity::Fatal => 2i8,
                Severity::Unknown(v) => *v,
            }),
    {
        match self {
            Severity::Warning => 0,
            Severity::Error => 1,
            Severity::Fatal => 2,
            Severity::Unknown(v) => *v,
        }
    }
}

/// One error as the server sent it.
#[derive(Clone, Debug, PartialEq, Eq)]
pub struct ServerError {
    pub code: i32,
    pub position: i32,
    pub severity: Severity,
    pub sqlstate: Vec<u8>,
    pub text: String,
}

/// An error of the server as the model sees it.
pub struct ServerErrorView {
    pub code: i32,
    pub position: i32,
    pub severity: Severity,
    pub sqlstate: Seq<u8>,
    pub text: Seq<char>,
}

impl View for ServerError {
    type V = ServerErrorView;

    open spec fn view(&self) -> ServerErrorView {
        ServerErrorView {
            code: self.code,
            position: self.position,
            severity: self.severity,
            sqlstate: self.sqlstate@,
            text: self.text@,
        }
    }
}

/// Length of the SQL state.
pub const SQLSTATE_LENGTH: usize = 5;

/// What the bytes at `pos` say of one error: code, position, length of the
/// text, severity, five bytes of SQL state, and the text.
pub open spec fn server_error_at(s: Seq<u8>, pos: int) -> Result<(ServerErrorView, int), HdbError> {
    match get_i32(s, pos) {
        Err(e) => Err(e),
        Ok((code, p1)) => match get_i32(s, p1) {
            Err(e) => Err(e),
            Ok((position, p2)) => match get_i32(s, p2) {
                Err(e) => Err(e),
                Ok((text_length, p3)) => match get_i8(s, p3) {
                    Err(e) => Err(e),
                    Ok((severity, p4)) => match get_bytes(s, p4, 5) {
                        Err(e) => Err(e),
                        Ok((sqlstate, p5)) => if text_length < 0 {
                            Err(
                                HdbError::Protocol(
                                    crate::error::ProtocolError::NegativeLength,
                                ),
                            )
                        } else {
                            match get_bytes(s, p5, text_length as int) {
                                Err(e) => Err(e),
                                Ok((bytes, p6)) => match decoded_text(bytes) {
                                    Err(e) => Err(e),
                                    Ok(text) => Ok(
                                        (
                                            ServerErrorView {
                                                code,
                                                position,
                                                severity: severity_of(severity),
                                                sqlstate,
                                                text,
                                            },
                                            p6,
                                        ),
                                    ),
                                },
                            }
                        },
                    },
                },
            },
        },
    }
}

/// Reads one error of a list.
pub open spec fn server_error_reader() -> spec_fn(Seq<u8>, int) -> Result<
    (ServerErrorView, int),
    HdbError,
> {
    |s: Seq<u8>, p: int| server_error_at(s, p)
}

/// What the bytes at `pos` say of `count` errors.
pub open spec fn server_errors_at(s: Seq<u8>, pos: int, count: nat) -> Result<
    (Seq<ServerErrorView>, int),
    HdbError,
> {
    repeat_at(server_error_reader(), s, pos, count)
}

impl ServerError {
    /// Reads one error.
    pub fn parse_one(b: &[u8], pos: usize) -> (r: Result<(ServerError, usize), HdbError>)
        ensures
            agrees_view(r, server_error_at(b@, pos as int)),
    {
        let (code, p1) = take_i32(b, pos)?;
        let (position, p2) = take_i32(b, p1)?;
        let (text_length, p3) = take_i32(b, p2)?;
        let (severity, p4) = take_i8(b, p3)?;
        let (sqlstate, p5) = parse_bytes(b, p4, SQLSTATE_LENGTH)?;
        if text_length < 0 {
            return Err(HdbError::Protocol(crate::error::ProtocolError::NegativeLength));
        }
        let (bytes, p6) = parse_bytes(b, p5, text_length as usize)?;
        let text: String = cesu8_to_string(bytes.as_slice())?;
        Ok(
            (
                ServerError {
                    code,
                    position,
                    severity: Severity::from_i8(severity),
                    sqlstate,
                    text,
                },
                p6,
            ),
        )
    }

    /// Reads `no_of_args` errors.
    pub fn parse(no_of_args: usize, b: &[u8], pos: usize) -> (r: Result<
        (Vec<ServerError>, usize),
        HdbError,
    >)
        ensures
            match r {
                Ok((v, p)) => server_errors_at(b@, pos as int, no_of_args as nat) == Ok::<
                    _,
                    HdbError,
                >((views(v@), p as int)),
                Err(e) => server_errors_at(b@, pos as int, no_of_args as nat) == Err::<
                    (Seq<ServerErrorView>, int),
                    _,
                >(e),
            },
    {
        let mut out: Vec<ServerError> = Vec::new();
        let mut p: usize = pos;
        let mut i: usize = 0;
        proof {
            lemma_views_empty(out@);
        }
        while i < no_of_args
            invariant
                i <= no_of_args,
                repeat_at(server_error_reader(), b@, pos as int, i as nat) == Ok::<_, HdbError>(
                    (views(out@), p as int),
                ),
            decreases no_of_args - i,
        {
            proof {
                lemma_repeat_step(server_error_reader(), b@, pos as int, i as nat);
                assert(server_error_reader()(b@, p as int) == server_error_at(b@, p as int));
            }
            let ghost next = repeat_at(server_error_reader(), b@, pos as int, (i + 1) as nat);
            let (x, q) = match ServerError::parse_one(b, p) {
                Ok(t) => t,
                Err(e) => {
                    proof {
                        assert(next == Err::<(Seq<ServerErrorView>, int), _>(e));
                        lemma_repeat_failure(
                            server_error_reader(),
                            b@,
                            pos as int,
                            (i + 1) as nat,
                            no_of_args as nat,
                        );
                    }
                    return Err(e);
                },
            };
            proof {
                lemma_views_push(out@, x);
            }
            out.push(x);
            p = q;
            i = i + 1;
        }
        Ok((out, p))
    }
}

} // verus!
