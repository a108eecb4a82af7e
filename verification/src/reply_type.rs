//! The kinds of replies.

use crate::error::{HdbError, ProtocolError};
use vstd::prelude::*;

verus! {

/// What the server says it has done.
#[derive(Clone, Copy, Debug, PartialEq, Eq, Structural)]
pub enum ReplyType {
    /// Nothing in particular.
    Nil,
    /// A data definition was executed.
    Ddl,
    /// Rows were inserted.
    Insert,
    /// Rows were updated.
    Update,
    /// Rows were deleted.
    Delete,
    /// A query was executed.
    Select,
    /// A query that locks its rows was executed.
    SelectForUpdate,
    /// A plan was explained.
    Explain,
    /// A procedure was called.
    DbProcedureCall,
    /// A procedure that returns results was called.
    DbProcedureCallWithResult,
    /// Rows were fetched.
    Fetch,
    /// The transaction was committed.
    Commit,
    /// The transaction was rolled back.
    Rollback,
    /// The session was opened.
    Connect,
    /// A chunk of a large object was written.
    WriteLob,
    /// A chunk of a large object was read.
    ReadLob,
    /// The session was ended.
    Disconnect,
    /// A result set was closed.
    CloseCursor,
    /// A large object was searched.
    FindLob,
    /// A distributed transaction was started.
    XaStart,
    /// A distributed transaction was joined.
    XaJoin,
    /// A distributed transaction was controlled.
    XAControl,
    /// A distributed transaction was prepared.
    XAPrepare,
    /// Distributed transactions were recovered.
    XARecover,
}

impl ReplyType {
    /// The number that stands for the variant on the wire.
    pub open spec fn code(self) -> i16 {
        match self {
            ReplyType::Nil => 0,
            ReplyType::Ddl => 1,
            ReplyType::Insert => 2,
            ReplyType::Update => 3,
            ReplyType::Delete => 4,
            ReplyType::Select => 5,
            ReplyType::SelectForUpdate => 6,
            ReplyType::Explain => 7,
            ReplyType::DbProcedureCall => 8,
            ReplyType::DbProcedureCallWithResult => 9,
            ReplyType::Fetch => 10,
            ReplyType::Commit => 11,
            ReplyType::Rollback => 12,
            ReplyType::Connect => 14,
            ReplyType::WriteLob => 15,
            ReplyType::ReadLob => 16,
            ReplyType::Disconnect => 18,
            ReplyType::CloseCursor => 19,
            ReplyType::FindLob => 20,
            ReplyType::XaStart => 22,
            ReplyType::XaJoin => 23,
            ReplyType::XAControl => 25,
            ReplyType::XAPrepare => 26,
            ReplyType::XARecover => 27,
        }
    }

    /// The variant that a number stands for, if it stands for one.
    pub open spec fn of_code(val: i16) -> Option<ReplyType> {
        if val == 0 {
            Some(ReplyType::Nil)
        } else if val == 1 {
            Some(ReplyType::Ddl)
        } else if val == 2 {
            Some(ReplyType::Insert)
        } else if val == 3 {
            Some(ReplyType::Update)
        } else if val == 4 {
            Some(ReplyType::Delete)
        } else if val == 5 {
            Some(ReplyType::Select)
        } else if val == 6 {
            Some(ReplyType::SelectForUpdate)
        } else if val == 7 {
            Some(ReplyType::Explain)
        } else if val == 8 {
            Some(ReplyType::DbProcedureCall)
        } else if val == 9 {
            Some(ReplyType::DbProcedureCallWithResult)
        } else if val == 10 {
            Some(ReplyType::Fetch)
        } else if val == 11 {
            Some(ReplyType::Commit)
        } else if val == 12 {
            Some(ReplyType::Rollback)
        } else if val == 14 {
            Some(ReplyType::Connect)
        } else if val == 15 {
            Some(ReplyType::WriteLob)
        } else if val == 16 {
            Some(ReplyType::ReadLob)
        } else if val == 18 {
            Some(ReplyType::Disconnect)
        } else if val == 19 {
            Some(ReplyType::CloseCursor)
        } else if val == 20 {
            Some(ReplyType::FindLob)
        } else if val == 22 {
            Some(ReplyType::XaStart)
        } else if val == 23 {
            Some(ReplyType::XaJoin)
        } else if val == 25 {
            Some(ReplyType::XAControl)
        } else if val == 26 {
            Some(ReplyType::XAPrepare)
        } else if val == 27 {
            Some(ReplyType::XARecover)
        } else {
            None
        }
    }

    /// What reading a number as a variant gives.
    pub open spec fn read(val: i16) -> Result<ReplyType, HdbError> {
        match ReplyType::of_code(val) {
            Some(k) => Ok(k),
            None => Err(HdbError::Protocol(ProtocolError::UnknownReplyType(val))),
        }
    }

    /// The number of the type on the wire.
    pub fn to_i16(&self) -> (r: i16)
        ensures
            r == self.code(),
    {
        match self {
            ReplyType::Nil => 0,
            ReplyType::Ddl => 1,
            ReplyType::Insert => 2,
            ReplyType::Update => 3,
            ReplyType::Delete => 4,
            ReplyType::Select => 5,
            ReplyType::SelectForUpdate => 6,
            ReplyType::Explain => 7,
            ReplyType::DbProcedureCall => 8,
            ReplyType::DbProcedureCallWithResult => 9,
            ReplyType::Fetch => 10,
            ReplyType::Commit => 11,
            ReplyType::Rollback => 12,
            ReplyType::Connect => 14,
            ReplyType::WriteLob => 15,
            ReplyType::ReadLob => 16,
            ReplyType::Disconnect => 18,
            ReplyType::CloseCursor => 19,
            ReplyType::FindLob => 20,
            ReplyType::XaStart => 22,
            ReplyType::XaJoin => 23,
            ReplyType::XAControl => 25,
            ReplyType::XAPrepare => 26,
            ReplyType::XARecover => 27,
        }
    }

    /// The variant that a number stands for; a number that stands for none
    /// is an error.
    pub fn from_i16(val: i16) -> (r: Result<ReplyType, HdbError>)
        ensures
            r == ReplyType::read(val),
    {
        if val == 0 {
            Ok(ReplyType::Nil)
        } else if val == 1 {
            Ok(ReplyType::Ddl)
        } else if val == 2 {
            Ok(ReplyType::Insert)
        } else if val == 3 {
            Ok(ReplyType::Update)
        } else if val == 4 {
            Ok(ReplyType::Delete)
        } else if val == 5 {
            Ok(ReplyType::Select)
        } else if val == 6 {
            Ok(ReplyType::SelectForUpdate)
        } else if val == 7 {
            Ok(ReplyType::Explain)
        } else if val == 8 {
            Ok(ReplyType::DbProcedureCall)
        } else if val == 9 {
            Ok(ReplyType::DbProcedureCallWithResult)
        } else if val == 10 {
            Ok(ReplyType::Fetch)
        } else if val == 11 {
            Ok(ReplyType::Commit)
        } else if val == 12 {
            Ok(ReplyType::Rollback)
        } else if val == 14 {
            Ok(ReplyType::Connect)
        } else if val == 15 {
            Ok(ReplyType::WriteLob)
        } else if val == 16 {
            Ok(ReplyType::ReadLob)
        } else if val == 18 {
            Ok(ReplyType::Disconnect)
        } else if val == 19 {
            Ok(ReplyType::CloseCursor)
        } else if val == 20 {
            Ok(ReplyType::FindLob)
        } else if val == 22 {
            Ok(ReplyType::XaStart)
        } else if val == 23 {
            Ok(ReplyType::XaJoin)
        } else if val == 25 {
            Ok(ReplyType::XAControl)
        } else if val == 26 {
            Ok(ReplyType::XAPrepare)
        } else if val == 27 {
            Ok(ReplyType::XARecover)
        } else {
            Err(HdbError::Protocol(ProtocolError::UnknownReplyType(val)))
        }
    }
}

/// A variant is the one that its number stands for, and a number stands
/// for the variant whose number it is.
pub proof fn lemma_reply_type_codes(k: ReplyType, val: i16)
    ensures
        ReplyType::of_code(k.code()) == Some(k),
        ReplyType::of_code(val) == Some(k) ==> k.code() == val,
{
}

} // verus!
