//! The kinds of requests.

use crate::error::{HdbError, ProtocolError};
use vstd::prelude::*;

verus! {

/// What a request asks the server to do.
#[derive(Clone, Copy, Debug, PartialEq, Eq, Structural)]
pub enum RequestType {
    /// Execute an SQL command given as text.
    ExecuteDirect,
    /// Prepare a statement.
    Prepare,
    /// Execute a prepared statement.
    Execute,
    /// Read a chunk of a large object.
    ReadLob,
    /// Write a chunk of a large object.
    WriteLob,
    /// First step of the authentication.
    Authenticate,
    /// Second step of the authentication.
    Connect,
    /// Commit the transaction.
    Commit,
    /// Roll the transaction back.
    Rollback,
    /// Close a result set.
    CloseResultSet,
    /// Drop a prepared statement.
    DropStatementId,
    /// Fetch the next rows of a result set.
    FetchNext,
    /// End the session.
    Disconnect,
}

impl RequestType {
    /// The number that stands for the variant on the wire.
    pub open spec fn code(self) -> i8 {
        match self {
            RequestType::ExecuteDirect => 2,
            RequestType::Prepare => 3,
            RequestType::Execute => 13,
            RequestType::ReadLob => 16,
            RequestType::WriteLob => 17,
            RequestType::Authenticate => 65,
            RequestType::Connect => 66,
            RequestType::Commit => 67,
            RequestType::Rollback => 68,
            RequestType::CloseResultSet => 69,
            RequestType::DropStatementId => 70,
            RequestType::FetchNext => 71,
            RequestType::Disconnect => 77,
        }
    }

    /// The variant that a number stands for, if it stands for one.
    pub open spec fn of_code(val: i8) -> Option<RequestType> {
        if val == 2 {
            Some(RequestType::ExecuteDirect)
        } else if val == 3 {
            Some(RequestType::Prepare)
        } else if val == 13 {
            Some(RequestType::Execute)
        } else if val == 16 {
            Some(RequestType::ReadLob)
        } else if val == 17 {
            Some(RequestType::WriteLob)
        } else if val == 65 {
            Some(RequestType::Authenticate)
        } else if val == 66 {
            Some(RequestType::Connect)
        } else if val == 67 {
            Some(RequestType::Commit)
        } else if val == 68 {
            Some(RequestType::Rollback)
        } else if val == 69 {
            Some(RequestType::CloseResultSet)
        } else if val == 70 {
            Some(RequestType::DropStatementId)
        } else if val == 71 {
            Some(RequestType::FetchNext)
        } else if val == 77 {
            Some(RequestType::Disconnect)
        } else {
            None
        }
    }

    /// What reading a number as a variant gives.
    pub open spec fn read(val: i8) -> Result<RequestType, HdbError> {
        match RequestType::of_code(val) {
            Some(k) => Ok(k),
            None => Err(HdbError::Protocol(ProtocolError::UnknownRequestType(val))),
        }
    }

    /// The number of the type on the wire.
    pub fn to_i8(&self) -> (r: i8)
        ensures
            r == self.code(),
    {
        match self {
            RequestType::ExecuteDirect => 2,
            RequestType::Prepare => 3,
            RequestType::Execute => 13,
            RequestType::ReadLob => 16,
            RequestType::WriteLob => 17,
            RequestType::Authenticate => 65,
            RequestType::Connect => 66,
            RequestType::Commit => 67,
            RequestType::Rollback => 68,
            RequestType::CloseResultSet => 69,
            RequestType::DropStatementId => 70,
            RequestType::FetchNext => 71,
            RequestType::Disconnect => 77,
        }
    }

    /// The variant that a number stands for; a number that stands for none
    /// is an error.
    pub fn from_i8(val: i8) -> (r: Result<RequestType, HdbError>)
        ensures
            r == RequestType::read(val),
    {
        if val == 2 {
            Ok(RequestType::ExecuteDirect)
        } else if val == 3 {
            Ok(RequestType::Prepare)
        } else if val == 13 {
            Ok(RequestType::Execute)
        } else if val == 16 {
            Ok(RequestType::ReadLob)
        } else if val == 17 {
            Ok(RequestType::WriteLob)
        } else if val == 65 {
            Ok(RequestType::Authenticate)
        } else if val == 66 {
            Ok(RequestType::Connect)
        } else if val == 67 {
            Ok(RequestType::Commit)
        } else if val == 68 {
            Ok(RequestType::Rollback)
        } else if val == 69 {
            Ok(RequestType::CloseResultSet)
        } else if val == 70 {
            Ok(RequestType::DropStatementId)
        } else if val == 71 {
            Ok(RequestType::FetchNext)
        } else if val == 77 {
            Ok(RequestType::Disconnect)
        } else {
            Err(HdbError::Protocol(ProtocolError::UnknownRequestType(val)))
        }
    }
}

/// A variant is the one that its number stands for, and a number stands
/// for the variant whose number it is.
pub proof fn lemma_request_type_codes(k: RequestType, val: i8)
    ensures
        RequestType::of_code(k.code()) == Some(k),
        RequestType::of_code(val) == Some(k) ==> k.code() == val,
{
}

} // verus!
