//! The kinds of parts.

use crate::error::{HdbError, ImplError};
use vstd::prelude::*;

verus! {

/// What the argument of a part is.
#[derive(Clone, Copy, Debug, PartialEq, Eq, Structural)]
pub enum PartKind {
    /// The text of an SQL command.
    Command,
    /// Rows of a result set.
    ResultSet,
    /// Errors that the server reports.
    Error,
    /// The id of a prepared statement.
    StatementId,
    /// Rows affected, per statement of a batch.
    ExecutionResult,
    /// The id of a result set.
    ResultSetId,
    /// The hosts of the database.
    TopologyInformation,
    /// Where the tables of a statement lie.
    TableLocation,
    /// Request for a chunk of a large object.
    ReadLobRequest,
    /// A chunk of a large object.
    ReadLobReply,
    /// Where in the source of the client a command stems from.
    CommandInfo,
    /// Version and kind of the client.
    ClientContext,
    /// Rows of input parameters.
    Parameters,
    /// Fields of the authentication handshake.
    Authentication,
    /// Options of the session.
    SessionContext,
    /// What the server wants echoed with the next request.
    StatementContext,
    /// How a table is partitioned.
    PartitionInformation,
    /// Output parameters of a procedure call.
    OutputParameters,
    /// Capabilities of client and server.
    ConnectOptions,
    /// Options of a commit.
    CommitOptions,
    /// Options of a fetch.
    FetchOptions,
    /// Number of rows to fetch.
    FetchSize,
    /// Descriptors of the parameters of a statement.
    ParameterMetadata,
    /// Descriptors of the columns of a result set.
    ResultSetMetadata,
    /// Key and value pairs that describe the client.
    ClientInfo,
    /// What happened to the transaction.
    TransactionFlags,
    /// Options of large objects.
    LobFlags,
    /// Options of a distributed transaction.
    XatOptions,
}

impl PartKind {
    /// The number that stands for the variant on the wire.
    pub open spec fn code(self) -> i8 {
        match self {
            PartKind::Command => 3,
            PartKind::ResultSet => 5,
            PartKind::Error => 6,
            PartKind::StatementId => 10,
            PartKind::ExecutionResult => 12,
            PartKind::ResultSetId => 13,
            PartKind::TopologyInformation => 15,
            PartKind::TableLocation => 16,
            PartKind::ReadLobRequest => 17,
            PartKind::ReadLobReply => 18,
            PartKind::CommandInfo => 27,
            PartKind::ClientContext => 29,
            PartKind::Parameters => 32,
            PartKind::Authentication => 33,
            PartKind::SessionContext => 34,
            PartKind::StatementContext => 39,
            PartKind::PartitionInformation => 40,
            PartKind::OutputParameters => 41,
            PartKind::ConnectOptions => 42,
            PartKind::CommitOptions => 43,
            PartKind::FetchOptions => 44,
            PartKind::FetchSize => 45,
            PartKind::ParameterMetadata => 47,
            PartKind::ResultSetMetadata => 48,
            PartKind::ClientInfo => 57,
            PartKind::TransactionFlags => 64,
            PartKind::LobFlags => 68,
            PartKind::XatOptions => 70,
        }
    }

    /// The variant that a number stands for, if it stands for one.
    pub open spec fn of_code(val: i8) -> Option<PartKind> {
        if val == 3 {
            Some(PartKind::Command)
        } else if val == 5 {
            Some(PartKind::ResultSet)
        } else if val == 6 {
            Some(PartKind::Error)
        } else if val == 10 {
            Some(PartKind::StatementId)
        } else if val == 12 {
            Some(PartKind::ExecutionResult)
        } else if val == 13 {
            Some(PartKind::ResultSetId)
        } else if val == 15 {
            Some(PartKind::TopologyInformation)
        } else if val == 16 {
            Some(PartKind::TableLocation)
        } else if val == 17 {
            Some(PartKind::ReadLobRequest)
        } else if val == 18 {
            Some(PartKind::ReadLobReply)
        } else if val == 27 {
            Some(PartKind::CommandInfo)
        } else if val == 29 {
            Some(PartKind::ClientContext)
        } else if val == 32 {
            Some(PartKind::Parameters)
        } else if val == 33 {
            Some(PartKind::Authentication)
        } else if val == 34 {
            Some(PartKind::SessionContext)
        } else if val == 39 {
            Some(PartKind::StatementContext)
        } else if val == 40 {
            Some(PartKind::PartitionInformation)
        } else if val == 41 {
            Some(PartKind::OutputParameters)
        } else if val == 42 {
            Some(PartKind::ConnectOptions)
        } else if val == 43 {
            Some(PartKind::CommitOptions)
        } else if val == 44 {
            Some(PartKind::FetchOptions)
        } else if val == 45 {
            Some(PartKind::FetchSize)
        } else if val == 47 {
            Some(PartKind::ParameterMetadata)
        } else if val == 48 {
            Some(PartKind::ResultSetMetadata)
        } else if val == 57 {
            Some(PartKind::ClientInfo)
        } else if val == 64 {
            Some(PartKind::TransactionFlags)
        } else if val == 68 {
            Some(PartKind::LobFlags)
        } else if val == 70 {
            Some(PartKind::XatOptions)
        } else {
            None
        }
    }

    /// What reading a number as a variant gives.
    pub open spec fn read(val: i8) -> Result<PartKind, HdbError> {
        match PartKind::of_code(val) {
            Some(k) => Ok(k),
            None => Err(HdbError::Impl(ImplError::UnknownPartKind(val))),
        }
    }

    /// The number of the kind on the wire.
    pub fn to_i8(&self) -> (r: i8)
        ensures
            r == self.code(),
    {
        match self {
            PartKind::Command => 3,
            PartKind::ResultSet => 5,
            PartKind::Error => 6,
            PartKind::StatementId => 10,
            PartKind::ExecutionResult => 12,
            PartKind::ResultSetId => 13,
            PartKind::TopologyInformation => 15,
            PartKind::TableLocation => 16,
            PartKind::ReadLobRequest => 17,
            PartKind::ReadLobReply => 18,
            PartKind::CommandInfo => 27,
            PartKind::ClientContext => 29,
            PartKind::Parameters => 32,
            PartKind::Authentication => 33,
            PartKind::SessionContext => 34,
            PartKind::StatementContext => 39,
            PartKind::PartitionInformation => 40,
            PartKind::OutputParameters => 41,
            PartKind::ConnectOptions => 42,
            PartKind::CommitOptions => 43,
            PartKind::FetchOptions => 44,
            PartKind::FetchSize => 45,
            PartKind::ParameterMetadata => 47,
            PartKind::ResultSetMetadata => 48,
            PartKind::ClientInfo => 57,
            PartKind::TransactionFlags => 64,
            PartKind::LobFlags => 68,
            PartKind::XatOptions => 70,
        }
    }

    /// The variant that a number stands for; a number that stands for none
    /// is an error.
    pub fn from_i8(val: i8) -> (r: Result<PartKind, HdbError>)
        ensures
            r == PartKind::read(val),
    {
        if val == 3 {
            Ok(PartKind::Command)
        } else if val == 5 {
            Ok(PartKind::ResultSet)
        } else if val == 6 {
            Ok(PartKind::Error)
        } else if val == 10 {
            Ok(PartKind::StatementId)
        } else if val == 12 {
            Ok(PartKind::ExecutionResult)
        } else if val == 13 {
            Ok(PartKind::ResultSetId)
        } else if val == 15 {
            Ok(PartKind::TopologyInformation)
        } else if val == 16 {
            Ok(PartKind::TableLocation)
        } else if val == 17 {
            Ok(PartKind::ReadLobRequest)
        } else if val == 18 {
            Ok(PartKind::ReadLobReply)
        } else if val == 27 {
            Ok(PartKind::CommandInfo)
        } else if val == 29 {
            Ok(PartKind::ClientContext)
        } else if val == 32 {
            Ok(PartKind::Parameters)
        } else if val == 33 {
            Ok(PartKind::Authentication)
        } else if val == 34 {
            Ok(PartKind::SessionContext)
        } else if val == 39 {
            Ok(PartKind::StatementContext)
        } else if val == 40 {
            Ok(PartKind::PartitionInformation)
        } else if val == 41 {
            Ok(PartKind::OutputParameters)
        } else if val == 42 {
            Ok(PartKind::ConnectOptions)
        } else if val == 43 {
            Ok(PartKind::CommitOptions)
        } else if val == 44 {
            Ok(PartKind::FetchOptions)
        } else if val == 45 {
            Ok(PartKind::FetchSize)
        } else if val == 47 {
            Ok(PartKind::ParameterMetadata)
        } else if val == 48 {
            Ok(PartKind::ResultSetMetadata)
        } else if val == 57 {
            Ok(PartKind::ClientInfo)
        } else if val == 64 {
            Ok(PartKind::TransactionFlags)
        } else if val == 68 {
            Ok(PartKind::LobFlags)
        } else if val == 70 {
            Ok(PartKind::XatOptions)
        } else {
            Err(HdbError::Impl(ImplError::UnknownPartKind(val)))
        }
    }
}

/// A variant is the one that its number stands for, and a number stands
/// for the variant whose number it is.
pub proof fn lemma_partkind_codes(k: PartKind, val: i8)
    ensures
        PartKind::of_code(k.code()) == Some(k),
        PartKind::of_code(val) == Some(k) ==> k.code() == val,
{
}

} // verus!
