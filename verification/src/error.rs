//! The failures a call into the protocol engine can end in.

use crate::parts::server_error::ServerError;
use vstd::prelude::*;

verus! {

/// A contract of the driver itself was violated.
#[derive(Clone, Copy, Debug, PartialEq, Eq, Structural)]
pub enum ImplError {
    /// A column or parameter that cannot be NULL came back as NULL.
    UnexpectedNull,
    /// The first byte of a length-prefixed value is none of the known indicators.
    InvalidLengthIndicator(u8),
    /// No value encoding is known for this type code.
    UnsupportedTypeCode(u8),
    /// A value lies outside the range its type allows.
    ValueOutOfRange,
    /// Bytes that should be CESU-8 text are not.
    InvalidCesu8,
    /// A part of this kind arrived, and nothing here can read it.
    UnknownPartKind(i8),
    /// An argument that only ever arrives was asked to be sent.
    NotEmittable,
    /// Parameters can be neither sized nor written, and output parameters not
    /// read, without their descriptors.
    MissingMetadata,
    /// A result set arrived without the metadata that describes its columns.
    MissingResultSetMetadata,
    /// A result set arrived without the id under which the server holds it.
    MissingResultSetId,
    /// A parameter row does not have one value per input descriptor.
    RowDoesNotFitMetadata,
    /// The reply to a prepare carried no statement id.
    MissingStatementId,
    /// An unknown partition method.
    UnknownPartitionMethod(i8),
    /// An unknown parameter function.
    UnknownParameterFunction(i8),
    /// A length or a count is larger than its wire field can hold.
    TooLarge,
    /// Every packet sequence number of this connection has been used.
    SequenceNumbersExhausted,
    /// A chunk of a large object names another locator than the one that was
    /// asked for.
    WrongLocator,
    /// A large object can be sent only with all of its data at hand.
    IncompleteLob,
}

/// The bytes of a message do not follow the framing rules.
#[derive(Clone, Copy, Debug, PartialEq, Eq, Structural)]
pub enum ProtocolError {
    /// The buffer ends before the value does.
    Truncated,
    /// A length or a count that must not be negative is.
    NegativeLength,
    /// A message must hold exactly one segment.
    SegmentCount(i16),
    /// The segment kind is none of request, reply, error.
    UnknownSegmentKind(i8),
    /// The request type is not one this driver knows.
    UnknownRequestType(i8),
    /// The reply type is not one this driver knows.
    UnknownReplyType(i16),
    /// The reply is of another type than the request called for.
    UnexpectedReplyType(i16),
    /// Where a reply was expected, a request was found.
    RequestFound,
    /// A part of kind error does not hold server errors.
    InconsistentErrorPart,
    /// An option carries a type tag that no option value has.
    UnknownOptionType(u8),
    /// An execution result is none of a row count, -2, -3.
    InvalidExecutionResult(i32),
    /// A parameter mode is none of in, in-out, out.
    UnknownParameterMode(u8),
}

/// Bytes could not be moved to or from the server.
#[derive(Clone, Copy, Debug, PartialEq, Eq, Structural)]
pub enum IoError {
    /// The transport failed to send the request or to bring the reply.
    TransportFailed,
    /// The connection has failed before, and is no longer used.
    Poisoned,
}

/// The caller misused the interface.
#[derive(Clone, Copy, Debug, PartialEq, Eq, Structural)]
pub enum UsageError {
    /// The batch holds no row.
    EmptyBatch,
    /// The statement has no parameters, so it has no batch.
    NoBatch,
}

/// Caller input could not be laid against the parameter metadata.
#[derive(Clone, Copy, Debug, PartialEq, Eq, Structural)]
pub enum SerializationError {
    /// The statement takes no input parameters.
    NoMetadata,
    /// The row holds another number of values than there are input parameters.
    WrongNumberOfValues,
    /// The value at this index is of another type than its parameter.
    TypeMismatch(usize),
    /// The value at this index is NULL, its parameter is not nullable.
    NullNotAllowed(usize),
}

/// The parts of a reply do not add up to the outcome its type calls for.
#[derive(Clone, Copy, Debug, PartialEq, Eq, Structural)]
pub enum EvaluationError {
    /// Replies of this type are not handled by the general dispatcher.
    UnexpectedReplyType,
    /// Not exactly one return value where one is called for.
    NotSingle,
    /// The return value is of another kind than the reply type calls for.
    WrongKind,
    /// Result-set metadata was not followed by a result-set id.
    MissingResultSetId,
    /// The server announced that the session closes the transaction.
    SessionClosingTransaction,
}

/// One error per failed call.
#[derive(Debug, PartialEq, Eq)]
pub enum HdbError {
    /// Contract violation in the driver.
    Impl(ImplError),
    /// Failure of the transport.
    Io(IoError),
    /// Framing violation.
    Protocol(ProtocolError),
    /// The server reported these errors.
    DbMessage(Vec<ServerError>),
    /// Caller input does not fit the parameter metadata.
    Serialization(SerializationError),
    /// Misuse of the interface.
    Usage(UsageError),
    /// The reply cannot be turned into an outcome.
    Evaluation(EvaluationError),
}

/// What the functions of this library return.
pub type HdbResult<T> = Result<T, HdbError>;

/// The error for a buffer that ends too early.
pub open spec fn truncated() -> HdbError {
    HdbError::Protocol(ProtocolError::Truncated)
}

impl HdbError {
    /// Short text for the kind of failure.
    pub fn kind(&self) -> (r: &'static str)
        ensures
            r@ == (match self {
                HdbError::Impl(_) => "implementation error"@,
                HdbError::Io(_) => "i/o error"@,
                HdbError::Protocol(_) => "protocol error"@,
                HdbError::DbMessage(_) => "database error"@,
                HdbError::Serialization(_) => "serialization error"@,
                HdbError::Usage(_) => "usage error"@,
                HdbError::Evaluation(_) => "evaluation error"@,
            }),
    {
        match self {
            HdbError::Impl(_) => "implementation error",
            HdbError::Io(_) => "i/o error",
            HdbError::Protocol(_) => "protocol error",
            HdbError::DbMessage(_) => "database error",
            HdbError::Serialization(_) => "serialization error",
            HdbError::Usage(_) => "usage error",
            HdbError::Evaluation(_) => "evaluation error",
        }
    }
}

} // verus!
