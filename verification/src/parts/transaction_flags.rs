//! What the server says has happened to the transaction.

use crate::error::HdbError;
use crate::parts::option_part::{
    options_at, options_fit, options_size, options_wire, OptionPart, Options,
};
use crate::parts::option_value::{OptionData, OptionValue};
use vstd::prelude::*;

verus! {

/// Key: the transaction was rolled back.
pub const ROLLED_BACK: u8 = 0;

/// Key: the transaction was committed.
pub const COMMITTED: u8 = 1;

/// Key: the isolation level from now on.
pub const NEW_ISOLATION_LEVEL: u8 = 2;

/// Key: the commit mode of data definition has changed.
pub const DDL_COMMIT_MODE_CHANGED: u8 = 3;

/// Key: a write transaction has begun.
pub const WRITE_TRANSACTION_STARTED: u8 = 4;

/// Key: the transaction has ended.
pub const TRANSACTION_CLOSED: u8 = 5;

/// Key: an error ends the session.
pub const SESSION_CLOSING_TRANSACTION_ERROR: u8 = 6;

/// One thing that has happened to the transaction.
#[derive(Clone, Copy, Debug, PartialEq, Eq, Structural)]
pub enum TaFlag {
    /// The transaction was rolled back.
    RolledBack,
    /// The transaction was committed.
    Committed,
    /// The isolation level has changed to this.
    NewIsolationLevel(i32),
    /// The commit mode of data definitions has changed.
    DdlCommitModeChanged,
    /// A transaction that writes has started.
    WriteTransactionStarted,
    /// No transaction that writes is open.
    TransactionClosed,
    /// The session is being closed because of an error in the transaction.
    SessionClosingTransactionError,
    /// A flag that is not raised, or that this driver does not know.
    Nothing,
}

/// The flag that an option raises.
pub open spec fn flag_of(entry: (u8, OptionData)) -> TaFlag {
    match entry.1 {
        OptionData::Boolean(true) => if entry.0 == ROLLED_BACK {
            TaFlag::RolledBack
        } else if entry.0 == COMMITTED {
            TaFlag::Committed
        } else if entry.0 == DDL_COMMIT_MODE_CHANGED {
            TaFlag::DdlCommitModeChanged
        } else if entry.0 == WRITE_TRANSACTION_STARTED {
            TaFlag::WriteTransactionStarted
        } else if entry.0 == TRANSACTION_CLOSED {
            TaFlag::TransactionClosed
        } else if entry.0 == SESSION_CLOSING_TRANSACTION_ERROR {
            TaFlag::SessionClosingTransactionError
        } else {
            TaFlag::Nothing
        },
        OptionData::Int(i) => if entry.0 == NEW_ISOLATION_LEVEL {
            TaFlag::NewIsolationLevel(i)
        } else {
            TaFlag::Nothing
        },
        _ => TaFlag::Nothing,
    }
}

/// The transaction flags of a reply.
#[derive(Debug, PartialEq, Eq)]
pub struct TransactionFlags {
    options: OptionPart,
}

impl View for TransactionFlags {
    type V = Options;

    closed spec fn view(&self) -> Options {
        self.options@
    }
}

impl TransactionFlags {
    /// No flags.
    pub fn new() -> (r: TransactionFlags)
        ensures
            r@ == Seq::<(u8, OptionData)>::empty(),
    {
        TransactionFlags { options: OptionPart::new() }
    }

    /// Sets an option.
    pub fn insert(&mut self, id: u8, value: OptionValue)
        ensures
            final(self)@ == crate::parts::option_part::put(old(self)@, id, value@),
    {
        self.options.insert(id, value);
    }

    /// Number of options.
    pub fn count(&self) -> (r: usize)
        ensures
            r == self@.len(),
    {
        self.options.count()
    }

    /// The flag that the option at an index raises.
    pub fn flag(&self, i: usize) -> (r: TaFlag)
        requires
            i < self@.len(),
        ensures
            r == flag_of(self@[i as int]),
    {
        let e = self.options.entry(i);
        match &e.value {
            OptionValue::BOOLEAN(true) => {
                if e.id == ROLLED_BACK {
                    TaFlag::RolledBack
                } else if e.id == COMMITTED {
                    TaFlag::Committed
                } else if e.id == DDL_COMMIT_MODE_CHANGED {
                    TaFlag::DdlCommitModeChanged
                } else if e.id == WRITE_TRANSACTION_STARTED {
                    TaFlag::WriteTransactionStarted
                } else if e.id == TRANSACTION_CLOSED {
                    TaFlag::TransactionClosed
                } else if e.id == SESSION_CLOSING_TRANSACTION_ERROR {
                    TaFlag::SessionClosingTransactionError
                } else {
                    TaFlag::Nothing
                }
            },
            OptionValue::INT(i) => {
                if e.id == NEW_ISOLATION_LEVEL {
                    TaFlag::NewIsolationLevel(*i)
                } else {
                    TaFlag::Nothing
                }
            },
            _ => TaFlag::Nothing,
        }
    }

    /// Number of bytes that `emit` writes.
    pub fn size(&self) -> (r: Result<usize, HdbError>)
        ensures
            match r {
                Ok(n) => options_fit(self@) && n == options_size(self@),
                Err(e) => e == HdbError::Impl(crate::error::ImplError::TooLarge) && (!options_fit(
                    self@,
                ) || options_size(self@) > usize::MAX),
            },
    {
        self.options.size()
    }

    /// Appends the options.
    pub fn emit(&self, w: &mut Vec<u8>) -> (r: Result<(), HdbError>)
        ensures
            match r {
                Ok(()) => options_fit(self@) && final(w)@ == old(w)@ + options_wire(self@),
                Err(e) => e == HdbError::Impl(crate::error::ImplError::TooLarge) && final(w)@
                    == old(w)@ && (!options_fit(self@) || options_size(self@) > usize::MAX),
            },
    {
        self.options.emit(w)
    }

    /// Reads `count` flags.
    pub fn parse(count: usize, b: &[u8], pos: usize) -> (r: Result<
        (TransactionFlags, usize),
        HdbError,
    >)
        ensures
            crate::wire::agrees_view(r, options_at(b@, pos as int, count as nat)),
    {
        let (options, p) = OptionPart::parse(count, b, pos)?;
        Ok((TransactionFlags { options }, p))
    }
}

} // verus!
