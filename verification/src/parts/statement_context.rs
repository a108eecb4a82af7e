//! What the server hands out with a reply and wants back with the next
//! request, and what it says of the time it took.

use crate::error::HdbError;
use crate::parts::option_part::{
    lookup, options_at, options_fit, options_size, options_wire, put, OptionPart, Options,
};
use crate::parts::option_value::{OptionData, OptionValue};
use vstd::prelude::*;

verus! {

/// Key of the statement sequence info, a `BSTRING`.
pub const STATEMENT_SEQUENCE_INFO: u8 = 1;

/// Key of the server processing time in microseconds, an `INT`.
pub const SERVER_PROCESSING_TIME: u8 = 2;

/// Key of the schema name, a `STRING`.
pub const SCHEMA_NAME: u8 = 3;

/// The statement context of a request or a reply.
#[derive(Debug, PartialEq, Eq)]
pub struct StatementContext {
    options: OptionPart,
}

/// The statement sequence info that a bag of options carries.
pub open spec fn ssi_of(m: Options) -> Option<Seq<u8>> {
    match lookup(m, STATEMENT_SEQUENCE_INFO) {
        Some(OptionData::Bytes(b)) => Some(b),
        _ => None,
    }
}

/// The server processing time that a bag of options carries, 0 if none.
pub open spec fn processing_time_of(m: Options) -> i32 {
    match lookup(m, SERVER_PROCESSING_TIME) {
        Some(OptionData::Int(i)) => i,
        _ => 0,
    }
}

impl View for StatementContext {
    type V = Options;

    closed spec fn view(&self) -> Options {
        self.options@
    }
}

impl StatementContext {
    /// A context without options.
    pub fn new() -> (r: StatementContext)
        ensures
            r@ == Seq::<(u8, OptionData)>::empty(),
    {
        StatementContext { options: OptionPart::new() }
    }

    /// The statement sequence info, if the context carries one.
    pub fn statement_sequence_info(&self) -> (r: Option<&Vec<u8>>)
        ensures
            match r {
                Some(v) => ssi_of(self@) == Some(v@),
                None => ssi_of(self@) is None,
            },
    {
        self.options.get_bytes(STATEMENT_SEQUENCE_INFO)
    }

    /// Sets the statement sequence info.
    pub fn set_statement_sequence_info(&mut self, ssi: Vec<u8>)
        ensures
            final(self)@ == put(old(self)@, STATEMENT_SEQUENCE_INFO, OptionData::Bytes(ssi@)),
            ssi_of(final(self)@) == Some(ssi@),
    {
        self.options.insert(STATEMENT_SEQUENCE_INFO, OptionValue::BSTRING(ssi));
    }

    /// The server processing time in microseconds, 0 if the context carries
    /// none.
    pub fn server_processing_time(&self) -> (r: i32)
        ensures
            r == processing_time_of(self@),
    {
        match self.options.get_int(SERVER_PROCESSING_TIME) {
            Some(i) => i,
            None => 0,
        }
    }

    /// Number of options.
    pub fn count(&self) -> (r: usize)
        ensures
            r == self@.len(),
    {
        self.options.count()
    }

    /// Number of bytes that `emit` writes.
    pub fn size(&self) -> (r: Result<usize, HdbError>)
        ensures
            match r {
                Ok(n) => options_fit(self@) && n == options_size(self@),
                Err(e) => e == HdbError::Impl(crate::error::ImplError::TooLarge) && (!options_fit(
                    self@,
                ) || options_size(self@) > usize::MAX),
            },
    {
        self.options.size()
    }

    /// Appends the options.
    pub fn emit(&self, w: &mut Vec<u8>) -> (r: Result<(), HdbError>)
        ensures
            match r {
                Ok(()) => options_fit(self@) && final(w)@ == old(w)@ + options_wire(self@),
                Err(e) => e == HdbError::Impl(crate::error::ImplError::TooLarge) && final(w)@
                    == old(w)@ && (!options_fit(self@) || options_size(self@) > usize::MAX),
            },
    {
        self.options.emit(w)
    }

    /// Reads a context of `count` options.
    pub fn parse(count: usize, b: &[u8], pos: usize) -> (r: Result<
        (StatementContext, usize),
        HdbError,
    >)
        ensures
            crate::wire::agrees_view(r, options_at(b@, pos as int, count as nat)),
    {
        let (options, p) = OptionPart::parse(count, b, pos)?;
        Ok((StatementContext { options }, p))
    }
}

} // verus!
