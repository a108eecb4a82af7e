//! The arguments of parts: one variant for each kind of part.

use crate::error::{HdbError, ImplError};
use crate::part::{PartView, Parts};
use crate::part_attributes::PartAttributes;
use crate::partkind::PartKind;
use crate::parts::client_info::{lemma_client_info_size, ClientInfo, ClientInfoView};
use crate::parts::execution_result::{execution_results_at, ExecutionResult};
use crate::parts::hdb_value::ValueView;
use crate::parts::option_part::{
    lemma_options_size, options_at, options_fit, options_size, options_wire, OptionPart, Options,
};
use crate::parts::output_parameters::{output_parameters_at, Output, OutputParameters};
use crate::parts::parameter_descriptor::{
    parameter_metadata_at, ParameterDescriptor, ParameterDescriptorView,
};
use crate::parts::parameters::{
    input_count, lemma_parameters_size, parameters_check, parameters_wire, Parameters,
};
use crate::parts::partition_information::{
    partition_information_at, PartitionInformation, PartitionInformationView,
};
use crate::parts::read_lob_reply::{read_lob_reply_at, ReadLobReply, ReadLobReplyView};
use crate::parts::read_lob_request::ReadLobRequest;
use crate::parts::resultset::{rows_at, ResultSet, ResultSetView};
use crate::parts::resultset_metadata::{resultset_metadata_at, FieldView, ResultSetMetadata};
use crate::parts::server_error::{server_errors_at, ServerError, ServerErrorView};
use crate::parts::statement_context::StatementContext;
use crate::parts::topology::{topology_at, Topology};
use crate::parts::transaction_flags::TransactionFlags;
use crate::repeat::{lemma_repeat_failure, lemma_repeat_step, repeat_at, views};
use crate::text::{cesu8_encoding, string_to_cesu8};
use crate::wire::{
    emit_zeros, get_i32, get_u64, le32, le64, lemma_append, lemma_le_len, pad_len, padsize,
    serialize_bytes, take_i32, take_u64, write_u32, write_u64, zeros,
};
use std::sync::Arc;
use vstd::prelude::*;

verus! {

/// The argument of a part.
#[derive(Debug, PartialEq, Eq)]
pub enum Argument {
    Auth(OptionPart),
    ClientContext(OptionPart),
    ClientInfo(ClientInfo),
    Command(String),
    CommandInfo(OptionPart),
    CommitOptions(OptionPart),
    ConnectOptions(OptionPart),
    Error(Vec<ServerError>),
    FetchOptions(OptionPart),
    FetchSize(u32),
    LobFlags(OptionPart),
    OutputParameters(OutputParameters),
    ParameterMetadata(Vec<ParameterDescriptor>),
    Parameters(Parameters),
    ReadLobRequest(ReadLobRequest),
    ReadLobReply(ReadLobReply),
    ResultSet(ResultSet),
    ResultSetId(u64),
    ResultSetMetadata(ResultSetMetadata),
    ExecutionResult(Vec<ExecutionResult>),
    SessionContext(OptionPart),
    StatementContext(StatementContext),
    StatementId(u64),
    PartitionInformation(PartitionInformation),
    TableLocation(Vec<i32>),
    TopologyInformation(Topology),
    TransactionFlags(TransactionFlags),
    XatOptions(OptionPart),
}

/// What an argument holds.
pub enum ArgumentData {
    Options(Options),
    ClientInfo(ClientInfoView),
    Text(Seq<char>),
    Errors(Seq<ServerErrorView>),
    Number(u64),
    OutputParameters(Seq<Output>),
    ParameterMetadata(Seq<ParameterDescriptorView>),
    Parameters(Seq<Seq<ValueView>>),
    ReadLobRequest(ReadLobRequest),
    ReadLobReply(ReadLobReplyView),
    ResultSet(ResultSetView),
    ResultSetMetadata(Seq<FieldView>),
    ExecutionResults(Seq<ExecutionResult>),
    Partitions(PartitionInformationView),
    TableLocation(Seq<i32>),
    Topology(Seq<Options>),
}

/// An argument as the model sees it: its kind, and what it holds.
pub struct ArgumentView {
    pub kind: PartKind,
    pub data: ArgumentData,
}

impl View for Argument {
    type V = ArgumentView;

    open spec fn view(&self) -> ArgumentView {
        match self {
            Argument::Auth(o) => ArgumentView {
                kind: PartKind::Authentication,
                data: ArgumentData::Options(o@),
            },
            Argument::ClientContext(o) => ArgumentView {
                kind: PartKind::ClientContext,
                data: ArgumentData::Options(o@),
            },
            Argument::ClientInfo(c) => ArgumentView {
                kind: PartKind::ClientInfo,
                data: ArgumentData::ClientInfo(c@),
            },
            Argument::Command(s) => ArgumentView {
                kind: PartKind::Command,
                data: ArgumentData::Text(s@),
            },
            Argument::CommandInfo(o) => ArgumentView {
                kind: PartKind::CommandInfo,
                data: ArgumentData::Options(o@),
            },
            Argument::CommitOptions(o) => ArgumentView {
                kind: PartKind::CommitOptions,
                data: ArgumentData::Options(o@),
            },
            Argument::ConnectOptions(o) => ArgumentView {
                kind: PartKind::ConnectOptions,
                data: ArgumentData::Options(o@),
            },
            Argument::Error(v) => ArgumentView {
                kind: PartKind::Error,
                data: ArgumentData::Errors(views(v@)),
            },
            Argument::FetchOptions(o) => ArgumentView {
                kind: PartKind::FetchOptions,
                data: ArgumentData::Options(o@),
            },
            Argument::FetchSize(n) => ArgumentView {
                kind: PartKind::FetchSize,
                data: ArgumentData::Number(*n as u64),
            },
            Argument::LobFlags(o) => ArgumentView {
                kind: PartKind::LobFlags,
                data: ArgumentData::Options(o@),
            },
            Argument::OutputParameters(o) => ArgumentView {
                kind: PartKind::OutputParameters,
                data: ArgumentData::OutputParameters(o@),
            },
            Argument::ParameterMetadata(v) => ArgumentView {
                kind: PartKind::ParameterMetadata,
                data: ArgumentData::ParameterMetadata(views(v@)),
            },
            Argument::Parameters(p) => ArgumentView {
                kind: PartKind::Parameters,
                data: ArgumentData::Parameters(p@),
            },
            Argument::ReadLobRequest(r) => ArgumentView {
                kind: PartKind::ReadLobRequest,
                data: ArgumentData::ReadLobRequest(*r),
            },
            Argument::ReadLobReply(r) => ArgumentView {
                kind: PartKind::ReadLobReply,
                data: ArgumentData::ReadLobReply(r@),
            },
            Argument::ResultSet(rs) => ArgumentView {
                kind: PartKind::ResultSet,
                data: ArgumentData::ResultSet(rs@),
            },
            Argument::ResultSetId(id) => ArgumentView {
                kind: PartKind::ResultSetId,
                data: ArgumentData::Number(*id),
            },
            Argument::ResultSetMetadata(m) => ArgumentView {
                kind: PartKind::ResultSetMetadata,
                data: ArgumentData::ResultSetMetadata(m@),
            },
            Argument::ExecutionResult(v) => ArgumentView {
                kind: PartKind::ExecutionResult,
                data: ArgumentData::ExecutionResults(v@),
            },
            Argument::SessionContext(o) => ArgumentView {
                kind: PartKind::SessionContext,
                data: ArgumentData::Options(o@),
            },
            Argument::StatementContext(o) => ArgumentView {
                kind: PartKind::StatementContext,
                data: ArgumentData::Options(o@),
            },
            Argument::StatementId(id) => ArgumentView {
                kind: PartKind::StatementId,
                data: ArgumentData::Number(*id),
            },
            Argument::PartitionInformation(p) => ArgumentView {
                kind: PartKind::PartitionInformation,
                data: ArgumentData::Partitions(p@),
            },
            Argument::TableLocation(v) => ArgumentView {
                kind: PartKind::TableLocation,
                data: ArgumentData::TableLocation(v@),
            },
            Argument::TopologyInformation(t) => ArgumentView {
                kind: PartKind::TopologyInformation,
                data: ArgumentData::Topology(t@),
            },
            Argument::TransactionFlags(o) => ArgumentView {
                kind: PartKind::TransactionFlags,
                data: ArgumentData::Options(o@),
            },
            Argument::XatOptions(o) => ArgumentView {
                kind: PartKind::XatOptions,
                data: ArgumentData::Options(o@),
            },
        }
    }
}

/// The error for an argument that is only ever received.
pub open spec fn not_emittable() -> HdbError {
    HdbError::Impl(ImplError::NotEmittable)
}

/// Number of logical items of an argument that is sent: 1 for a single
/// value, the number of options of an option bag, the number of entries of
/// the client info, the number of rows of parameters.
pub open spec fn arg_count(v: ArgumentView) -> Result<int, HdbError> {
    match v.data {
        ArgumentData::Options(m) => Ok(m.len() as int),
        ArgumentData::ClientInfo(c) => Ok(c.pairs()),
        ArgumentData::Text(_) => Ok(1),
        ArgumentData::Number(_) => Ok(1),
        ArgumentData::ReadLobRequest(_) => Ok(1),
        ArgumentData::Parameters(rows) => Ok(rows.len() as int),
        _ => Err(not_emittable()),
    }
}

/// Number of bytes of an argument that is sent, without padding, or why it
/// cannot be sent. Parameters need the descriptors of the statement.
pub open spec fn arg_check(v: ArgumentView, par_md: Option<Seq<ParameterDescriptorView>>) -> Result<
    int,
    HdbError,
> {
    match v.data {
        ArgumentData::Options(m) => if !options_fit(m) || options_size(m) > usize::MAX {
            Err(HdbError::Impl(ImplError::TooLarge))
        } else {
            Ok(options_size(m))
        },
        ArgumentData::ClientInfo(c) => if !c.fits() || c.size() > usize::MAX {
            Err(HdbError::Impl(ImplError::TooLarge))
        } else {
            Ok(c.size())
        },
        ArgumentData::Text(t) => Ok(cesu8_encoding(t).len() as int),
        ArgumentData::Number(_) => if v.kind == PartKind::FetchSize {
            Ok(4)
        } else {
            Ok(8)
        },
        ArgumentData::ReadLobRequest(_) => Ok(24),
        ArgumentData::Parameters(rows) => match par_md {
            None => Err(HdbError::Impl(ImplError::MissingMetadata)),
            Some(descs) => parameters_check(rows, input_count(descs, descs.len()), rows.len()),
        },
        _ => Err(not_emittable()),
    }
}

/// The bytes of an argument that is sent, without padding.
pub open spec fn arg_wire(v: ArgumentView) -> Seq<u8> {
    match v.data {
        ArgumentData::Options(m) => options_wire(m),
        ArgumentData::ClientInfo(c) => c.wire(),
        ArgumentData::Text(t) => cesu8_encoding(t),
        ArgumentData::Number(n) => if v.kind == PartKind::FetchSize {
            le32(n as int)
        } else {
            le64(n as int)
        },
        ArgumentData::ReadLobRequest(r) => r.wire(),
        ArgumentData::Parameters(rows) => parameters_wire(rows, rows.len()),
        _ => Seq::<u8>::empty(),
    }
}

/// Number of bytes of an argument that is sent, with or without padding, or
/// why it cannot be sent.
pub open spec fn arg_size(
    v: ArgumentView,
    par_md: Option<Seq<ParameterDescriptorView>>,
    with_padding: bool,
) -> Result<int, HdbError> {
    match arg_check(v, par_md) {
        Err(e) => Err(e),
        Ok(m) => {
            let n = if with_padding {
                m + pad_len(m as nat)
            } else {
                m
            };
            if n > usize::MAX {
                Err(HdbError::Impl(ImplError::TooLarge))
            } else {
                Ok(n)
            }
        },
    }
}

/// The bytes of an argument that is sent, with its padding.
pub open spec fn arg_padded_wire(v: ArgumentView) -> Seq<u8> {
    arg_wire(v) + zeros(pad_len(arg_wire(v).len()))
}

/// An argument that can be sent takes the bytes that `arg_check` counts.
pub proof fn lemma_arg_size(v: ArgumentView, par_md: Option<Seq<ParameterDescriptorView>>)
    requires
        arg_check(v, par_md) is Ok,
    ensures
        arg_wire(v).len() == arg_check(v, par_md)->Ok_0,
        arg_check(v, par_md)->Ok_0 >= 0,
        arg_padded_wire(v).len() == arg_check(v, par_md)->Ok_0 + pad_len(
            arg_check(v, par_md)->Ok_0 as nat,
        ),
{
    match v.data {
        ArgumentData::Options(m) => lemma_options_size(m),
        ArgumentData::ClientInfo(c) => lemma_client_info_size(c),
        ArgumentData::Number(n) => lemma_le_len(n as int),
        ArgumentData::ReadLobRequest(r) => {
            lemma_le_len(r.locator_id as int);
            lemma_le_len(r.offset as int);
            lemma_le_len(r.length_to_read as int);
            lemma_le_len(0);
        },
        ArgumentData::Parameters(rows) => {
            let descs = par_md->Some_0;
            lemma_parameters_size(rows, input_count(descs, descs.len()), rows.len());
        },
        _ => {},
    }
}

/// The descriptors as the contracts see them.
pub open spec fn descriptors_view(o: Option<&[ParameterDescriptor]>) -> Option<
    Seq<ParameterDescriptorView>,
> {
    match o {
        Some(d) => Some(views(d@)),
        None => None,
    }
}

impl Argument {
    /// The kind of part that carries the argument.
    pub fn kind(&self) -> (r: PartKind)
        ensures
            r == self@.kind,
    {
        match self {
            Argument::Auth(_) => PartKind::Authentication,
            Argument::ClientContext(_) => PartKind::ClientContext,
            Argument::ClientInfo(_) => PartKind::ClientInfo,
            Argument::Command(_) => PartKind::Command,
            Argument::CommandInfo(_) => PartKind::CommandInfo,
            Argument::CommitOptions(_) => PartKind::CommitOptions,
            Argument::ConnectOptions(_) => PartKind::ConnectOptions,
            Argument::Error(_) => PartKind::Error,
            Argument::FetchOptions(_) => PartKind::FetchOptions,
            Argument::FetchSize(_) => PartKind::FetchSize,
            Argument::LobFlags(_) => PartKind::LobFlags,
            Argument::OutputParameters(_) => PartKind::OutputParameters,
            Argument::ParameterMetadata(_) => PartKind::ParameterMetadata,
            Argument::Parameters(_) => PartKind::Parameters,
            Argument::ReadLobRequest(_) => PartKind::ReadLobRequest,
            Argument::ReadLobReply(_) => PartKind::ReadLobReply,
            Argument::ResultSet(_) => PartKind::ResultSet,
            Argument::ResultSetId(_) => PartKind::ResultSetId,
            Argument::ResultSetMetadata(_) => PartKind::ResultSetMetadata,
            Argument::ExecutionResult(_) => PartKind::ExecutionResult,
            Argument::SessionContext(_) => PartKind::SessionContext,
            Argument::StatementContext(_) => PartKind::StatementContext,
            Argument::StatementId(_) => PartKind::StatementId,
            Argument::PartitionInformation(_) => PartKind::PartitionInformation,
            Argument::TableLocation(_) => PartKind::TableLocation,
            Argument::TopologyInformation(_) => PartKind::TopologyInformation,
            Argument::TransactionFlags(_) => PartKind::TransactionFlags,
            Argument::XatOptions(_) => PartKind::XatOptions,
        }
    }

    /// Number of logical items of an argument that is sent.
    pub fn count(&self) -> (r: Result<usize, HdbError>)
        ensures
            match r {
                Ok(n) => arg_count(self@) == Ok::<_, HdbError>(n as int),
                Err(e) => arg_count(self@) == Err::<int, _>(e),
            },
    {
        match self {
            Argument::Command(_) | Argument::FetchSize(_) | Argument::ResultSetId(_)
            | Argument::StatementId(_) | Argument::ReadLobRequest(_) => Ok(1),
            Argument::ClientInfo(client_info) => Ok(client_info.count()),
            Argument::Auth(opts) | Argument::ClientContext(opts) | Argument::CommandInfo(opts)
            | Argument::CommitOptions(opts) | Argument::ConnectOptions(opts)
            | Argument::FetchOptions(opts) | Argument::LobFlags(opts)
            | Argument::SessionContext(opts) | Argument::XatOptions(opts) => Ok(opts.count()),
            Argument::StatementContext(sc) => Ok(sc.count()),
            Argument::TransactionFlags(flags) => Ok(flags.count()),
            Argument::Parameters(pars) => Ok(pars.count()),
            _ => Err(HdbError::Impl(ImplError::NotEmittable)),
        }
    }

    /// Number of bytes of the argument without padding.
    fn plain_size(&self, o_par_md: Option<&[ParameterDescriptor]>) -> (r: Result<
        usize,
        HdbError,
    >)
        ensures
            match r {
                Ok(n) => arg_check(self@, descriptors_view(o_par_md)) == Ok::<_, HdbError>(
                    n as int,
                ),
                Err(e) => arg_check(self@, descriptors_view(o_par_md)) == Err::<int, _>(e),
            },
    {
        match self {
            Argument::Auth(opts) | Argument::ClientContext(opts) | Argument::CommandInfo(opts)
            | Argument::CommitOptions(opts) | Argument::ConnectOptions(opts)
            | Argument::FetchOptions(opts) | Argument::LobFlags(opts)
            | Argument::SessionContext(opts) | Argument::XatOptions(opts) => opts.size(),
            Argument::StatementContext(sc) => sc.size(),
            Argument::TransactionFlags(flags) => flags.size(),
            Argument::ClientInfo(client_info) => client_info.size(),
            Argument::Command(s) => Ok(crate::text::cesu8_length(s.as_str())),
            Argument::FetchSize(_) => Ok(4),
            Argument::Parameters(pars) => match o_par_md {
                Some(par_md) => pars.size(par_md),
                None => Err(HdbError::Impl(ImplError::MissingMetadata)),
            },
            Argument::ReadLobRequest(r) => Ok(r.size()),
            Argument::ResultSetId(_) => Ok(8),
            Argument::StatementId(_) => Ok(8),
            _ => Err(HdbError::Impl(ImplError::NotEmittable)),
        }
    }

    /// Number of bytes that `emit` writes for the argument, with or without
    /// the padding.
    pub fn size(&self, with_padding: bool, o_par_md: Option<&[ParameterDescriptor]>) -> (r:
        Result<usize, HdbError>)
        ensures
            match r {
                Ok(n) => arg_size(self@, descriptors_view(o_par_md), with_padding) == Ok::<
                    _,
                    HdbError,
                >(n as int),
                Err(e) => arg_size(self@, descriptors_view(o_par_md), with_padding) == Err::<
                    int,
                    _,
                >(e),
            },
    {
        let size: usize = self.plain_size(o_par_md)?;
        if with_padding {
            match size.checked_add(padsize(size)) {
                Some(n) => Ok(n),
                None => Err(HdbError::Impl(ImplError::TooLarge)),
            }
        } else {
            Ok(size)
        }
    }

    /// Appends the bytes of the argument, without padding.
    fn emit_plain(&self, o_par_md: Option<&[ParameterDescriptor]>, w: &mut Vec<u8>)
        requires
            arg_check(self@, descriptors_view(o_par_md)) is Ok,
        ensures
            final(w)@ == old(w)@ + arg_wire(self@),
    {
        let r: Result<(), HdbError> = match self {
            Argument::Auth(opts) | Argument::ClientContext(opts) | Argument::CommandInfo(opts)
            | Argument::CommitOptions(opts) | Argument::ConnectOptions(opts)
            | Argument::FetchOptions(opts) | Argument::LobFlags(opts)
            | Argument::SessionContext(opts) | Argument::XatOptions(opts) => opts.emit(w),
            Argument::StatementContext(sc) => sc.emit(w),
            Argument::TransactionFlags(flags) => flags.emit(w),
            Argument::ClientInfo(client_info) => client_info.emit(w),
            Argument::Command(s) => {
                let v: Vec<u8> = string_to_cesu8(s.as_str());
                serialize_bytes(v.as_slice(), w);
                Ok(())
            },
            Argument::FetchSize(fs) => {
                write_u32(w, *fs);
                Ok(())
            },
            Argument::Parameters(parameters) => match o_par_md {
                Some(par_md) => parameters.emit(par_md, w),
                None => Ok(()),
            },
            Argument::ReadLobRequest(r) => {
                r.emit(w);
                Ok(())
            },
            Argument::ResultSetId(rs_id) => {
                write_u64(w, *rs_id);
                Ok(())
            },
            Argument::StatementId(stmt_id) => {
                write_u64(w, *stmt_id);
                Ok(())
            },
            _ => Ok(()),
        };
        match r {
            Ok(()) => {},
            Err(_) => {
                proof {
                    assert(false);
                }
            },
        }
    }

    /// Appends the argument and its padding, and returns what is left of the
    /// budget of the message. Fails, and writes nothing, if the argument
    /// cannot be sent or does not fit the budget.
    pub fn emit(
        &self,
        remaining_bufsize: u32,
        o_par_md: Option<&[ParameterDescriptor]>,
        w: &mut Vec<u8>,
    ) -> (r: Result<u32, HdbError>)
        ensures
            match r {
                Ok(left) => arg_size(self@, descriptors_view(o_par_md), true) matches Ok(n) && n
                    <= remaining_bufsize && left == remaining_bufsize - n && final(w)@ == old(w)@
                    + arg_padded_wire(self@) && arg_padded_wire(self@).len() == n,
                Err(e) => final(w)@ == old(w)@ && (match arg_size(
                    self@,
                    descriptors_view(o_par_md),
                    true,
                ) {
                    Err(f) => e == f,
                    Ok(n) => n > remaining_bufsize && e == HdbError::Impl(ImplError::TooLarge),
                }),
            },
    {
        let size: usize = self.plain_size(o_par_md)?;
        let pad: usize = padsize(size);
        let total: usize = match size.checked_add(pad) {
            Some(n) => n,
            None => {
                return Err(HdbError::Impl(ImplError::TooLarge));
            },
        };
        if total > remaining_bufsize as usize {
            return Err(HdbError::Impl(ImplError::TooLarge));
        }
        proof {
            lemma_arg_size(self@, descriptors_view(o_par_md));
        }
        self.emit_plain(o_par_md, w);
        emit_zeros(pad, w);
        proof {
            lemma_append(old(w)@, arg_wire(self@), zeros(pad as nat));
        }
        Ok(remaining_bufsize - total as u32)
    }
}

/// What the caller of a parse knows beforehand: the metadata of the result
/// set of a prepared statement, the descriptors of its parameters, and the
/// result set for which rows are being fetched.
pub struct ParseContext {
    pub rs_md: Option<Seq<FieldView>>,
    pub par_md: Option<Seq<ParameterDescriptorView>>,
    pub rs: Option<ResultSetView>,
}

/// An argument of `kind` that holds what `r` read, if `r` read something.
pub open spec fn as_argument<T>(
    kind: PartKind,
    parts: Seq<PartView>,
    r: Result<(T, int), HdbError>,
    f: spec_fn(T) -> ArgumentData,
) -> Result<(ArgumentView, Seq<PartView>), HdbError> {
    match r {
        Err(e) => Err(e),
        Ok((x, _)) => Ok((ArgumentView { kind, data: f(x) }, parts)),
    }
}

/// Where the id and the metadata of a result set come from, and the parts
/// that are left once they were taken.
pub struct ResultSetOrigin {
    pub id: u64,
    pub metadata: Seq<FieldView>,
    pub parts: Seq<PartView>,
}

/// The id that a part of kind result-set id holds.
pub open spec fn id_of(v: ArgumentView) -> Option<u64> {
    match v.data {
        ArgumentData::Number(id) => if v.kind == PartKind::ResultSetId {
            Some(id)
        } else {
            None
        },
        _ => None,
    }
}

/// The metadata that a part of kind result-set metadata holds.
pub open spec fn metadata_of(v: ArgumentView) -> Option<Seq<FieldView>> {
    match v.data {
        ArgumentData::ResultSetMetadata(m) => if v.kind == PartKind::ResultSetMetadata {
            Some(m)
        } else {
            None
        },
        _ => None,
    }
}

/// The parts without the last one, if that is of this kind.
pub open spec fn without_last(parts: Seq<PartView>, kind: PartKind) -> Seq<PartView> {
    if crate::part::last_is(parts, kind) {
        parts.drop_last()
    } else {
        parts
    }
}

/// The parts that are left once the id and the metadata of a result set
/// were looked for: the result-set id that came last and the metadata
/// before it are gone; a statement context that came after these stays
/// where it is.
pub open spec fn origin_parts(parts: Seq<PartView>) -> Seq<PartView> {
    let p1 = without_last(parts, PartKind::StatementContext);
    let p2 = without_last(p1, PartKind::ResultSetId);
    let p3 = without_last(p2, PartKind::ResultSetMetadata);
    if crate::part::last_is(parts, PartKind::StatementContext) {
        p3.push(parts.last())
    } else {
        p3
    }
}

/// The parts that are left once an argument of `kind` was read, or could
/// not be read: only the rows of a result set that is not being fetched take
/// parts away.
pub open spec fn parts_left(kind: PartKind, parts: Seq<PartView>, ctx: ParseContext) -> Seq<
    PartView,
> {
    if kind == PartKind::ResultSet && ctx.rs is None {
        origin_parts(parts)
    } else {
        parts
    }
}

/// The id and the metadata for the rows of a result set. Rows that are
/// fetched belong to the result set of the context. Other rows take their id
/// from the part of kind result-set id that came last, and their metadata
/// from the part of kind result-set metadata before it, or else from the
/// context; a statement context that came after these stays where it is.
pub open spec fn resultset_origin(parts: Seq<PartView>, ctx: ParseContext) -> Result<
    ResultSetOrigin,
    HdbError,
> {
    match ctx.rs {
        Some(rs) => Ok(ResultSetOrigin { id: rs.id, metadata: rs.metadata, parts }),
        None => {
            let p1 = without_last(parts, PartKind::StatementContext);
            let p2 = without_last(p1, PartKind::ResultSetId);
            let id = if crate::part::last_is(p1, PartKind::ResultSetId) {
                id_of(p1.last().arg)
            } else {
                None
            };
            let found = if crate::part::last_is(p2, PartKind::ResultSetMetadata) {
                metadata_of(p2.last().arg)
            } else {
                None
            };
            let md = if found is Some {
                found
            } else {
                ctx.rs_md
            };
            match id {
                None => Err(HdbError::Impl(ImplError::MissingResultSetId)),
                Some(id) => match md {
                    None => Err(HdbError::Impl(ImplError::MissingResultSetMetadata)),
                    Some(metadata) => Ok(
                        ResultSetOrigin { id, metadata, parts: origin_parts(parts) },
                    ),
                },
            }
        },
    }
}

/// Reads one 32-bit number of a list.
pub open spec fn i32_reader() -> spec_fn(Seq<u8>, int) -> Result<(i32, int), HdbError> {
    |s: Seq<u8>, p: int| get_i32(s, p)
}

/// What the payload of a part of `kind` with `count` arguments says, given
/// the parts that were read before it, and the parts that are left.
pub open spec fn argument_at(
    kind: PartKind,
    attributes: PartAttributes,
    count: nat,
    parts: Seq<PartView>,
    ctx: ParseContext,
    s: Seq<u8>,
) -> Result<(ArgumentView, Seq<PartView>), HdbError> {
    match kind {
        PartKind::Authentication | PartKind::CommandInfo | PartKind::ConnectOptions
        | PartKind::StatementContext | PartKind::SessionContext | PartKind::TransactionFlags
        | PartKind::XatOptions => as_argument(
            kind,
            parts,
            options_at(s, 0, count),
            |m: Options| ArgumentData::Options(m),
        ),
        PartKind::Error => as_argument(
            kind,
            parts,
            server_errors_at(s, 0, count),
            |v: Seq<ServerErrorView>| ArgumentData::Errors(v),
        ),
        PartKind::OutputParameters => match ctx.par_md {
            None => Err(HdbError::Impl(ImplError::MissingMetadata)),
            Some(descs) => as_argument(
                kind,
                parts,
                output_parameters_at(descs, s, 0),
                |v: Seq<Output>| ArgumentData::OutputParameters(v),
            ),
        },
        PartKind::ParameterMetadata => as_argument(
            kind,
            parts,
            parameter_metadata_at(s, 0, count),
            |v: Seq<ParameterDescriptorView>| ArgumentData::ParameterMetadata(v),
        ),
        PartKind::ReadLobReply => as_argument(
            kind,
            parts,
            read_lob_reply_at(s, 0),
            |v: ReadLobReplyView| ArgumentData::ReadLobReply(v),
        ),
        PartKind::ResultSet => match resultset_origin(parts, ctx) {
            Err(e) => Err(e),
            Ok(origin) => match rows_at(origin.metadata, s, 0, count) {
                Err(e) => Err(e),
                Ok((rows, _)) => Ok(
                    (
                        ArgumentView {
                            kind,
                            data: ArgumentData::ResultSet(
                                ResultSetView {
                                    id: origin.id,
                                    metadata: origin.metadata,
                                    rows,
                                    attributes,
                                    closed: false,
                                    received: count > 0,
                                },
                            ),
                        },
                        origin.parts,
                    ),
                ),
            },
        },
        PartKind::ResultSetId | PartKind::StatementId => as_argument(
            kind,
            parts,
            get_u64(s, 0),
            |n: u64| ArgumentData::Number(n),
        ),
        PartKind::ResultSetMetadata => as_argument(
            kind,
            parts,
            resultset_metadata_at(s, 0, count),
            |v: Seq<FieldView>| ArgumentData::ResultSetMetadata(v),
        ),
        PartKind::ExecutionResult => as_argument(
            kind,
            parts,
            execution_results_at(s, 0, count),
            |v: Seq<ExecutionResult>| ArgumentData::ExecutionResults(v),
        ),
        PartKind::TableLocation => as_argument(
            kind,
            parts,
            repeat_at(i32_reader(), s, 0, count),
            |v: Seq<i32>| ArgumentData::TableLocation(v),
        ),
        PartKind::TopologyInformation => as_argument(
            kind,
            parts,
            topology_at(s, 0, count),
            |v: Seq<Options>| ArgumentData::Topology(v),
        ),
        PartKind::PartitionInformation => as_argument(
            kind,
            parts,
            partition_information_at(s, 0),
            |v: PartitionInformationView| ArgumentData::Partitions(v),
        ),
        _ => Err(HdbError::Impl(ImplError::UnknownPartKind(kind.code()))),
    }
}

/// What is handed to a parse, as the model sees it.
pub open spec fn context_of(
    o_rs_md: Option<&Arc<ResultSetMetadata>>,
    o_par_md: Option<&[ParameterDescriptor]>,
    o_rs: Option<&ResultSet>,
) -> ParseContext {
    ParseContext {
        rs_md: match o_rs_md {
            Some(m) => Some(m@),
            None => None,
        },
        par_md: descriptors_view(o_par_md),
        rs: match o_rs {
            Some(rs) => Some(rs@),
            None => None,
        },
    }
}

/// Reads `count` numbers.
fn parse_table_location(count: usize, b: &[u8], pos: usize) -> (r: Result<
    (Vec<i32>, usize),
    HdbError,
>)
    ensures
        crate::wire::agrees_view(r, repeat_at(i32_reader(), b@, pos as int, count as nat)),
{
    let mut out: Vec<i32> = Vec::new();
    let mut p: usize = pos;
    let mut i: usize = 0;
    while i < count
        invariant
            i <= count,
            repeat_at(i32_reader(), b@, pos as int, i as nat) == Ok::<_, HdbError>(
                (out@, p as int),
            ),
        decreases count - i,
    {
        proof {
            lemma_repeat_step(i32_reader(), b@, pos as int, i as nat);
            assert(i32_reader()(b@, p as int) == get_i32(b@, p as int));
        }
        let ghost next = repeat_at(i32_reader(), b@, pos as int, (i + 1) as nat);
        let (x, q) = match take_i32(b, p) {
            Ok(t) => t,
            Err(e) => {
                proof {
                    assert(next == Err::<(Seq<i32>, int), _>(e));
                    lemma_repeat_failure(
                        i32_reader(),
                        b@,
                        pos as int,
                        (i + 1) as nat,
                        count as nat,
                    );
                }
                return Err(e);
            },
        };
        out.push(x);
        p = q;
        i = i + 1;
    }
    Ok((out, p))
}

/// Finds the id and the metadata for the rows of a result set.
fn find_origin(
    parts: &mut Parts,
    o_rs_md: Option<&Arc<ResultSetMetadata>>,
    o_rs: Option<&ResultSet>,
) -> (r: Result<(u64, Arc<ResultSetMetadata>), HdbError>)
    ensures
        final(parts)@ == parts_left(
            PartKind::ResultSet,
            old(parts)@,
            context_of(o_rs_md, None, o_rs),
        ),
        match r {
            Ok((id, md)) => resultset_origin(
                old(parts)@,
                context_of(o_rs_md, None, o_rs),
            ) == Ok::<_, HdbError>(
                ResultSetOrigin { id, metadata: md@, parts: final(parts)@ },
            ),
            Err(e) => resultset_origin(old(parts)@, context_of(o_rs_md, None, o_rs)) == Err::<
                ResultSetOrigin,
                _,
            >(e),
        },
{
    match o_rs {
        Some(rs) => Ok((rs.resultset_id(), crate::parts::row::share(rs.metadata()))),
        None => {
            let kept: Option<Argument> = parts.pop_arg_if_kind(PartKind::StatementContext);
            let id: Option<u64> = match parts.pop_arg_if_kind(PartKind::ResultSetId) {
                Some(Argument::ResultSetId(id)) => Some(id),
                _ => None,
            };
            let found: Option<Arc<ResultSetMetadata>> = match parts.pop_arg_if_kind(
                PartKind::ResultSetMetadata,
            ) {
                Some(Argument::ResultSetMetadata(m)) => Some(Arc::new(m)),
                _ => None,
            };
            let md: Option<Arc<ResultSetMetadata>> = match found {
                Some(m) => Some(m),
                None => match o_rs_md {
                    Some(m) => Some(crate::parts::row::share(m)),
                    None => None,
                },
            };
            match kept {
                Some(arg) => {
                    parts.push(crate::part::Part::new(PartKind::StatementContext, arg));
                },
                None => {},
            }
            match id {
                None => Err(HdbError::Impl(ImplError::MissingResultSetId)),
                Some(id) => match md {
                    None => Err(HdbError::Impl(ImplError::MissingResultSetMetadata)),
                    Some(md) => Ok((id, md)),
                },
            }
        },
    }
}

impl Argument {
    /// Reads the argument of a part of `kind` from the payload of the part.
    /// `parts` are the parts of the message that were read before; a result
    /// set takes its id and its metadata from them, whether or not its rows
    /// can be read.
    pub fn parse(
        kind: PartKind,
        attributes: PartAttributes,
        no_of_args: usize,
        parts: &mut Parts,
        o_rs_md: Option<&Arc<ResultSetMetadata>>,
        o_par_md: Option<&[ParameterDescriptor]>,
        o_rs: Option<&ResultSet>,
        b: &[u8],
    ) -> (r: Result<Argument, HdbError>)
        ensures
            final(parts)@ == parts_left(
                kind,
                old(parts)@,
                context_of(o_rs_md, o_par_md, o_rs),
            ),
            match r {
                Ok(arg) => argument_at(
                    kind,
                    attributes,
                    no_of_args as nat,
                    old(parts)@,
                    context_of(o_rs_md, o_par_md, o_rs),
                    b@,
                ) == Ok::<_, HdbError>((arg@, final(parts)@)),
                Err(e) => argument_at(
                    kind,
                    attributes,
                    no_of_args as nat,
                    old(parts)@,
                    context_of(o_rs_md, o_par_md, o_rs),
                    b@,
                ) == Err::<(ArgumentView, Seq<PartView>), _>(e),
            },
    {
        match kind {
            PartKind::Authentication => {
                let (o, _) = OptionPart::parse(no_of_args, b, 0)?;
                Ok(Argument::Auth(o))
            },
            PartKind::CommandInfo => {
                let (o, _) = OptionPart::parse(no_of_args, b, 0)?;
                Ok(Argument::CommandInfo(o))
            },
            PartKind::ConnectOptions => {
                let (o, _) = OptionPart::parse(no_of_args, b, 0)?;
                Ok(Argument::ConnectOptions(o))
            },
            PartKind::SessionContext => {
                let (o, _) = OptionPart::parse(no_of_args, b, 0)?;
                Ok(Argument::SessionContext(o))
            },
            PartKind::XatOptions => {
                let (o, _) = OptionPart::parse(no_of_args, b, 0)?;
                Ok(Argument::XatOptions(o))
            },
            PartKind::StatementContext => {
                let (o, _) = StatementContext::parse(no_of_args, b, 0)?;
                Ok(Argument::StatementContext(o))
            },
            PartKind::TransactionFlags => {
                let (o, _) = TransactionFlags::parse(no_of_args, b, 0)?;
                Ok(Argument::TransactionFlags(o))
            },
            PartKind::Error => {
                let (v, _) = ServerError::parse(no_of_args, b, 0)?;
                Ok(Argument::Error(v))
            },
            PartKind::OutputParameters => match o_par_md {
                Some(par_md) => {
                    let (o, _) = OutputParameters::parse(par_md, b, 0)?;
                    Ok(Argument::OutputParameters(o))
                },
                None => Err(HdbError::Impl(ImplError::MissingMetadata)),
            },
            PartKind::ParameterMetadata => {
                let (v, _) = ParameterDescriptor::parse(no_of_args, b, 0)?;
                Ok(Argument::ParameterMetadata(v))
            },
            PartKind::ReadLobReply => {
                let (v, _) = ReadLobReply::parse(b, 0)?;
                Ok(Argument::ReadLobReply(v))
            },
            PartKind::ResultSet => {
                let (id, md) = find_origin(parts, o_rs_md, o_rs)?;
                let (rs, _) = ResultSet::parse(no_of_args, attributes, id, md, b, 0)?;
                Ok(Argument::ResultSet(rs))
            },
            PartKind::ResultSetId => {
                let (id, _) = take_u64(b, 0)?;
                Ok(Argument::ResultSetId(id))
            },
            PartKind::StatementId => {
                let (id, _) = take_u64(b, 0)?;
                Ok(Argument::StatementId(id))
            },
            PartKind::ResultSetMetadata => {
                let (m, _) = ResultSetMetadata::parse(no_of_args, b, 0)?;
                Ok(Argument::ResultSetMetadata(m))
            },
            PartKind::ExecutionResult => {
                let (v, _) = ExecutionResult::parse(no_of_args, b, 0)?;
                Ok(Argument::ExecutionResult(v))
            },
            PartKind::TableLocation => {
                let (v, _) = parse_table_location(no_of_args, b, 0)?;
                Ok(Argument::TableLocation(v))
            },
            PartKind::TopologyInformation => {
                let (t, _) = Topology::parse(no_of_args, b, 0)?;
                Ok(Argument::TopologyInformation(t))
            },
            PartKind::PartitionInformation => {
                let (p, _) = PartitionInformation::parse(b, 0)?;
                Ok(Argument::PartitionInformation(p))
            },
            _ => Err(HdbError::Impl(ImplError::UnknownPartKind(kind.to_i8()))),
        }
    }
}

} // verus!
