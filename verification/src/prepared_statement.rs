//! Prepared statements: the id under which the server holds the statement,
//! the metadata of its parameters and results, and the batch of rows that
//! wait to be executed.

use crate::argument::{Argument, ArgumentData, ArgumentView};
use crate::conn_core::{
    with_flags, with_statement_context, ConnectionState, ConnectionView,
};
use crate::error::{HdbError, ImplError, SerializationError, UsageError};
use crate::message::{first_parts, Reply, Request, RequestView, HOLD_CURSORS_OVER_COMMIT};
use crate::part::{Part, PartView, Parts};
use crate::partkind::PartKind;
use crate::parts::hdb_value::{HdbValue, ValueView};
use crate::parts::parameter_descriptor::{ParameterDescriptor, ParameterDescriptorView};
use crate::parts::parameters::{row_rejection, ParameterRow, Parameters};
use crate::parts::resultset_metadata::{FieldView, ResultSetMetadata};
use crate::repeat::{lemma_views_empty, lemma_views_push, views};
use crate::request_type::RequestType;
use std::sync::Arc;
use vstd::prelude::*;

verus! {

/// Allows injection-safe SQL execution and repeated calls of the same
/// statement with different parameters with as few roundtrips as possible.
#[derive(Debug, PartialEq, Eq)]
pub struct PreparedStatement {
    statement_id: u64,
    _o_table_location: Option<Vec<i32>>,
    o_par_md: Option<Vec<ParameterDescriptor>>,
    o_input_md: Option<Vec<ParameterDescriptor>>,
    o_rs_md: Option<Arc<ResultSetMetadata>>,
    o_batch: Option<Vec<ParameterRow>>,
}

/// A prepared statement as the model sees it.
pub struct PreparedStatementView {
    pub statement_id: u64,
    pub table_location: Option<Seq<i32>>,
    /// The descriptors of all parameters.
    pub par_md: Option<Seq<ParameterDescriptorView>>,
    /// The descriptors of the parameters that take input.
    pub input_md: Option<Seq<ParameterDescriptorView>>,
    pub rs_md: Option<Seq<FieldView>>,
    /// The rows that wait to be executed.
    pub batch: Option<Seq<Seq<ValueView>>>,
}

/// The descriptors as the contracts see them.
pub open spec fn descriptors_of(o: Option<Vec<ParameterDescriptor>>) -> Option<
    Seq<ParameterDescriptorView>,
> {
    match o {
        Some(v) => Some(views(v@)),
        None => None,
    }
}

impl View for PreparedStatement {
    type V = PreparedStatementView;

    closed spec fn view(&self) -> PreparedStatementView {
        PreparedStatementView {
            statement_id: self.statement_id,
            table_location: match self._o_table_location {
                Some(v) => Some(v@),
                None => None,
            },
            par_md: descriptors_of(self.o_par_md),
            input_md: descriptors_of(self.o_input_md),
            rs_md: match self.o_rs_md {
                Some(m) => Some(m@),
                None => None,
            },
            batch: match self.o_batch {
                Some(rows) => Some(views(rows@)),
                None => None,
            },
        }
    }
}

/// The descriptors of the parameters that take input, among the first `k`.
pub open spec fn inputs(descs: Seq<ParameterDescriptorView>, k: nat) -> Seq<
    ParameterDescriptorView,
>
    decreases k,
{
    if k == 0 {
        Seq::<ParameterDescriptorView>::empty()
    } else if descs[k - 1].is_input() {
        inputs(descs, (k - 1) as nat).push(descs[k - 1])
    } else {
        inputs(descs, (k - 1) as nat)
    }
}

/// What the reply to a prepare has come to.
pub struct Prepared {
    pub conn: ConnectionView,
    pub statement_id: Option<u64>,
    pub par_md: Option<Seq<ParameterDescriptorView>>,
    pub rs_md: Option<Seq<FieldView>>,
    pub table_location: Option<Seq<i32>>,
}

/// What the first `k` parts of the reply to a prepare come to, taken from
/// the last to the first. An error comes with the state of the session that
/// the parts before it have led to.
pub open spec fn gather(parts: Seq<PartView>, k: nat, acc: Prepared) -> Result<
    Prepared,
    (HdbError, ConnectionView),
>
    decreases k,
{
    if k == 0 || k > parts.len() {
        Ok(acc)
    } else {
        let arg = parts[k - 1].arg;
        let rest = (k - 1) as nat;
        match arg.data {
            ArgumentData::ParameterMetadata(v) => gather(
                parts,
                rest,
                Prepared { par_md: Some(v), ..acc },
            ),
            ArgumentData::Number(id) => if arg.kind == PartKind::StatementId {
                gather(parts, rest, Prepared { statement_id: Some(id), ..acc })
            } else {
                gather(parts, rest, acc)
            },
            ArgumentData::TableLocation(v) => gather(
                parts,
                rest,
                Prepared { table_location: Some(v), ..acc },
            ),
            ArgumentData::ResultSetMetadata(m) => gather(
                parts,
                rest,
                Prepared { rs_md: Some(m), ..acc },
            ),
            ArgumentData::Options(m) => if arg.kind == PartKind::StatementContext {
                gather(parts, rest, Prepared { conn: with_statement_context(acc.conn, m), ..acc })
            } else if arg.kind == PartKind::TransactionFlags {
                match with_flags(acc.conn, m, m.len()) {
                    Err(x) => Err(x),
                    Ok(c) => gather(parts, rest, Prepared { conn: c, ..acc }),
                }
            } else {
                gather(parts, rest, acc)
            },
            _ => gather(parts, rest, acc),
        }
    }
}

/// The statement that the reply to a prepare stands for. The reply must
/// carry a statement id. The statement has a batch if it has parameters, and
/// input metadata if some of them take input.
pub open spec fn prepared_statement_of(p: Prepared) -> Result<PreparedStatementView, HdbError> {
    match p.statement_id {
        None => Err(HdbError::Impl(ImplError::MissingStatementId)),
        Some(statement_id) => Ok(
            PreparedStatementView {
                statement_id,
                table_location: p.table_location,
                par_md: p.par_md,
                input_md: match p.par_md {
                    Some(descs) => if inputs(descs, descs.len()).len() > 0 {
                        Some(inputs(descs, descs.len()))
                    } else {
                        None
                    },
                    None => None,
                },
                rs_md: p.rs_md,
                batch: match p.par_md {
                    Some(_) => Some(Seq::<Seq<ValueView>>::empty()),
                    None => None,
                },
            },
        ),
    }
}

/// The statement that the reply to a prepare stands for, or why it stands
/// for none, and the state of the session after the reply.
pub open spec fn prepared_from(parts: Seq<PartView>, conn: ConnectionView) -> Result<
    (PreparedStatementView, ConnectionView),
    (HdbError, ConnectionView),
> {
    match gather(
        parts,
        parts.len(),
        Prepared { conn, statement_id: None, par_md: None, rs_md: None, table_location: None },
    ) {
        Err(x) => Err(x),
        Ok(p) => match prepared_statement_of(p) {
            Err(e) => Err((e, p.conn)),
            Ok(ps) => Ok((ps, p.conn)),
        },
    }
}

/// The part that names a statement.
pub open spec fn statement_id_part(id: u64) -> PartView {
    PartView {
        kind: PartKind::StatementId,
        arg: ArgumentView { kind: PartKind::StatementId, data: ArgumentData::Number(id) },
    }
}

/// The part that carries rows of parameters.
pub open spec fn parameters_part(rows: Seq<Seq<ValueView>>) -> PartView {
    PartView {
        kind: PartKind::Parameters,
        arg: ArgumentView { kind: PartKind::Parameters, data: ArgumentData::Parameters(rows) },
    }
}

/// The request that executes a statement on a connection, with or without
/// rows of parameters.
pub open spec fn execute_request(
    c: ConnectionView,
    statement_id: u64,
    rows: Option<Seq<Seq<ValueView>>>,
) -> RequestView {
    RequestView {
        request_type: RequestType::Execute,
        auto_commit: c.auto_commit,
        command_options: HOLD_CURSORS_OVER_COMMIT,
        parts: match rows {
            Some(r) => first_parts(c).push(statement_id_part(statement_id)).push(
                parameters_part(r),
            ),
            None => first_parts(c).push(statement_id_part(statement_id)),
        },
    }
}

/// Copies the descriptors of the parameters that take input.
fn input_descriptors(metadata: &Vec<ParameterDescriptor>) -> (r: Vec<ParameterDescriptor>)
    ensures
        views(r@) == inputs(views(metadata@), metadata@.len()),
{
    let ghost descs = views(metadata@);
    let mut input_metadata: Vec<ParameterDescriptor> = Vec::new();
    let mut i: usize = 0;
    proof {
        lemma_views_empty(input_metadata@);
    }
    while i < metadata.len()
        invariant
            i <= metadata@.len(),
            descs == views(metadata@),
            views(input_metadata@) == inputs(descs, i as nat),
        decreases metadata@.len() - i,
    {
        proof {
            assert((i + 1 - 1) as nat == i as nat);
            assert(descs[i as int] == metadata@[i as int]@);
        }
        let pd = &metadata[i];
        if pd.direction().is_input() {
            let copy: ParameterDescriptor = pd.duplicate();
            proof {
                lemma_views_push(input_metadata@, copy);
            }
            input_metadata.push(copy);
        }
        i = i + 1;
    }
    input_metadata
}

impl PreparedStatement {
    /// The request that prepares a statement.
    pub fn prepare_request(conn: &ConnectionState, stmt: &str) -> (r: Request)
        ensures
            r@ == (RequestView {
                request_type: RequestType::Prepare,
                auto_commit: conn@.auto_commit,
                command_options: HOLD_CURSORS_OVER_COMMIT,
                parts: first_parts(conn@).push(
                    PartView {
                        kind: PartKind::Command,
                        arg: ArgumentView {
                            kind: PartKind::Command,
                            data: ArgumentData::Text(stmt@),
                        },
                    },
                ),
            }),
    {
        let mut request = Request::new(
            conn,
            RequestType::Prepare,
            conn.is_auto_commit(),
            HOLD_CURSORS_OVER_COMMIT,
        );
        request.push(Part::new(PartKind::Command, Argument::Command(stmt.to_owned())));
        request
    }

    /// The statement that the reply to a prepare stands for. What the reply
    /// says of the session is taken into the state of the connection; where
    /// the reply stands for no statement, the connection keeps what the parts
    /// before the failure said.
    pub fn try_new(reply: Reply, conn: &mut ConnectionState) -> (r: Result<
        PreparedStatement,
        HdbError,
    >)
        ensures
            match r {
                Ok(ps) => prepared_from(reply@.parts, old(conn)@) == Ok::<
                    _,
                    (HdbError, ConnectionView),
                >((ps@, final(conn)@)),
                Err(e) => prepared_from(reply@.parts, old(conn)@) == Err::<
                    (PreparedStatementView, ConnectionView),
                    _,
                >((e, final(conn)@)),
            },
    {
        let ghost all = reply@.parts;
        let ghost start = Prepared {
            conn: conn@,
            statement_id: None,
            par_md: None,
            rs_md: None,
            table_location: None,
        };
        let mut parts: Parts = reply.into_parts();
        let mut o_table_location: Option<Vec<i32>> = None;
        let mut o_stmt_id: Option<u64> = None;
        let mut o_par_md: Option<Vec<ParameterDescriptor>> = None;
        let mut o_rs_md: Option<Arc<ResultSetMetadata>> = None;
        while !parts.is_empty()
            invariant
                parts@.len() <= all.len(),
                parts@ == all.take(parts@.len() as int),
                all == reply@.parts,
                start == (Prepared {
                    conn: old(conn)@,
                    statement_id: None,
                    par_md: None,
                    rs_md: None,
                    table_location: None,
                }),
                gather(all, all.len(), start) == gather(
                    all,
                    parts@.len(),
                    Prepared {
                        conn: conn@,
                        statement_id: o_stmt_id,
                        par_md: descriptors_of(o_par_md),
                        rs_md: match o_rs_md {
                            Some(m) => Some(m@),
                            None => None,
                        },
                        table_location: match o_table_location {
                            Some(v) => Some(v@),
                            None => None,
                        },
                    },
                ),
            decreases parts@.len(),
        {
            let ghost k = parts@.len();
            proof {
                assert(all.take(k as int).last() == all[k - 1]);
                assert(all.take(k as int).drop_last() =~= all.take(k - 1));
            }
            match parts.pop_arg() {
                Some(Argument::ParameterMetadata(par_md)) => {
                    o_par_md = Some(par_md);
                },
                Some(Argument::StatementId(id)) => {
                    o_stmt_id = Some(id);
                },
                Some(Argument::TransactionFlags(ta_flags)) => {
                    conn.evaluate_ta_flags(&ta_flags)?;
                },
                Some(Argument::TableLocation(vec_i)) => {
                    o_table_location = Some(vec_i);
                },
                Some(Argument::ResultSetMetadata(rs_md)) => {
                    o_rs_md = Some(Arc::new(rs_md));
                },
                Some(Argument::StatementContext(stmt_ctx)) => {
                    conn.evaluate_statement_context(&stmt_ctx);
                },
                _ => {},
            }
        }
        let statement_id: u64 = match o_stmt_id {
            Some(id) => id,
            None => {
                return Err(HdbError::Impl(ImplError::MissingStatementId));
            },
        };
        let o_input_md: Option<Vec<ParameterDescriptor>> = match &o_par_md {
            Some(metadata) => {
                let input_metadata: Vec<ParameterDescriptor> = input_descriptors(metadata);
                if input_metadata.len() > 0 {
                    Some(input_metadata)
                } else {
                    None
                }
            },
            None => None,
        };
        let o_batch: Option<Vec<ParameterRow>> = match o_par_md {
            Some(_) => {
                let rows: Vec<ParameterRow> = Vec::new();
                proof {
                    lemma_views_empty(rows@);
                }
                Some(rows)
            },
            None => None,
        };
        Ok(
            PreparedStatement {
                statement_id,
                o_batch,
                o_par_md,
                o_input_md,
                o_rs_md,
                _o_table_location: o_table_location,
            },
        )
    }

    /// The id under which the server holds the statement.
    pub fn statement_id(&self) -> (r: u64)
        ensures
            r == self@.statement_id,
    {
        self.statement_id
    }

    /// Descriptors of all parameters of the statement (in, out, inout), if
    /// any.
    pub fn parameter_descriptors(&self) -> (r: Option<&Vec<ParameterDescriptor>>)
        ensures
            match r {
                Some(v) => self@.par_md == Some(views(v@)),
                None => self@.par_md is None,
            },
    {
        self.o_par_md.as_ref()
    }

    /// Descriptors of the input (in and inout) parameters of the statement,
    /// if any.
    pub fn input_parameter_descriptors(&self) -> (r: Option<&Vec<ParameterDescriptor>>)
        ensures
            match r {
                Some(v) => self@.input_md == Some(views(v@)),
                None => self@.input_md is None,
            },
    {
        self.o_input_md.as_ref()
    }

    /// The metadata of the result set of the statement, if it has one.
    pub fn resultset_metadata(&self) -> (r: Option<&Arc<ResultSetMetadata>>)
        ensures
            match r {
                Some(m) => self@.rs_md == Some(m@),
                None => self@.rs_md is None,
            },
    {
        self.o_rs_md.as_ref()
    }

    /// Number of rows that wait in the batch.
    pub fn batch_len(&self) -> (r: usize)
        ensures
            r == (match self@.batch {
                Some(rows) => rows.len(),
                None => 0,
            }),
    {
        match &self.o_batch {
            Some(rows) => rows.len(),
            None => 0,
        }
    }

    /// The request that executes the statement with one row of input
    /// values, if they go with the metadata of the statement. A statement
    /// without input parameters is executed without parameters, whatever
    /// the input holds.
    pub fn execute(&mut self, conn: &ConnectionState, input: Vec<HdbValue>) -> (r: Result<
        Request,
        HdbError,
    >)
        ensures
            final(self)@ == old(self)@,
            match old(self)@.input_md {
                Some(md) => match row_rejection(views(input@), md) {
                    Some(x) => r matches Err(e) && e == HdbError::Serialization(x),
                    None => r matches Ok(req) && req@ == execute_request(
                        conn@,
                        old(self)@.statement_id,
                        Some(seq![views(input@)]),
                    ),
                },
                None => r matches Ok(req) && req@ == execute_request(
                    conn@,
                    old(self)@.statement_id,
                    None,
                ),
            },
    {
        match &self.o_input_md {
            Some(metadata) => {
                let par_row: ParameterRow = ParameterRow::new(input, metadata.as_slice())?;
                let mut rows: Vec<ParameterRow> = Vec::new();
                proof {
                    lemma_views_push(rows@, par_row);
                    assert(views(rows@.push(par_row)) =~= seq![par_row@]);
                }
                rows.push(par_row);
                Ok(self.execute_parameter_rows(conn, Some(rows)))
            },
            None => Ok(self.execute_parameter_rows(conn, None)),
        }
    }

    /// Adds a row of input values to the batch, if they go with the
    /// metadata of the statement.
    pub fn add_row_to_batch(&mut self, row: Vec<HdbValue>) -> (r: Result<(), HdbError>)
        ensures
            match (old(self)@.input_md, old(self)@.batch) {
                (Some(md), Some(batch)) => match row_rejection(views(row@), md) {
                    Some(x) => r matches Err(e) && e == HdbError::Serialization(x) && final(self)@
                        == old(self)@,
                    None => r is Ok && final(self)@ == (PreparedStatementView {
                        batch: Some(batch.push(views(row@))),
                        ..old(self)@
                    }),
                },
                _ => r matches Err(e) && e == HdbError::Serialization(
                    SerializationError::NoMetadata,
                ) && final(self)@ == old(self)@,
            },
    {
        match (&self.o_input_md, &mut self.o_batch) {
            (Some(descriptors), Some(batch)) => {
                let par_row: ParameterRow = ParameterRow::new(row, descriptors.as_slice())?;
                proof {
                    lemma_views_push(batch@, par_row);
                }
                batch.push(par_row);
                Ok(())
            },
            (_, _) => Err(HdbError::Serialization(SerializationError::NoMetadata)),
        }
    }

    /// The request that executes the statement with the rows of the batch,
    /// and an empty batch afterwards. Fails, and leaves the batch as it was,
    /// if the statement has no batch or the batch is empty.
    pub fn execute_batch(&mut self, conn: &ConnectionState) -> (r: Result<Request, HdbError>)
        ensures
            match old(self)@.batch {
                Some(rows) => if rows.len() == 0 {
                    r matches Err(e) && e == HdbError::Usage(UsageError::EmptyBatch) && final(self)@
                        == old(self)@
                } else {
                    r matches Ok(req) && req@ == execute_request(
                        conn@,
                        old(self)@.statement_id,
                        Some(rows),
                    ) && final(self)@ == (PreparedStatementView {
                        batch: Some(Seq::<Seq<ValueView>>::empty()),
                        ..old(self)@
                    })
                },
                None => r matches Err(e) && e == HdbError::Usage(UsageError::NoBatch)
                    && final(self)@ == old(self)@,
            },
    {
        match &mut self.o_batch {
            Some(rows1) => {
                if rows1.len() == 0 {
                    Err(HdbError::Usage(UsageError::EmptyBatch))
                } else {
                    let mut rows2: Vec<ParameterRow> = Vec::new();
                    proof {
                        lemma_views_empty(rows2@);
                    }
                    std::mem::swap(rows1, &mut rows2);
                    Ok(self.execute_parameter_rows(conn, Some(rows2)))
                }
            },
            None => Err(HdbError::Usage(UsageError::NoBatch)),
        }
    }

    /// The request that executes the statement, with or without rows of
    /// parameters.
    pub fn execute_parameter_rows(
        &self,
        conn: &ConnectionState,
        o_rows: Option<Vec<ParameterRow>>,
    ) -> (r: Request)
        ensures
            r@ == execute_request(
                conn@,
                self@.statement_id,
                match o_rows {
                    Some(rows) => Some(views(rows@)),
                    None => None,
                },
            ),
    {
        let mut request = Request::new(
            conn,
            RequestType::Execute,
            conn.is_auto_commit(),
            HOLD_CURSORS_OVER_COMMIT,
        );
        request.push(
            Part::new(PartKind::StatementId, Argument::StatementId(self.statement_id)),
        );
        match o_rows {
            Some(rows) => {
                request.push(
                    Part::new(PartKind::Parameters, Argument::Parameters(Parameters::new(rows))),
                );
            },
            None => {},
        }
        request
    }

    /// The request that frees what the server holds for the statement. It is
    /// sent when the statement is given up; what comes of it does not matter
    /// to the caller.
    pub fn drop_request(&self, conn: &ConnectionState) -> (r: Request)
        ensures
            r@ == (RequestView {
                request_type: RequestType::DropStatementId,
                auto_commit: conn@.auto_commit,
                command_options: 0,
                parts: first_parts(conn@).push(statement_id_part(self@.statement_id)),
            }),
    {
        let mut request = Request::new(
            conn,
            RequestType::DropStatementId,
            conn.is_auto_commit(),
            0,
        );
        request.push(
            Part::new(PartKind::StatementId, Argument::StatementId(self.statement_id)),
        );
        request
    }
}

} // verus!
