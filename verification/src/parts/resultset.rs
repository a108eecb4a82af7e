//! Result sets. A result set buffers the rows that have arrived and says
//! when to fetch more; sending the fetch is the caller's part.

use crate::error::HdbError;
use crate::part_attributes::{PartAttributes, LAST_PACKET, RESULTSET_CLOSED};
use crate::parts::resultset_metadata::{FieldView, ResultSetMetadata};
use crate::parts::row::{row_at, share, Row, RowView};
use crate::repeat::{lemma_repeat_failure, lemma_repeat_step, repeat_at, views};
use std::sync::Arc;
use vstd::prelude::*;

verus! {

/// Where a result set stands.
#[derive(Clone, Copy, Debug, PartialEq, Eq, Structural)]
pub enum ResultSetState {
    /// The server holds rows, none has arrived yet.
    OpenEmpty,
    /// Rows are buffered.
    OpenBuffered,
    /// All rows that arrived were taken, and the server holds more.
    OpenDrained,
    /// The server holds no more rows, or was told to close the result set.
    Closed,
}

/// What the reader of a result set does next.
#[derive(Debug, PartialEq, Eq)]
pub enum NextRow {
    /// The next row.
    Row(Row),
    /// Send a fetch for the result set with this id, and hand the reply to
    /// `absorb`.
    Fetch(u64),
    /// All rows were read.
    Done,
}

/// A result set as the model sees it.
pub struct ResultSetView {
    /// The id under which the server holds the result set; 0 if all rows
    /// came with the reply.
    pub id: u64,
    pub metadata: Seq<FieldView>,
    /// The rows that are buffered.
    pub rows: Seq<RowView>,
    pub attributes: PartAttributes,
    /// A close was asked for.
    pub closed: bool,
    /// Rows have arrived.
    pub received: bool,
}

/// The server holds no more rows for the result set.
pub open spec fn server_is_done(v: ResultSetView) -> bool {
    v.attributes.has(LAST_PACKET) || v.attributes.has(RESULTSET_CLOSED) || v.closed
}

/// Where the cursor of the result set stands.
pub open spec fn state_of(v: ResultSetView) -> ResultSetState {
    if server_is_done(v) {
        ResultSetState::Closed
    } else if v.rows.len() > 0 {
        ResultSetState::OpenBuffered
    } else if !v.received {
        ResultSetState::OpenEmpty
    } else {
        ResultSetState::OpenDrained
    }
}

/// Reads one row of a list: the values of the columns, under the metadata
/// of the result set.
pub open spec fn row_reader(fields: Seq<FieldView>) -> spec_fn(Seq<u8>, int) -> Result<
    (RowView, int),
    HdbError,
> {
    |s: Seq<u8>, p: int|
        match row_at(fields, s, p) {
            Err(e) => Err(e),
            Ok((values, q)) => Ok((RowView { metadata: fields, values }, q)),
        }
}

/// What the bytes at `pos` say of `count` rows with these columns.
pub open spec fn rows_at(fields: Seq<FieldView>, s: Seq<u8>, pos: int, count: nat) -> Result<
    (Seq<RowView>, int),
    HdbError,
> {
    repeat_at(row_reader(fields), s, pos, count)
}

/// A result set.
#[derive(Debug, PartialEq, Eq)]
pub struct ResultSet {
    resultset_id: u64,
    metadata: Arc<ResultSetMetadata>,
    rows: Vec<Row>,
    attributes: PartAttributes,
    closed: bool,
    received: bool,
}

impl View for ResultSet {
    type V = ResultSetView;

    closed spec fn view(&self) -> ResultSetView {
        ResultSetView {
            id: self.resultset_id,
            metadata: self.metadata@,
            rows: views(self.rows@),
            attributes: self.attributes,
            closed: self.closed,
            received: self.received,
        }
    }
}

/// Reads `count` rows.
fn parse_rows(md: &Arc<ResultSetMetadata>, count: usize, b: &[u8], pos: usize) -> (r: Result<
    (Vec<Row>, usize),
    HdbError,
>)
    ensures
        match r {
            Ok((v, p)) => rows_at(md@, b@, pos as int, count as nat) == Ok::<_, HdbError>(
                (views(v@), p as int),
            ) && v@.len() == count,
            Err(e) => rows_at(md@, b@, pos as int, count as nat) == Err::<
                (Seq<RowView>, int),
                _,
            >(e),
        },
{
    let ghost fields = md@;
    let mut out: Vec<Row> = Vec::new();
    let mut p: usize = pos;
    let mut i: usize = 0;
    proof {
        assert(views(out@) =~= Seq::<RowView>::empty());
    }
    while i < count
        invariant
            i <= count,
            out@.len() == i,
            fields == md@,
            repeat_at(row_reader(fields), b@, pos as int, i as nat) == Ok::<_, HdbError>(
                (views(out@), p as int),
            ),
        decreases count - i,
    {
        proof {
            lemma_repeat_step(row_reader(fields), b@, pos as int, i as nat);
            assert(row_reader(fields)(b@, p as int) == (match row_at(fields, b@, p as int) {
                Err(e) => Err::<(RowView, int), _>(e),
                Ok((values, q)) => Ok((RowView { metadata: fields, values }, q)),
            }));
        }
        let ghost next = repeat_at(row_reader(fields), b@, pos as int, (i + 1) as nat);
        let (x, q) = match Row::parse(share(md), b, p) {
            Ok(t) => t,
            Err(e) => {
                proof {
                    assert(next == Err::<(Seq<RowView>, int), _>(e));
                    lemma_repeat_failure(
                        row_reader(fields),
                        b@,
                        pos as int,
                        (i + 1) as nat,
                        count as nat,
                    );
                }
                return Err(e);
            },
        };
        proof {
            assert(views(out@.push(x)) =~= views(out@).push(x@));
        }
        out.push(x);
        p = q;
        i = i + 1;
    }
    Ok((out, p))
}

impl ResultSet {
    /// A result set without rows.
    pub fn new(attributes: PartAttributes, rs_id: u64, metadata: Arc<ResultSetMetadata>) -> (r:
        ResultSet)
        ensures
            r@ == (ResultSetView {
                id: rs_id,
                metadata: metadata@,
                rows: Seq::<RowView>::empty(),
                attributes,
                closed: false,
                received: false,
            }),
    {
        let r = ResultSet {
            resultset_id: rs_id,
            metadata,
            rows: Vec::new(),
            attributes,
            closed: false,
            received: false,
        };
        proof {
            assert(views(r.rows@) =~= Seq::<RowView>::empty());
        }
        r
    }

    /// The result set that reading `count` rows at `pos` gives.
    pub fn parse(
        count: usize,
        attributes: PartAttributes,
        rs_id: u64,
        metadata: Arc<ResultSetMetadata>,
        b: &[u8],
        pos: usize,
    ) -> (r: Result<(ResultSet, usize), HdbError>)
        ensures
            match r {
                Ok((rs, p)) => rows_at(metadata@, b@, pos as int, count as nat) == Ok::<
                    _,
                    HdbError,
                >((rs@.rows, p as int)) && rs@ == (ResultSetView {
                    id: rs_id,
                    metadata: metadata@,
                    rows: rs@.rows,
                    attributes,
                    closed: false,
                    received: count > 0,
                }),
                Err(e) => rows_at(metadata@, b@, pos as int, count as nat) == Err::<
                    (Seq<RowView>, int),
                    _,
                >(e),
            },
    {
        let (rows, p) = parse_rows(&metadata, count, b, pos)?;
        Ok(
            (
                ResultSet {
                    resultset_id: rs_id,
                    metadata,
                    rows,
                    attributes,
                    closed: false,
                    received: count > 0,
                },
                p,
            ),
        )
    }

    /// The id under which the server holds the result set.
    pub fn resultset_id(&self) -> (r: u64)
        ensures
            r == self@.id,
    {
        self.resultset_id
    }

    /// The metadata of the columns.
    pub fn metadata(&self) -> (r: &Arc<ResultSetMetadata>)
        ensures
            r@ == self@.metadata,
    {
        &self.metadata
    }

    /// The flags of the packet that came last.
    pub fn attributes(&self) -> (r: PartAttributes)
        ensures
            r == self@.attributes,
    {
        self.attributes
    }

    /// Number of rows that are buffered.
    pub fn len(&self) -> (r: usize)
        ensures
            r == self@.rows.len(),
    {
        self.rows.len()
    }

    /// Whether the server holds no more rows.
    pub fn is_complete(&self) -> (r: bool)
        ensures
            r == server_is_done(self@),
    {
        self.attributes.is_last_packet() || self.attributes.resultset_is_closed() || self.closed
    }

    /// Where the result set stands.
    pub fn state(&self) -> (r: ResultSetState)
        ensures
            r == state_of(self@),
    {
        if self.is_complete() {
            ResultSetState::Closed
        } else if self.rows.len() > 0 {
            ResultSetState::OpenBuffered
        } else if !self.received {
            ResultSetState::OpenEmpty
        } else {
            ResultSetState::OpenDrained
        }
    }

    /// Takes the next row, or says what has to happen before there is one. A
    /// fetch is asked for only while the server holds more rows: never once
    /// a packet said that it was the last.
    pub fn next_row(&mut self) -> (r: NextRow)
        ensures
            match r {
                NextRow::Row(row) => old(self)@.rows.len() > 0 && row@ == old(self)@.rows[0]
                    && final(self)@ == (ResultSetView {
                    rows: old(self)@.rows.skip(1),
                    ..old(self)@
                }),
                NextRow::Fetch(id) => old(self)@.rows.len() == 0 && !server_is_done(old(self)@)
                    && id == old(self)@.id && final(self)@ == old(self)@,
                NextRow::Done => old(self)@.rows.len() == 0 && server_is_done(old(self)@)
                    && final(self)@ == old(self)@,
            },
            old(self)@.attributes.has(LAST_PACKET) ==> !(r is Fetch),
    {
        if self.rows.len() > 0 {
            let row: Row = self.rows.remove(0);
            proof {
                assert(views(self.rows@) =~= views(old(self).rows@).skip(1));
            }
            NextRow::Row(row)
        } else if self.is_complete() {
            NextRow::Done
        } else {
            NextRow::Fetch(self.resultset_id)
        }
    }

    /// Takes in the rows and the attributes that the reply to a fetch
    /// brought.
    pub fn absorb(&mut self, fetched: ResultSet)
        ensures
            final(self)@ == (ResultSetView {
                rows: old(self)@.rows + fetched@.rows,
                attributes: fetched@.attributes,
                received: old(self)@.received || fetched@.received,
                ..old(self)@
            }),
    {
        let mut rows: Vec<Row> = fetched.rows;
        let ghost added = rows@;
        self.rows.append(&mut rows);
        self.attributes = fetched.attributes;
        self.received = self.received || fetched.received;
        proof {
            assert(views(self.rows@) =~= views(old(self).rows@) + views(added));
        }
    }

    /// Closes the result set. Returns the id for which a close has to be
    /// sent, if the server still holds rows.
    pub fn close(&mut self) -> (r: Option<u64>)
        ensures
            final(self)@ == (ResultSetView { closed: true, ..old(self)@ }),
            server_is_done(final(self)@),
            match r {
                Some(id) => !server_is_done(old(self)@) && id == old(self)@.id,
                None => server_is_done(old(self)@),
            },
    {
        let open: bool = !self.is_complete();
        self.closed = true;
        if open {
            Some(self.resultset_id)
        } else {
            None
        }
    }
}

/// A result set of which a packet said that it was the last is never in a
/// state in which a fetch is asked for, whatever was taken from it since.
pub proof fn lemma_no_fetch_after_last_packet(v: ResultSetView, taken: nat)
    requires
        v.attributes.has(LAST_PACKET),
        taken <= v.rows.len(),
    ensures
        server_is_done(ResultSetView { rows: v.rows.skip(taken as int), ..v }),
        state_of(ResultSetView { rows: v.rows.skip(taken as int), ..v }) == ResultSetState::Closed,
{
}

} // verus!
