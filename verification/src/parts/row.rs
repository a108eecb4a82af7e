//! One row of a result set.

use crate::error::HdbError;
use crate::parts::hdb_value::{parse_from_reply, value_at, HdbValue, ValueView};
use crate::parts::resultset_metadata::{FieldView, ResultSetMetadata};
use crate::repeat::{
    irepeat_at, lemma_irepeat_failure, lemma_irepeat_step, lemma_views_empty, lemma_views_push,
    views,
};
use std::sync::Arc;
use vstd::prelude::*;

verus! {

/// `Arc::clone` of the standard library: another pointer to the same value.
#[verifier::external_body]
pub(crate) fn share<T>(a: &Arc<T>) -> (r: Arc<T>)
    ensures
        r == *a,
{
    Arc::clone(a)
}

/// The values of a row that were not yet taken, and the metadata of the
/// result set that the row belongs to.
#[derive(Clone, Debug, PartialEq, Eq)]
pub struct Row {
    metadata: Arc<ResultSetMetadata>,
    values: Vec<HdbValue>,
}

/// A row as the model sees it.
pub struct RowView {
    pub metadata: Seq<FieldView>,
    pub values: Seq<ValueView>,
}

impl View for Row {
    type V = RowView;

    closed spec fn view(&self) -> RowView {
        RowView { metadata: self.metadata@, values: views(self.values@) }
    }
}

/// Reads the value of the column at an index.
pub open spec fn value_reader(fields: Seq<FieldView>) -> spec_fn(int, Seq<u8>, int) -> Result<
    (ValueView, int),
    HdbError,
> {
    |i: int, s: Seq<u8>, p: int| value_at(fields[i].type_id, fields[i].nullable(), s, p)
}

/// What the bytes at `pos` say of a row with these columns: for each column
/// a value of its type.
pub open spec fn row_at(fields: Seq<FieldView>, s: Seq<u8>, pos: int) -> Result<
    (Seq<ValueView>, int),
    HdbError,
> {
    irepeat_at(value_reader(fields), s, pos, fields.len())
}

impl Row {
    /// The row of these values.
    pub fn new(metadata: Arc<ResultSetMetadata>, values: Vec<HdbValue>) -> (r: Row)
        ensures
            r@ == (RowView { metadata: metadata@, values: views(values@) }),
    {
        Row { metadata, values }
    }

    /// Removes and returns the next value.
    pub fn next_value(&mut self) -> (r: Option<HdbValue>)
        ensures
            final(self)@.metadata == old(self)@.metadata,
            match r {
                Some(v) => old(self)@.values.len() > 0 && v@ == old(self)@.values[0]
                    && final(self)@.values == old(self)@.values.skip(1),
                None => old(self)@.values.len() == 0 && final(self)@ == old(self)@,
            },
    {
        if self.values.len() == 0 {
            None
        } else {
            let v: HdbValue = self.values.remove(0);
            proof {
                assert(views(self.values@) =~= views(old(self).values@).skip(1));
            }
            Some(v)
        }
    }

    /// Number of values that were not yet taken.
    pub fn len(&self) -> (r: usize)
        ensures
            r == self@.values.len(),
    {
        self.values.len()
    }

    /// Whether no value is left.
    pub fn is_empty(&self) -> (r: bool)
        ensures
            r == (self@.values.len() == 0),
    {
        self.values.len() == 0
    }

    /// The metadata of the result set.
    pub fn metadata(&self) -> (r: &ResultSetMetadata)
        ensures
            r@ == self@.metadata,
    {
        &self.metadata
    }

    /// Number of columns of the result set.
    pub fn number_of_fields(&self) -> (r: usize)
        ensures
            r == self@.metadata.len(),
    {
        self.metadata.number_of_fields()
    }

    /// The value at an index, counted from the first value that was not yet
    /// taken.
    pub fn index(&self, idx: usize) -> (r: &HdbValue)
        requires
            idx < self@.values.len(),
        ensures
            r@ == self@.values[idx as int],
    {
        &self.values[idx]
    }

    /// Reads a row of a result set with this metadata.
    pub fn parse(md: Arc<ResultSetMetadata>, b: &[u8], pos: usize) -> (r: Result<
        (Row, usize),
        HdbError,
    >)
        ensures
            match r {
                Ok((row, p)) => row_at(md@, b@, pos as int) == Ok::<_, HdbError>(
                    (row@.values, p as int),
                ) && row@.metadata == md@ && row@.values.len() == md@.len(),
                Err(e) => row_at(md@, b@, pos as int) == Err::<(Seq<ValueView>, int), _>(e),
            },
    {
        let no_of_cols: usize = md.number_of_fields();
        let ghost fields = md@;
        let mut values: Vec<HdbValue> = Vec::new();
        let mut p: usize = pos;
        let mut c: usize = 0;
        proof {
            lemma_views_empty(values@);
        }
        while c < no_of_cols
            invariant
                c <= no_of_cols,
                no_of_cols == fields.len(),
                fields == md@,
                values@.len() == c,
                irepeat_at(value_reader(fields), b@, pos as int, c as nat) == Ok::<_, HdbError>(
                    (views(values@), p as int),
                ),
            decreases no_of_cols - c,
        {
            proof {
                lemma_irepeat_step(value_reader(fields), b@, pos as int, c as nat);
                assert(value_reader(fields)(c as int, b@, p as int) == value_at(
                    fields[c as int].type_id,
                    fields[c as int].nullable(),
                    b@,
                    p as int,
                ));
            }
            let ghost next = irepeat_at(value_reader(fields), b@, pos as int, (c + 1) as nat);
            let (type_id, nullable) = match md.field(c) {
                Some(f) => (f.type_id(), f.nullable()),
                None => {
                    proof {
                        assert(false);
                    }
                    (0, false)
                },
            };
            let (value, q) = match parse_from_reply(type_id, nullable, b, p) {
                Ok(t) => t,
                Err(e) => {
                    proof {
                        assert(next == Err::<(Seq<ValueView>, int), _>(e));
                        lemma_irepeat_failure(
                            value_reader(fields),
                            b@,
                            pos as int,
                            (c + 1) as nat,
                            no_of_cols as nat,
                        );
                    }
                    return Err(e);
                },
            };
            proof {
                lemma_views_push(values@, value);
            }
            values.push(value);
            p = q;
            c = c + 1;
        }
        let row = Row::new(md, values);
        Ok((row, p))
    }
}

} // verus!
