//! The rows of input parameters of an execute.

use crate::error::{HdbError, ImplError, SerializationError};
use crate::parts::hdb_value::{
    emit_failure, lemma_value_size, lob_advance, sent, serialize, size, trailing_data,
    value_size, value_wire, HdbValue, ValueView,
};
use crate::parts::parameter_descriptor::{ParameterDescriptor, ParameterDescriptorView};
use crate::parts::type_id::{shape, shape_of, Shape};
use crate::repeat::views;
use crate::wire::{lemma_append, serialize_bytes};
use vstd::prelude::*;

verus! {

/// How far a row has come: the bytes it takes so far, and where the data of
/// its next large object will lie.
pub struct RowProgress {
    pub size: int,
    pub data_pos: int,
}

/// What the first `k` values of a row take, or why one of them cannot be
/// sent.
pub open spec fn row_check(vals: Seq<ValueView>, k: nat) -> Result<RowProgress, HdbError>
    decreases k,
{
    if k == 0 {
        Ok(RowProgress { size: 0, data_pos: 0 })
    } else {
        match row_check(vals, (k - 1) as nat) {
            Err(e) => Err(e),
            Ok(pr) => match emit_failure(vals[k - 1]) {
                Some(e) => Err(e),
                None => if pr.data_pos + lob_advance(vals[k - 1]) > u64::MAX || pr.size
                    + value_size(vals[k - 1]) > usize::MAX {
                    Err(HdbError::Impl(ImplError::TooLarge))
                } else {
                    Ok(
                        RowProgress {
                            size: pr.size + value_size(vals[k - 1]),
                            data_pos: pr.data_pos + lob_advance(vals[k - 1]),
                        },
                    )
                },
            },
        }
    }
}

/// Where the data of the next large object lies after `k` values.
pub open spec fn data_pos_after(vals: Seq<ValueView>, k: nat) -> int
    decreases k,
{
    if k == 0 {
        0
    } else {
        data_pos_after(vals, (k - 1) as nat) + lob_advance(vals[k - 1])
    }
}

/// The bytes of the first `k` values of a row, without the data of their
/// large objects.
pub open spec fn values_wire(vals: Seq<ValueView>, k: nat) -> Seq<u8>
    decreases k,
{
    if k == 0 {
        Seq::<u8>::empty()
    } else {
        values_wire(vals, (k - 1) as nat) + value_wire(
            vals[k - 1],
            data_pos_after(vals, (k - 1) as nat),
        )
    }
}

/// The data of the large objects among the first `k` values of a row, one
/// after the other.
pub open spec fn data_wire(vals: Seq<ValueView>, k: nat) -> Seq<u8>
    decreases k,
{
    if k == 0 {
        Seq::<u8>::empty()
    } else {
        data_wire(vals, (k - 1) as nat) + trailing_data(vals[k - 1])
    }
}

/// The bytes of the first `k` values of a row: the values, and behind them
/// the data of their large objects.
pub open spec fn row_wire(vals: Seq<ValueView>, k: nat) -> Seq<u8> {
    values_wire(vals, k) + data_wire(vals, k)
}

/// A row that can be sent takes the bytes that `row_check` counts, and the
/// position that is announced for the data of the next large object is the
/// number of bytes of data before it.
pub proof fn lemma_row_size(vals: Seq<ValueView>, k: nat)
    requires
        row_check(vals, k) is Ok,
    ensures
        row_wire(vals, k).len() == row_check(vals, k)->Ok_0.size,
        data_pos_after(vals, k) == row_check(vals, k)->Ok_0.data_pos,
        data_wire(vals, k).len() == data_pos_after(vals, k),
        0 <= row_check(vals, k)->Ok_0.size <= usize::MAX,
        0 <= row_check(vals, k)->Ok_0.data_pos <= u64::MAX,
    decreases k,
{
    if k > 0 {
        lemma_row_size(vals, (k - 1) as nat);
        lemma_value_size(vals[k - 1], data_pos_after(vals, (k - 1) as nat));
    }
}

/// In a row that can be sent, the data of each large object lies behind
/// the values of the row, at the position that the object announces.
pub proof fn lemma_data_lies_where_announced(vals: Seq<ValueView>, n: nat, i: nat)
    requires
        row_check(vals, n) is Ok,
        i < n <= vals.len(),
    ensures
        data_pos_after(vals, i) + trailing_data(vals[i as int]).len() <= data_wire(vals, n).len(),
        data_wire(vals, n).subrange(
            data_pos_after(vals, i),
            data_pos_after(vals, i) + trailing_data(vals[i as int]).len(),
        ) == trailing_data(vals[i as int]),
        row_wire(vals, n).subrange(
            values_wire(vals, n).len() + data_pos_after(vals, i),
            values_wire(vals, n).len() + data_pos_after(vals, i) + trailing_data(
                vals[i as int],
            ).len(),
        ) == trailing_data(vals[i as int]),
    decreases n,
{
    let before = data_wire(vals, (n - 1) as nat);
    let last = trailing_data(vals[n - 1]);
    let p = data_pos_after(vals, i);
    let d = trailing_data(vals[i as int]);
    lemma_check_prefix(vals, (n - 1) as nat, n);
    lemma_check_prefix(vals, i, n);
    lemma_check_prefix(vals, i + 1, n);
    lemma_row_size(vals, (n - 1) as nat);
    lemma_row_size(vals, n);
    lemma_row_size(vals, i);
    lemma_row_size(vals, i + 1);
    if i + 1 == n {
        assert((before + last).subrange(p, p + d.len()) =~= d);
    } else {
        lemma_data_lies_where_announced(vals, (n - 1) as nat, i);
        assert((before + last).subrange(p, p + d.len()) =~= before.subrange(p, p + d.len()));
    }
    let head = values_wire(vals, n);
    let data = data_wire(vals, n);
    assert((head + data).subrange(head.len() + p, head.len() + p + d.len()) =~= data.subrange(
        p,
        p + d.len(),
    ));
}

/// Whether a value of one shape can be sent for a parameter of another:
/// shapes must be the same, but a text goes for any kind of text.
pub open spec fn shape_fits(value: Shape, parameter: Shape) -> bool {
    value == parameter || (value == Shape::Text && parameter == Shape::FixedText)
}

/// What is wrong with the value at index `i` for its parameter, if anything.
pub open spec fn value_mismatch(v: ValueView, d: ParameterDescriptorView, i: int) -> Option<
    SerializationError,
> {
    match (shape_of(v.code), shape_of(d.type_id)) {
        (Some(vs), Some(ds)) => if !shape_fits(vs, ds) {
            Some(SerializationError::TypeMismatch(i as usize))
        } else if v.data is None && !d.nullable() {
            Some(SerializationError::NullNotAllowed(i as usize))
        } else {
            None
        },
        _ => Some(SerializationError::TypeMismatch(i as usize)),
    }
}

/// What is wrong with the first `k` values of a row, if anything: the first
/// value that does not go with its parameter.
pub open spec fn row_mismatch(
    vals: Seq<ValueView>,
    descs: Seq<ParameterDescriptorView>,
    k: nat,
) -> Option<SerializationError>
    decreases k,
{
    if k == 0 {
        None
    } else {
        match row_mismatch(vals, descs, (k - 1) as nat) {
            Some(e) => Some(e),
            None => value_mismatch(vals[k - 1], descs[k - 1], k - 1),
        }
    }
}

/// What is wrong with a row for the input parameters of a statement, if
/// anything.
pub open spec fn row_rejection(vals: Seq<ValueView>, descs: Seq<ParameterDescriptorView>)
    -> Option<SerializationError> {
    if vals.len() != descs.len() {
        Some(SerializationError::WrongNumberOfValues)
    } else {
        row_mismatch(vals, descs, vals.len())
    }
}

/// One row of input parameters.
#[derive(Clone, Debug, PartialEq, Eq)]
pub struct ParameterRow {
    values: Vec<HdbValue>,
}

impl View for ParameterRow {
    type V = Seq<ValueView>;

    closed spec fn view(&self) -> Seq<ValueView> {
        views(self.values@)
    }
}

impl ParameterRow {
    /// The row of these values, if they go with the input parameters.
    pub fn new(values: Vec<HdbValue>, descriptors: &[ParameterDescriptor]) -> (r: Result<
        ParameterRow,
        HdbError,
    >)
        ensures
            match r {
                Ok(row) => row_rejection(views(values@), views(descriptors@)) is None && row@
                    == views(values@),
                Err(e) => row_rejection(views(values@), views(descriptors@)) matches Some(x) && e
                    == HdbError::Serialization(x),
            },
    {
        if values.len() != descriptors.len() {
            return Err(HdbError::Serialization(SerializationError::WrongNumberOfValues));
        }
        let ghost vals = views(values@);
        let ghost descs = views(descriptors@);
        let mut i: usize = 0;
        while i < values.len()
            invariant
                i <= values@.len(),
                values@.len() == descriptors@.len(),
                vals == views(values@),
                descs == views(descriptors@),
                row_mismatch(vals, descs, i as nat) is None,
            decreases values@.len() - i,
        {
            proof {
                assert((i + 1 - 1) as nat == i as nat);
                assert(vals[i as int] == values@[i as int]@);
                assert(descs[i as int] == descriptors@[i as int]@);
            }
            let id: u8 = values[i].type_id();
            let is_null: bool = values[i].is_null();
            let d = &descriptors[i];
            let problem: Option<SerializationError> = match (
                shape(values[i].base_code()),
                shape(d.type_id()),
            ) {
                (Some(vs), Some(ds)) => {
                    if !(shape_eq(vs, ds) || (shape_eq(vs, Shape::Text) && shape_eq(
                        ds,
                        Shape::FixedText,
                    ))) {
                        Some(SerializationError::TypeMismatch(i))
                    } else if is_null && !d.nullable() {
                        Some(SerializationError::NullNotAllowed(i))
                    } else {
                        None
                    }
                },
                _ => Some(SerializationError::TypeMismatch(i)),
            };
            match problem {
                Some(x) => {
                    proof {
                        lemma_mismatch_stays(vals, descs, (i + 1) as nat, vals.len());
                    }
                    return Err(HdbError::Serialization(x));
                },
                None => {},
            }
            i = i + 1;
        }
        Ok(ParameterRow { values })
    }

    /// Number of values.
    pub fn len(&self) -> (r: usize)
        ensures
            r == self@.len(),
    {
        self.values.len()
    }

    /// The values of the row.
    pub fn values(&self) -> (r: &Vec<HdbValue>)
        ensures
            views(r@) == self@,
    {
        &self.values
    }

    /// Number of bytes that `emit` writes, if the row can be sent.
    pub fn size(&self) -> (r: Result<usize, HdbError>)
        ensures
            match r {
                Ok(n) => row_check(self@, self@.len()) matches Ok(pr) && n == pr.size,
                Err(e) => row_check(self@, self@.len()) == Err::<RowProgress, _>(e),
            },
    {
        let ghost vals = self@;
        let mut total: usize = 0;
        let mut data_pos: u64 = 0;
        let mut i: usize = 0;
        while i < self.values.len()
            invariant
                i <= self.values@.len(),
                vals == views(self.values@),
                row_check(vals, i as nat) == Ok::<_, HdbError>(
                    RowProgress { size: total as int, data_pos: data_pos as int },
                ),
            decreases self.values@.len() - i,
        {
            proof {
                assert((i + 1 - 1) as nat == i as nat);
                assert(vals[i as int] == self.values@[i as int]@);
            }
            let ghost next = row_check(vals, (i + 1) as nat);
            let n: usize = match size(&self.values[i]) {
                Ok(n) => n,
                Err(e) => {
                    proof {
                        assert(next == Err::<RowProgress, _>(e));
                        lemma_check_stays(vals, (i + 1) as nat, vals.len());
                    }
                    return Err(e);
                },
            };
            let advance: u64 = lob_length(&self.values[i]);
            let step: Option<(usize, u64)> = match total.checked_add(n) {
                None => None,
                Some(t) => match data_pos.checked_add(advance) {
                    None => None,
                    Some(d) => Some((t, d)),
                },
            };
            match step {
                None => {
                    proof {
                        assert(next == Err::<RowProgress, _>(
                            HdbError::Impl(ImplError::TooLarge),
                        ));
                        lemma_check_stays(vals, (i + 1) as nat, vals.len());
                    }
                    return Err(HdbError::Impl(ImplError::TooLarge));
                },
                Some((t, d)) => {
                    total = t;
                    data_pos = d;
                },
            }
            i = i + 1;
        }
        Ok(total)
    }

    /// Appends the values of the row, one after the other, and behind them
    /// the data of their large objects, each at the position that its
    /// object announces. Fails, and writes nothing, if a value cannot be
    /// sent.
    pub fn emit(&self, w: &mut Vec<u8>) -> (r: Result<(), HdbError>)
        ensures
            match r {
                Ok(()) => row_check(self@, self@.len()) is Ok && final(w)@ == old(w)@ + row_wire(
                    self@,
                    self@.len(),
                ),
                Err(e) => row_check(self@, self@.len()) == Err::<RowProgress, _>(e) && final(w)@
                    == old(w)@,
            },
    {
        let _ = self.size()?;
        let ghost vals = self@;
        let mut data_pos: u64 = 0;
        let mut i: usize = 0;
        proof {
            assert(w@ =~= old(w)@ + values_wire(vals, 0));
            lemma_check_prefix(vals, 0, vals.len());
        }
        while i < self.values.len()
            invariant
                i <= self.values@.len(),
                vals == views(self.values@),
                row_check(vals, vals.len()) is Ok,
                row_check(vals, i as nat) is Ok,
                data_pos == data_pos_after(vals, i as nat),
                w@ == old(w)@ + values_wire(vals, i as nat),
            decreases self.values@.len() - i,
        {
            proof {
                assert((i + 1 - 1) as nat == i as nat);
                assert(vals[i as int] == self.values@[i as int]@);
                lemma_check_prefix(vals, (i + 1) as nat, vals.len());
                lemma_row_size(vals, (i + 1) as nat);
                lemma_row_size(vals, i as nat);
            }
            let ghost pos0 = data_pos;
            match serialize(&self.values[i], &mut data_pos, w) {
                Ok(()) => {},
                Err(e) => {
                    proof {
                        assert(false);
                    }
                    return Err(e);
                },
            }
            proof {
                lemma_append(
                    old(w)@,
                    values_wire(vals, i as nat),
                    value_wire(vals[i as int], pos0 as int),
                );
            }
            i = i + 1;
        }
        let ghost head = old(w)@ + values_wire(vals, vals.len());
        let mut j: usize = 0;
        proof {
            assert(w@ =~= head + data_wire(vals, 0));
        }
        while j < self.values.len()
            invariant
                j <= self.values@.len(),
                vals == views(self.values@),
                head == old(w)@ + values_wire(vals, vals.len()),
                w@ == head + data_wire(vals, j as nat),
            decreases self.values@.len() - j,
        {
            proof {
                assert((j + 1 - 1) as nat == j as nat);
                assert(vals[j as int] == self.values@[j as int]@);
            }
            emit_data(&self.values[j], w);
            proof {
                lemma_append(head, data_wire(vals, j as nat), trailing_data(vals[j as int]));
            }
            j = j + 1;
        }
        proof {
            lemma_append(
                old(w)@,
                values_wire(vals, vals.len()),
                data_wire(vals, vals.len()),
            );
        }
        Ok(())
    }
}

/// Appends the data of a large object; other values have none.
fn emit_data(v: &HdbValue, w: &mut Vec<u8>)
    ensures
        final(w)@ == old(w)@ + trailing_data(v@),
{
    match v {
        HdbValue::CLOB(Some(l)) | HdbValue::NCLOB(Some(l)) | HdbValue::BLOB(Some(l)) => {
            serialize_bytes(l.data(), w);
        },
        _ => {
            assert(w@ =~= old(w)@ + Seq::<u8>::empty());
        },
    }
}

/// Whether two shapes are the same.
fn shape_eq(a: Shape, b: Shape) -> (r: bool)
    ensures
        r == (a == b),
{
    a == b
}

/// Length in bytes of the large object that a value holds, 0 if it holds
/// none.
fn lob_length(v: &HdbValue) -> (r: u64)
    ensures
        r == lob_advance(v@),
{
    match v {
        HdbValue::CLOB(Some(l)) | HdbValue::NCLOB(Some(l)) | HdbValue::BLOB(Some(l)) => l.len(),
        _ => 0,
    }
}

/// Once a value does not go with its parameter, the row does not.
pub proof fn lemma_mismatch_stays(
    vals: Seq<ValueView>,
    descs: Seq<ParameterDescriptorView>,
    i: nat,
    n: nat,
)
    requires
        i <= n,
        row_mismatch(vals, descs, i) is Some,
    ensures
        row_mismatch(vals, descs, n) == row_mismatch(vals, descs, i),
    decreases n - i,
{
    if i < n {
        lemma_mismatch_stays(vals, descs, i, (n - 1) as nat);
    }
}

/// Once a value cannot be sent, the row cannot.
pub proof fn lemma_check_stays(vals: Seq<ValueView>, i: nat, n: nat)
    requires
        i <= n,
        row_check(vals, i) is Err,
    ensures
        row_check(vals, n) == row_check(vals, i),
    decreases n - i,
{
    if i < n {
        lemma_check_stays(vals, i, (n - 1) as nat);
    }
}

/// If a row can be sent, so can its first values.
pub proof fn lemma_check_prefix(vals: Seq<ValueView>, i: nat, n: nat)
    requires
        i <= n,
        row_check(vals, n) is Ok,
    ensures
        row_check(vals, i) is Ok,
    decreases n - i,
{
    if i < n {
        lemma_check_prefix(vals, i, (n - 1) as nat);
    }
}

/// Number of input parameters among the first `k` descriptors.
pub open spec fn input_count(descs: Seq<ParameterDescriptorView>, k: nat) -> nat
    decreases k,
{
    if k == 0 {
        0
    } else {
        input_count(descs, (k - 1) as nat) + if descs[k - 1].is_input() {
            1nat
        } else {
            0nat
        }
    }
}

/// What the first `k` rows take, or why one of them cannot be sent: a row
/// must have one value for each of the `n_in` input parameters, and each of
/// its values must be one that can be sent.
pub open spec fn parameters_check(rows: Seq<Seq<ValueView>>, n_in: nat, k: nat) -> Result<
    int,
    HdbError,
>
    decreases k,
{
    if k == 0 {
        Ok(0)
    } else {
        match parameters_check(rows, n_in, (k - 1) as nat) {
            Err(e) => Err(e),
            Ok(total) => if rows[k - 1].len() != n_in {
                Err(HdbError::Impl(ImplError::RowDoesNotFitMetadata))
            } else {
                match row_check(rows[k - 1], rows[k - 1].len()) {
                    Err(e) => Err(e),
                    Ok(pr) => if total + pr.size > usize::MAX {
                        Err(HdbError::Impl(ImplError::TooLarge))
                    } else {
                        Ok(total + pr.size)
                    },
                }
            },
        }
    }
}

/// The bytes of the first `k` rows.
pub open spec fn parameters_wire(rows: Seq<Seq<ValueView>>, k: nat) -> Seq<u8>
    decreases k,
{
    if k == 0 {
        Seq::<u8>::empty()
    } else {
        parameters_wire(rows, (k - 1) as nat) + row_wire(rows[k - 1], rows[k - 1].len())
    }
}

/// Once a row cannot be sent, the rows cannot.
pub proof fn lemma_parameters_stay(rows: Seq<Seq<ValueView>>, n_in: nat, i: nat, n: nat)
    requires
        i <= n,
        parameters_check(rows, n_in, i) is Err,
    ensures
        parameters_check(rows, n_in, n) == parameters_check(rows, n_in, i),
    decreases n - i,
{
    if i < n {
        lemma_parameters_stay(rows, n_in, i, (n - 1) as nat);
    }
}

/// If rows can be sent, so can the first of them, and each of them.
pub proof fn lemma_parameters_prefix(rows: Seq<Seq<ValueView>>, n_in: nat, i: nat, n: nat)
    requires
        i <= n,
        parameters_check(rows, n_in, n) is Ok,
    ensures
        parameters_check(rows, n_in, i) is Ok,
        i > 0 ==> row_check(rows[i - 1], rows[i - 1].len()) is Ok,
    decreases n - i,
{
    if i < n {
        lemma_parameters_prefix(rows, n_in, i, (n - 1) as nat);
        lemma_parameters_prefix(rows, n_in, (i + 1) as nat, n);
    }
}

/// Rows that can be sent take the bytes that `parameters_check` counts.
pub proof fn lemma_parameters_size(rows: Seq<Seq<ValueView>>, n_in: nat, k: nat)
    requires
        parameters_check(rows, n_in, k) is Ok,
    ensures
        parameters_wire(rows, k).len() == parameters_check(rows, n_in, k)->Ok_0,
        0 <= parameters_check(rows, n_in, k)->Ok_0 <= usize::MAX,
    decreases k,
{
    if k > 0 {
        lemma_parameters_size(rows, n_in, (k - 1) as nat);
        lemma_row_size(rows[k - 1], rows[k - 1].len());
    }
}

/// Number of input parameters among descriptors.
pub fn count_inputs(descriptors: &[ParameterDescriptor]) -> (r: usize)
    ensures
        r == input_count(views(descriptors@), descriptors@.len()),
{
    let ghost descs = views(descriptors@);
    let mut n: usize = 0;
    let mut i: usize = 0;
    while i < descriptors.len()
        invariant
            i <= descriptors@.len(),
            descs == views(descriptors@),
            n <= i,
            n == input_count(descs, i as nat),
        decreases descriptors@.len() - i,
    {
        proof {
            assert((i + 1 - 1) as nat == i as nat);
            assert(descs[i as int] == descriptors@[i as int]@);
        }
        if descriptors[i].direction().is_input() {
            n = n + 1;
        }
        i = i + 1;
    }
    n
}

/// The rows of input parameters that go with one execute.
#[derive(Clone, Debug, PartialEq, Eq)]
pub struct Parameters {
    rows: Vec<ParameterRow>,
}

impl View for Parameters {
    type V = Seq<Seq<ValueView>>;

    closed spec fn view(&self) -> Seq<Seq<ValueView>> {
        views(self.rows@)
    }
}

impl Parameters {
    /// The rows of one request.
    pub fn new(rows: Vec<ParameterRow>) -> (r: Parameters)
        ensures
            r@ == views(rows@),
    {
        Parameters { rows }
    }

    /// Number of rows.
    pub fn count(&self) -> (r: usize)
        ensures
            r == self@.len(),
    {
        self.rows.len()
    }

    /// Number of bytes that `emit` writes, if the rows can be sent for the
    /// parameters that `par_md` describes.
    pub fn size(&self, par_md: &[ParameterDescriptor]) -> (r: Result<usize, HdbError>)
        ensures
            match r {
                Ok(n) => parameters_check(
                    self@,
                    input_count(views(par_md@), par_md@.len()),
                    self@.len(),
                ) == Ok::<_, HdbError>(n as int),
                Err(e) => parameters_check(
                    self@,
                    input_count(views(par_md@), par_md@.len()),
                    self@.len(),
                ) == Err::<int, _>(e),
            },
    {
        let n_in: usize = count_inputs(par_md);
        let ghost rows = self@;
        let mut total: usize = 0;
        let mut i: usize = 0;
        while i < self.rows.len()
            invariant
                i <= self.rows@.len(),
                rows == views(self.rows@),
                n_in == input_count(views(par_md@), par_md@.len()),
                parameters_check(rows, n_in as nat, i as nat) == Ok::<_, HdbError>(total as int),
            decreases self.rows@.len() - i,
        {
            proof {
                assert((i + 1 - 1) as nat == i as nat);
                assert(rows[i as int] == self.rows@[i as int]@);
            }
            let ghost next = parameters_check(rows, n_in as nat, (i + 1) as nat);
            let checked: Result<usize, HdbError> = if self.rows[i].len() != n_in {
                Err(HdbError::Impl(ImplError::RowDoesNotFitMetadata))
            } else {
                match self.rows[i].size() {
                    Err(e) => Err(e),
                    Ok(n) => match total.checked_add(n) {
                        None => Err(HdbError::Impl(ImplError::TooLarge)),
                        Some(t) => Ok(t),
                    },
                }
            };
            match checked {
                Err(e) => {
                    proof {
                        assert(next == Err::<int, _>(e));
                        lemma_parameters_stay(rows, n_in as nat, (i + 1) as nat, rows.len());
                    }
                    return Err(e);
                },
                Ok(t) => {
                    total = t;
                },
            }
            i = i + 1;
        }
        Ok(total)
    }

    /// Appends the rows, one after the other. Fails, and writes nothing, if
    /// the rows cannot be sent for the parameters that `par_md` describes.
    pub fn emit(&self, par_md: &[ParameterDescriptor], w: &mut Vec<u8>) -> (r: Result<
        (),
        HdbError,
    >)
        ensures
            match r {
                Ok(()) => parameters_check(
                    self@,
                    input_count(views(par_md@), par_md@.len()),
                    self@.len(),
                ) is Ok && final(w)@ == old(w)@ + parameters_wire(self@, self@.len()),
                Err(e) => parameters_check(
                    self@,
                    input_count(views(par_md@), par_md@.len()),
                    self@.len(),
                ) == Err::<int, _>(e) && final(w)@ == old(w)@,
            },
    {
        let _ = self.size(par_md)?;
        let ghost rows = self@;
        let ghost n_in = input_count(views(par_md@), par_md@.len());
        let mut i: usize = 0;
        proof {
            assert(w@ =~= old(w)@ + parameters_wire(rows, 0));
        }
        while i < self.rows.len()
            invariant
                i <= self.rows@.len(),
                rows == views(self.rows@),
                parameters_check(rows, n_in, rows.len()) is Ok,
                w@ == old(w)@ + parameters_wire(rows, i as nat),
            decreases self.rows@.len() - i,
        {
            proof {
                assert((i + 1 - 1) as nat == i as nat);
                assert(rows[i as int] == self.rows@[i as int]@);
                lemma_parameters_prefix(rows, n_in, (i + 1) as nat, rows.len());
            }
            match self.rows[i].emit(w) {
                Ok(()) => {},
                Err(e) => {
                    proof {
                        assert(false);
                    }
                    return Err(e);
                },
            }
            proof {
                lemma_append(
                    old(w)@,
                    parameters_wire(rows, i as nat),
                    row_wire(rows[i as int], rows[i as int].len()),
                );
            }
            i = i + 1;
        }
        Ok(())
    }
}

} // verus!
