//! What a call to the database gives back.

use crate::error::{EvaluationError, HdbError};
use crate::parts::execution_result::ExecutionResult;
use crate::parts::output_parameters::{Output, OutputParameters};
use crate::parts::resultset::{ResultSet, ResultSetView};
use crate::repeat::{lemma_views_empty, lemma_views_push, views};
use vstd::prelude::*;

verus! {

/// One thing that a reply gave back, before the reply as a whole is
/// classified.
#[derive(Debug, PartialEq, Eq)]
pub enum InternalReturnValue {
    AffectedRows(Vec<ExecutionResult>),
    OutputParameters(OutputParameters),
    ResultSet(ResultSet),
}

/// One of several things that a call gave back.
#[derive(Debug, PartialEq, Eq)]
pub enum HdbReturnValue {
    /// A result set.
    ResultSet(ResultSet),
    /// Rows affected, one number for each statement: -2 says success
    /// without a number, -3 says failure.
    AffectedRows(Vec<i32>),
    /// The output parameters of a procedure call.
    OutputParameters(OutputParameters),
}

/// What a call gave back.
#[derive(Debug, PartialEq, Eq)]
pub enum HdbResponse {
    /// Rows affected, one number for each statement: -2 says success
    /// without a number, -3 says failure.
    AffectedRows(Vec<i32>),
    /// A result set.
    ResultSet(ResultSet),
    /// The output parameters of a procedure call.
    OutputParameters(OutputParameters),
    /// Several things, in the order in which they arrived.
    MultipleReturnValues(Vec<HdbReturnValue>),
    /// The call succeeded, and there is nothing more to say.
    Success,
}

/// A return value as the model sees it.
pub enum ReturnValueView {
    ResultSet(ResultSetView),
    AffectedRows(Seq<i32>),
    OutputParameters(Seq<Output>),
}

/// What a call gave back, as the model sees it.
pub enum ResponseView {
    AffectedRows(Seq<i32>),
    ResultSet(ResultSetView),
    OutputParameters(Seq<Output>),
    MultipleReturnValues(Seq<ReturnValueView>),
    Success,
}

/// The numbers that stand for outcomes.
pub open spec fn numbers(v: Seq<ExecutionResult>) -> Seq<i32> {
    Seq::new(v.len(), |i: int| v[i].number())
}

impl View for InternalReturnValue {
    type V = ReturnValueView;

    open spec fn view(&self) -> ReturnValueView {
        match self {
            InternalReturnValue::AffectedRows(v) => ReturnValueView::AffectedRows(numbers(v@)),
            InternalReturnValue::OutputParameters(o) => ReturnValueView::OutputParameters(o@),
            InternalReturnValue::ResultSet(rs) => ReturnValueView::ResultSet(rs@),
        }
    }
}

impl View for HdbReturnValue {
    type V = ReturnValueView;

    open spec fn view(&self) -> ReturnValueView {
        match self {
            HdbReturnValue::AffectedRows(v) => ReturnValueView::AffectedRows(v@),
            HdbReturnValue::OutputParameters(o) => ReturnValueView::OutputParameters(o@),
            HdbReturnValue::ResultSet(rs) => ReturnValueView::ResultSet(rs@),
        }
    }
}

impl View for HdbResponse {
    type V = ResponseView;

    open spec fn view(&self) -> ResponseView {
        match self {
            HdbResponse::AffectedRows(v) => ResponseView::AffectedRows(v@),
            HdbResponse::ResultSet(rs) => ResponseView::ResultSet(rs@),
            HdbResponse::OutputParameters(o) => ResponseView::OutputParameters(o@),
            HdbResponse::MultipleReturnValues(v) => ResponseView::MultipleReturnValues(views(v@)),
            HdbResponse::Success => ResponseView::Success,
        }
    }
}

/// The result set that a query gave back: the one and only return value.
pub open spec fn resultset_of(irvs: Seq<ReturnValueView>) -> Result<ResponseView, HdbError> {
    if irvs.len() != 1 {
        Err(HdbError::Evaluation(EvaluationError::NotSingle))
    } else {
        match irvs[0] {
            ReturnValueView::ResultSet(rs) => Ok(ResponseView::ResultSet(rs)),
            _ => Err(HdbError::Evaluation(EvaluationError::WrongKind)),
        }
    }
}

/// The rows affected that a change of data gave back: the one and only
/// return value.
pub open spec fn rows_affected_of(irvs: Seq<ReturnValueView>) -> Result<ResponseView, HdbError> {
    if irvs.len() != 1 {
        Err(HdbError::Evaluation(EvaluationError::NotSingle))
    } else {
        match irvs[0] {
            ReturnValueView::AffectedRows(v) => Ok(ResponseView::AffectedRows(v)),
            _ => Err(HdbError::Evaluation(EvaluationError::WrongKind)),
        }
    }
}

/// Success: no return value, or rows affected and nothing else.
pub open spec fn success_of(irvs: Seq<ReturnValueView>) -> Result<ResponseView, HdbError> {
    if irvs.len() > 1 {
        Err(HdbError::Evaluation(EvaluationError::NotSingle))
    } else if irvs.len() == 0 {
        Ok(ResponseView::Success)
    } else {
        match irvs[0] {
            ReturnValueView::AffectedRows(_) => Ok(ResponseView::Success),
            _ => Err(HdbError::Evaluation(EvaluationError::WrongKind)),
        }
    }
}

/// Turns outcomes into their numbers.
pub fn to_numbers(v: &Vec<ExecutionResult>) -> (r: Vec<i32>)
    ensures
        r@ == numbers(v@),
{
    let mut out: Vec<i32> = Vec::new();
    let mut i: usize = 0;
    while i < v.len()
        invariant
            i <= v@.len(),
            out@ == numbers(v@.take(i as int)),
        decreases v@.len() - i,
    {
        out.push(v[i].to_i32());
        i = i + 1;
        proof {
            assert(out@ =~= numbers(v@.take(i as int)));
        }
    }
    proof {
        assert(v@.take(i as int) =~= v@);
    }
    out
}

/// The response to a query.
pub fn resultset(mut int_return_values: Vec<InternalReturnValue>) -> (r: Result<
    HdbResponse,
    HdbError,
>)
    ensures
        match r {
            Ok(x) => resultset_of(views(int_return_values@)) == Ok::<_, HdbError>(x@),
            Err(e) => resultset_of(views(int_return_values@)) == Err::<ResponseView, _>(e),
        },
{
    if int_return_values.len() != 1 {
        return Err(HdbError::Evaluation(EvaluationError::NotSingle));
    }
    match int_return_values.pop() {
        Some(InternalReturnValue::ResultSet(rs)) => Ok(HdbResponse::ResultSet(rs)),
        _ => Err(HdbError::Evaluation(EvaluationError::WrongKind)),
    }
}

/// The response to a change of data.
pub fn rows_affected(mut int_return_values: Vec<InternalReturnValue>) -> (r: Result<
    HdbResponse,
    HdbError,
>)
    ensures
        match r {
            Ok(x) => rows_affected_of(views(int_return_values@)) == Ok::<_, HdbError>(x@),
            Err(e) => rows_affected_of(views(int_return_values@)) == Err::<ResponseView, _>(e),
        },
{
    if int_return_values.len() != 1 {
        return Err(HdbError::Evaluation(EvaluationError::NotSingle));
    }
    match int_return_values.pop() {
        Some(InternalReturnValue::AffectedRows(v)) => Ok(HdbResponse::AffectedRows(to_numbers(&v))),
        _ => Err(HdbError::Evaluation(EvaluationError::WrongKind)),
    }
}

/// The response to a data definition, a commit or a rollback.
pub fn success(mut int_return_values: Vec<InternalReturnValue>) -> (r: Result<
    HdbResponse,
    HdbError,
>)
    ensures
        match r {
            Ok(x) => success_of(views(int_return_values@)) == Ok::<_, HdbError>(x@),
            Err(e) => success_of(views(int_return_values@)) == Err::<ResponseView, _>(e),
        },
{
    if int_return_values.len() > 1 {
        return Err(HdbError::Evaluation(EvaluationError::NotSingle));
    }
    match int_return_values.pop() {
        None => Ok(HdbResponse::Success),
        Some(InternalReturnValue::AffectedRows(_)) => Ok(HdbResponse::Success),
        Some(_) => Err(HdbError::Evaluation(EvaluationError::WrongKind)),
    }
}

/// The response to a procedure call: all return values, in their order.
pub fn multiple_return_values(int_return_values: Vec<InternalReturnValue>) -> (r: Result<
    HdbResponse,
    HdbError,
>)
    ensures
        r matches Ok(x) && x@ == ResponseView::MultipleReturnValues(views(int_return_values@)),
{
    let ghost all = views(int_return_values@);
    let mut rest: Vec<InternalReturnValue> = int_return_values;
    let mut out: Vec<HdbReturnValue> = Vec::new();
    proof {
        lemma_views_empty(out@);
        assert(views(out@) + views(rest@) =~= all);
    }
    while rest.len() > 0
        invariant
            views(out@) + views(rest@) == all,
        decreases rest@.len(),
    {
        let ghost before = rest@;
        let first: InternalReturnValue = rest.remove(0);
        let value: HdbReturnValue = match first {
            InternalReturnValue::AffectedRows(v) => HdbReturnValue::AffectedRows(to_numbers(&v)),
            InternalReturnValue::OutputParameters(o) => HdbReturnValue::OutputParameters(o),
            InternalReturnValue::ResultSet(rs) => HdbReturnValue::ResultSet(rs),
        };
        proof {
            lemma_views_push(out@, value);
            assert(views(out@.push(value)) + views(rest@) =~= views(out@) + views(before));
        }
        out.push(value);
    }
    proof {
        assert(views(out@) =~= all);
    }
    Ok(HdbResponse::MultipleReturnValues(out))
}

} // verus!
