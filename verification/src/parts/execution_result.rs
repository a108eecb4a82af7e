//! What a statement of a batch did: a row count, or one of two markers.

use crate::error::{HdbError, ProtocolError};
use crate::repeat::{lemma_repeat_failure, lemma_repeat_step, repeat_at};
use crate::wire::{get_i32, take_i32};
use vstd::prelude::*;

verus! {

/// The statement succeeded, and the server does not say how many rows it
/// affected.
pub const SUCCESS_NO_INFO: i32 = -2;

/// The statement failed.
pub const EXECUTION_FAILED: i32 = -3;

/// The outcome of one statement.
#[derive(Clone, Copy, Debug, PartialEq, Eq, Structural)]
pub enum ExecutionResult {
    /// Number of rows that the statement affected.
    RowsAffected(i32),
    /// Success, number of rows unknown.
    SuccessNoInfo,
    /// The statement failed.
    Failure,
}

/// The outcome that a number stands for, if it stands for one.
pub open spec fn execution_result_of(v: i32) -> Result<ExecutionResult, HdbError> {
    if v >= 0 {
        Ok(ExecutionResult::RowsAffected(v))
    } else if v == SUCCESS_NO_INFO {
        Ok(ExecutionResult::SuccessNoInfo)
    } else if v == EXECUTION_FAILED {
        Ok(ExecutionResult::Failure)
    } else {
        Err(HdbError::Protocol(ProtocolError::InvalidExecutionResult(v)))
    }
}

/// What the bytes at `pos` say of one outcome.
pub open spec fn execution_result_at(s: Seq<u8>, pos: int) -> Result<
    (ExecutionResult, int),
    HdbError,
> {
    match get_i32(s, pos) {
        Err(e) => Err(e),
        Ok((v, p)) => match execution_result_of(v) {
            Err(e) => Err(e),
            Ok(x) => Ok((x, p)),
        },
    }
}

/// Reads one outcome of a list.
pub open spec fn execution_result_reader() -> spec_fn(Seq<u8>, int) -> Result<
    (ExecutionResult, int),
    HdbError,
> {
    |s: Seq<u8>, p: int| execution_result_at(s, p)
}

/// What the bytes at `pos` say of `count` outcomes.
pub open spec fn execution_results_at(s: Seq<u8>, pos: int, count: nat) -> Result<
    (Seq<ExecutionResult>, int),
    HdbError,
> {
    repeat_at(execution_result_reader(), s, pos, count)
}

impl ExecutionResult {
    /// The number that stands for the outcome.
    pub open spec fn number(self) -> i32 {
        match self {
            ExecutionResult::RowsAffected(n) => n,
            ExecutionResult::SuccessNoInfo => SUCCESS_NO_INFO,
            ExecutionResult::Failure => EXECUTION_FAILED,
        }
    }

    /// The number that stands for the outcome on the wire.
    pub fn to_i32(&self) -> (r: i32)
        ensures
            r == self.number(),
    {
        match self {
            ExecutionResult::RowsAffected(n) => *n,
            ExecutionResult::SuccessNoInfo => SUCCESS_NO_INFO,
            ExecutionResult::Failure => EXECUTION_FAILED,
        }
    }

    /// The outcome that the number stands for; below -3 there is none.
    pub fn from_i32(v: i32) -> (r: Result<ExecutionResult, HdbError>)
        ensures
            match r {
                Ok(x) => execution_result_of(v) == Ok::<_, HdbError>(x) && x.number() == v,
                Err(e) => execution_result_of(v) == Err::<ExecutionResult, _>(e),
            },
    {
        if v >= 0 {
            Ok(ExecutionResult::RowsAffected(v))
        } else if v == SUCCESS_NO_INFO {
            Ok(ExecutionResult::SuccessNoInfo)
        } else if v == EXECUTION_FAILED {
            Ok(ExecutionResult::Failure)
        } else {
            Err(HdbError::Protocol(ProtocolError::InvalidExecutionResult(v)))
        }
    }

    /// Reads the outcomes of `count` statements.
    pub fn parse(count: usize, b: &[u8], pos: usize) -> (r: Result<
        (Vec<ExecutionResult>, usize),
        HdbError,
    >)
        ensures
            match r {
                Ok((v, p)) => execution_results_at(b@, pos as int, count as nat) == Ok::<
                    _,
                    HdbError,
                >((v@, p as int)),
                Err(e) => execution_results_at(b@, pos as int, count as nat) == Err::<
                    (Seq<ExecutionResult>, int),
                    _,
                >(e),
            },
    {
        let mut out: Vec<ExecutionResult> = Vec::new();
        let mut p: usize = pos;
        let mut i: usize = 0;
        while i < count
            invariant
                i <= count,
                repeat_at(execution_result_reader(), b@, pos as int, i as nat) == Ok::<
                    _,
                    HdbError,
                >((out@, p as int)),
            decreases count - i,
        {
            proof {
                lemma_repeat_step(execution_result_reader(), b@, pos as int, i as nat);
                assert(execution_result_reader()(b@, p as int) == execution_result_at(
                    b@,
                    p as int,
                ));
            }
            let ghost next = repeat_at(execution_result_reader(), b@, pos as int, (i + 1) as nat);
            let step: Result<(i32, usize), HdbError> = take_i32(b, p);
            let parsed: Result<(ExecutionResult, usize), HdbError> = match step {
                Err(e) => Err(e),
                Ok((v, q)) => match ExecutionResult::from_i32(v) {
                    Err(e) => Err(e),
                    Ok(x) => Ok((x, q)),
                },
            };
            let (x, q) = match parsed {
                Ok(t) => t,
                Err(e) => {
                    proof {
                        assert(next == Err::<(Seq<ExecutionResult>, int), _>(e));
                        lemma_repeat_failure(
                            execution_result_reader(),
                            b@,
                            pos as int,
                            (i + 1) as nat,
                            count as nat,
                        );
                    }
                    return Err(e);
                },
            };
            out.push(x);
            p = q;
            i = i + 1;
        }
        Ok((out, p))
    }
}

} // verus!
