//! Time of day with a resolution of one second.

use crate::error::{HdbError, ImplError};
use crate::types::dates::raw32_at;
use crate::wire::take_i32;
use vstd::prelude::*;

verus! {

/// The raw value that stands for NULL.
pub const NULL_REPRESENTATION: i32 = 86_402;

/// Seconds in a minute.
pub const MINUTE_FACTOR: u32 = 60;

/// Seconds in an hour.
pub const HOUR_FACTOR: u32 = 3_600;

/// The last second of the day.
pub const LAST_SECOND: u32 = 86_399;

/// A time of day. The raw value is hours * 3600 + minutes * 60 + seconds + 1;
/// an empty input is stored as 0, and reads as midnight like 1 does.
#[derive(Clone, Copy, Debug, PartialEq, Eq, Structural)]
pub struct SecondTime(u32);

/// Seconds since midnight that a raw value stands for. Raw values past the
/// last second of the day read as that second.
pub open spec fn seconds_of_day(raw: int) -> int {
    if raw <= 1 {
        0
    } else if raw - 1 > 86_399 {
        86_399
    } else {
        raw - 1
    }
}

/// Raw values that are a time, and not NULL.
pub open spec fn is_time(raw: int) -> bool {
    0 <= raw < 86_402
}

impl SecondTime {
    #[verifier::type_invariant]
    closed spec fn inv(self) -> bool {
        is_time(self.0 as int)
    }

    /// The raw value of the time.
    pub closed spec fn raw(&self) -> int {
        self.0 as int
    }

    /// Holds of every value.
    pub open spec fn wf(&self) -> bool {
        is_time(self.raw())
    }

    /// The time of day of this raw value.
    pub fn new(raw: i32) -> (r: SecondTime)
        requires
            0 <= raw < NULL_REPRESENTATION,
        ensures
            r.raw() == raw,
            r.wf(),
    {
        SecondTime(raw as u32)
    }

    /// The raw value.
    pub fn ref_raw(&self) -> (r: &u32)
        ensures
            *r == self.raw(),
            self.wf(),
    {
        proof {
            use_type_invariant(self);
        }
        &self.0
    }

    /// The time with these hours, minutes and seconds, if there is one.
    pub fn from_hms(hour: u32, minute: u32, second: u32) -> (r: Result<SecondTime, &'static str>)
        ensures
            r is Ok <==> hour <= 23 && minute <= 59 && second <= 59,
            r matches Ok(t) ==> t.raw() == hour * 3600 + minute * 60 + second + 1 && t.wf(),
            r matches Err(m) ==> m@ == "illegal value of hour, minute or second"@,
    {
        if hour > 23 || minute > 59 || second > 59 {
            Err("illegal value of hour, minute or second")
        } else {
            Ok(SecondTime(hour * HOUR_FACTOR + minute * MINUTE_FACTOR + second + 1))
        }
    }

    /// Hours, minutes and seconds.
    pub fn as_hms(&self) -> (r: (u32, u32, u32))
        ensures
            r.0 * 3600 + r.1 * 60 + r.2 == seconds_of_day(self.raw()),
            r.0 <= 23,
            r.1 <= 59,
            r.2 <= 59,
    {
        proof {
            use_type_invariant(self);
        }
        let mut second: u32 = if self.0 == 0 {
            0
        } else {
            self.0 - 1
        };
        if second > LAST_SECOND {
            second = LAST_SECOND;
        }
        let hour: u32 = second / HOUR_FACTOR;
        second -= HOUR_FACTOR * hour;
        let minute: u32 = second / MINUTE_FACTOR;
        second -= MINUTE_FACTOR * minute;
        (hour, minute, second)
    }
}

/// `from_hms` and `as_hms` undo each other.
pub proof fn lemma_hms_round_trip(hour: int, minute: int, second: int)
    requires
        0 <= hour <= 23,
        0 <= minute <= 59,
        0 <= second <= 59,
    ensures
        is_time(hour * 3600 + minute * 60 + second + 1),
        seconds_of_day(hour * 3600 + minute * 60 + second + 1) == hour * 3600 + minute * 60
            + second,
{
}

/// Reads a time that cannot be NULL.
pub fn parse_secondtime(b: &[u8], pos: usize) -> (r: Result<(SecondTime, usize), HdbError>)
    ensures
        match r {
            Ok((t, p)) => raw32_at(b@, pos as int, false, 86_402, 0, 86_401) == Ok::<_, HdbError>(
                (Some(t.raw()), p as int),
            ) && t.wf(),
            Err(e) => raw32_at(b@, pos as int, false, 86_402, 0, 86_401) == Err::<
                (Option<int>, int),
                _,
            >(e),
        },
{
    let (st, p) = take_i32(b, pos)?;
    if st == NULL_REPRESENTATION {
        Err(HdbError::Impl(ImplError::UnexpectedNull))
    } else if st < 0 || st > NULL_REPRESENTATION {
        Err(HdbError::Impl(ImplError::ValueOutOfRange))
    } else {
        Ok((SecondTime::new(st), p))
    }
}

/// Reads a time that may be NULL.
pub fn parse_nullable_secondtime(b: &[u8], pos: usize) -> (r: Result<
    (Option<SecondTime>, usize),
    HdbError,
>)
    ensures
        match r {
            Ok((o, p)) => raw32_at(b@, pos as int, true, 86_402, 0, 86_401) == Ok::<_, HdbError>(
                (
                    match o {
                        Some(t) => Some(t.raw()),
                        None => None,
                    },
                    p as int,
                ),
            ) && (o matches Some(t) ==> t.wf()),
            Err(e) => raw32_at(b@, pos as int, true, 86_402, 0, 86_401) == Err::<
                (Option<int>, int),
                _,
            >(e),
        },
{
    let (st, p) = take_i32(b, pos)?;
    if st == NULL_REPRESENTATION {
        Ok((None, p))
    } else if st < 0 || st > NULL_REPRESENTATION {
        Err(HdbError::Impl(ImplError::ValueOutOfRange))
    } else {
        Ok((Some(SecondTime::new(st)), p))
    }
}

} // verus!
