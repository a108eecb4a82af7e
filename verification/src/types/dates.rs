//! Dates and timestamps. Each is one integer on the wire, with one value set
//! aside for NULL.

use crate::error::{HdbError, ImplError};
use crate::wire::{get_i32, get_i64, take_i32, take_i64};
use vstd::prelude::*;

verus! {

/// What an integer field with a NULL sentinel says: a raw value between `lo`
/// and `hi`, NULL where that is allowed, or an error.
pub open spec fn classify_raw(raw: int, nullable: bool, null_raw: int, lo: int, hi: int) -> Result<
    Option<int>,
    HdbError,
> {
    if raw == null_raw {
        if nullable {
            Ok(None)
        } else {
            Err(HdbError::Impl(ImplError::UnexpectedNull))
        }
    } else if lo <= raw <= hi {
        Ok(Some(raw))
    } else {
        Err(HdbError::Impl(ImplError::ValueOutOfRange))
    }
}

/// A four-byte field with a NULL sentinel.
pub open spec fn raw32_at(s: Seq<u8>, pos: int, nullable: bool, null_raw: int, lo: int, hi: int)
    -> Result<(Option<int>, int), HdbError> {
    match get_i32(s, pos) {
        Err(e) => Err(e),
        Ok((raw, p)) => match classify_raw(raw as int, nullable, null_raw, lo, hi) {
            Err(e) => Err(e),
            Ok(o) => Ok((o, p)),
        },
    }
}

/// An eight-byte field with a NULL sentinel.
pub open spec fn raw64_at(s: Seq<u8>, pos: int, nullable: bool, null_raw: int, lo: int, hi: int)
    -> Result<(Option<int>, int), HdbError> {
    match get_i64(s, pos) {
        Err(e) => Err(e),
        Ok((raw, p)) => match classify_raw(raw as int, nullable, null_raw, lo, hi) {
            Err(e) => Err(e),
            Ok(o) => Ok((o, p)),
        },
    }
}

/// The raw day that stands for NULL.
pub const DAYDATE_NULL: i32 = 0;

/// The raw second that stands for NULL.
pub const SECONDDATE_NULL: i64 = 315_538_070_401;

/// The raw tick that stands for NULL.
pub const LONGDATE_NULL: i64 = 3_155_380_704_000_000_001;

/// A calendar day: days since the epoch, plus one.
#[derive(Clone, Copy, Debug, PartialEq, Eq, Structural)]
pub struct DayDate(i32);

/// A timestamp in seconds since the epoch, plus one.
#[derive(Clone, Copy, Debug, PartialEq, Eq, Structural)]
pub struct SecondDate(i64);

/// A timestamp in ticks of 100 nanoseconds since the epoch, plus one.
#[derive(Clone, Copy, Debug, PartialEq, Eq, Structural)]
pub struct LongDate(i64);

/// Whether the raw value is a date.
pub open spec fn is_day(raw: int) -> bool {
    1 <= raw <= i32::MAX
}

/// Whether the raw value is a timestamp in seconds.
pub open spec fn is_second(raw: int) -> bool {
    0 <= raw < SECONDDATE_NULL
}

/// Whether the raw value is a timestamp in ticks.
pub open spec fn is_tick(raw: int) -> bool {
    0 <= raw < LONGDATE_NULL
}

impl DayDate {
    #[verifier::type_invariant]
    closed spec fn inv(self) -> bool {
        is_day(self.0 as int)
    }

    /// The raw value.
    pub closed spec fn raw(&self) -> int {
        self.0 as int
    }

    /// Holds of every value.
    pub open spec fn wf(&self) -> bool {
        is_day(self.raw())
    }

    /// The date of this raw value.
    pub fn new(raw: i32) -> (r: DayDate)
        requires
            is_day(raw as int),
        ensures
            r.raw() == raw,
            r.wf(),
    {
        DayDate(raw)
    }

    /// The raw value.
    pub fn ref_raw(&self) -> (r: &i32)
        ensures
            *r == self.raw(),
            self.wf(),
    {
        proof {
            use_type_invariant(self);
        }
        &self.0
    }
}

impl SecondDate {
    #[verifier::type_invariant]
    closed spec fn inv(self) -> bool {
        is_second(self.0 as int)
    }

    /// The raw value.
    pub closed spec fn raw(&self) -> int {
        self.0 as int
    }

    /// Holds of every value.
    pub open spec fn wf(&self) -> bool {
        is_second(self.raw())
    }

    /// The timestamp of this raw value.
    pub fn new(raw: i64) -> (r: SecondDate)
        requires
            is_second(raw as int),
        ensures
            r.raw() == raw,
            r.wf(),
    {
        SecondDate(raw)
    }

    /// The raw value.
    pub fn ref_raw(&self) -> (r: &i64)
        ensures
            *r == self.raw(),
            self.wf(),
    {
        proof {
            use_type_invariant(self);
        }
        &self.0
    }
}

impl LongDate {
    #[verifier::type_invariant]
    closed spec fn inv(self) -> bool {
        is_tick(self.0 as int)
    }

    /// The raw value.
    pub closed spec fn raw(&self) -> int {
        self.0 as int
    }

    /// Holds of every value.
    pub open spec fn wf(&self) -> bool {
        is_tick(self.raw())
    }

    /// The timestamp of this raw value.
    pub fn new(raw: i64) -> (r: LongDate)
        requires
            is_tick(raw as int),
        ensures
            r.raw() == raw,
            r.wf(),
    {
        LongDate(raw)
    }

    /// The raw value.
    pub fn ref_raw(&self) -> (r: &i64)
        ensures
            *r == self.raw(),
            self.wf(),
    {
        proof {
            use_type_invariant(self);
        }
        &self.0
    }
}

/// Reads a day; NULL only where `nullable` allows it.
pub fn parse_daydate(b: &[u8], pos: usize, nullable: bool) -> (r: Result<
    (Option<DayDate>, usize),
    HdbError,
>)
    ensures
        match r {
            Ok((o, p)) => raw32_at(b@, pos as int, nullable, 0, 1, i32::MAX as int) == Ok::<
                _,
                HdbError,
            >(
                (
                    match o {
                        Some(d) => Some(d.raw()),
                        None => None,
                    },
                    p as int,
                ),
            ) && (o matches Some(d) ==> d.wf()),
            Err(e) => raw32_at(b@, pos as int, nullable, 0, 1, i32::MAX as int) == Err::<
                (Option<int>, int),
                _,
            >(e),
        },
{
    let (raw, p) = take_i32(b, pos)?;
    if raw == DAYDATE_NULL {
        if nullable {
            Ok((None, p))
        } else {
            Err(HdbError::Impl(ImplError::UnexpectedNull))
        }
    } else if raw < 1 {
        Err(HdbError::Impl(ImplError::ValueOutOfRange))
    } else {
        Ok((Some(DayDate::new(raw)), p))
    }
}

/// Reads a timestamp in seconds; NULL only where `nullable` allows it.
pub fn parse_seconddate(b: &[u8], pos: usize, nullable: bool) -> (r: Result<
    (Option<SecondDate>, usize),
    HdbError,
>)
    ensures
        match r {
            Ok((o, p)) => raw64_at(
                b@,
                pos as int,
                nullable,
                SECONDDATE_NULL as int,
                0,
                SECONDDATE_NULL - 1,
            ) == Ok::<_, HdbError>(
                (
                    match o {
                        Some(d) => Some(d.raw()),
                        None => None,
                    },
                    p as int,
                ),
            ) && (o matches Some(d) ==> d.wf()),
            Err(e) => raw64_at(
                b@,
                pos as int,
                nullable,
                SECONDDATE_NULL as int,
                0,
                SECONDDATE_NULL - 1,
            ) == Err::<(Option<int>, int), _>(e),
        },
{
    let (raw, p) = take_i64(b, pos)?;
    if raw == SECONDDATE_NULL {
        if nullable {
            Ok((None, p))
        } else {
            Err(HdbError::Impl(ImplError::UnexpectedNull))
        }
    } else if raw < 0 || raw > SECONDDATE_NULL {
        Err(HdbError::Impl(ImplError::ValueOutOfRange))
    } else {
        Ok((Some(SecondDate::new(raw)), p))
    }
}

/// Reads a timestamp in ticks; NULL only where `nullable` allows it.
pub fn parse_longdate(b: &[u8], pos: usize, nullable: bool) -> (r: Result<
    (Option<LongDate>, usize),
    HdbError,
>)
    ensures
        match r {
            Ok((o, p)) => raw64_at(
                b@,
                pos as int,
                nullable,
                LONGDATE_NULL as int,
                0,
                LONGDATE_NULL - 1,
            ) == Ok::<_, HdbError>(
                (
                    match o {
                        Some(d) => Some(d.raw()),
                        None => None,
                    },
                    p as int,
                ),
            ) && (o matches Some(d) ==> d.wf()),
            Err(e) => raw64_at(
                b@,
                pos as int,
                nullable,
                LONGDATE_NULL as int,
                0,
                LONGDATE_NULL - 1,
            ) == Err::<(Option<int>, int), _>(e),
        },
{
    let (raw, p) = take_i64(b, pos)?;
    if raw == LONGDATE_NULL {
        if nullable {
            Ok((None, p))
        } else {
            Err(HdbError::Impl(ImplError::UnexpectedNull))
        }
    } else if raw < 0 || raw > LONGDATE_NULL {
        Err(HdbError::Impl(ImplError::ValueOutOfRange))
    } else {
        Ok((Some(LongDate::new(raw)), p))
    }
}

} // verus!
