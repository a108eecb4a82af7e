//! Decimal floating point numbers in the sixteen-byte layout of the wire:
//! 113 bits of mantissa, fourteen bits of biased exponent, one sign bit.

use crate::error::{HdbError, ImplError};
use crate::wire::{
    get_u64, le64, lemma_concat4, lemma_le_len, lemma_u64_reads_back, take_u64, write_u64,
};
use vstd::prelude::*;

verus! {

/// What is added to an exponent before it is stored.
pub const EXPONENT_BIAS: i16 = 6176;

/// The largest exponent that fits the fourteen bits.
pub const MAX_EXPONENT: i16 = 10207;

/// The smallest exponent.
pub const MIN_EXPONENT: i16 = -6176;

/// One more than the largest mantissa: 2^113.
pub const MANTISSA_LIMIT: u128 = 0x2_0000_0000_0000_0000_0000_0000_0000;

/// Two to the power of 64.
pub const TWO_64: u128 = 0x1_0000_0000_0000_0000;

/// Two to the power of 49.
pub const TWO_49: u64 = 0x2_0000_0000_0000;

/// Two to the power of 63.
pub const TWO_63: u64 = 0x8000_0000_0000_0000;

/// Sign, mantissa and exponent that are a decimal: they fit their bits, and
/// are not the pattern of all ones, which is NULL.
pub open spec fn decimal_valid(negative: bool, mantissa: int, exponent: int) -> bool {
    &&& 0 <= mantissa < MANTISSA_LIMIT
    &&& MIN_EXPONENT <= exponent <= MAX_EXPONENT
    &&& !(negative && mantissa == MANTISSA_LIMIT - 1 && exponent == MAX_EXPONENT)
}

/// Digits and exponent once digits were cut off from the right until what
/// is left fits the mantissa; each digit that is cut off raises the exponent
/// by one.
pub open spec fn cut(digits: int, exponent: int) -> (int, int)
    decreases digits,
{
    if digits < MANTISSA_LIMIT {
        (digits, exponent)
    } else {
        cut(digits / 10, exponent + 1)
    }
}

/// The decimal that digits and an exponent stand for, once the digits were
/// cut down to the mantissa; none if the exponent does not fit then.
pub open spec fn fitted_parts(negative: bool, digits: int, exponent: int) -> Option<DecimalParts> {
    let (m, e) = cut(digits, exponent);
    if decimal_valid(negative, m, e) {
        Some(DecimalParts { negative, mantissa: m, exponent: e })
    } else {
        None
    }
}

/// Cutting digits off never lowers the exponent, and leaves digits that
/// fit the mantissa.
pub proof fn lemma_cut(digits: int, exponent: int)
    requires
        0 <= digits,
    ensures
        cut(digits, exponent).1 >= exponent,
        0 <= cut(digits, exponent).0 < MANTISSA_LIMIT,
    decreases digits,
{
    if digits >= MANTISSA_LIMIT {
        lemma_cut(digits / 10, exponent + 1);
    }
}

/// The lower eight bytes, as a number.
pub open spec fn decimal_low(mantissa: int) -> int {
    mantissa % (TWO_64 as int)
}

/// The upper eight bytes, as a number.
pub open spec fn decimal_high(negative: bool, mantissa: int, exponent: int) -> int {
    mantissa / (TWO_64 as int) + (exponent + EXPONENT_BIAS) * TWO_49 + if negative {
        TWO_63 as int
    } else {
        0
    }
}

/// The sixteen bytes of a decimal.
pub open spec fn decimal_wire(negative: bool, mantissa: int, exponent: int) -> Seq<u8> {
    le64(decimal_low(mantissa)) + le64(decimal_high(negative, mantissa, exponent))
}

/// A decimal as the model sees it.
pub struct DecimalParts {
    pub negative: bool,
    pub mantissa: int,
    pub exponent: int,
}

/// Sign, mantissa and exponent held by two eight-byte numbers.
pub open spec fn decimal_of(lo: int, hi: int) -> DecimalParts {
    DecimalParts {
        negative: hi >= TWO_63,
        mantissa: (hi % (TWO_49 as int)) * TWO_64 + lo,
        exponent: (hi / (TWO_49 as int)) % 0x4000 - EXPONENT_BIAS,
    }
}

/// What sixteen bytes say of a decimal: all ones are NULL, anything else is
/// a decimal.
pub open spec fn decimal_at(s: Seq<u8>, pos: int, nullable: bool) -> Result<
    (Option<DecimalParts>, int),
    HdbError,
> {
    match get_u64(s, pos) {
        Err(e) => Err(e),
        Ok((lo, p)) => match get_u64(s, p) {
            Err(e) => Err(e),
            Ok((hi, q)) => if lo == u64::MAX && hi == u64::MAX {
                if nullable {
                    Ok((None, q))
                } else {
                    Err(HdbError::Impl(ImplError::UnexpectedNull))
                }
            } else {
                Ok((Some(decimal_of(lo as int, hi as int)), q))
            },
        },
    }
}

/// A decimal number: (-1)^negative * mantissa * 10^exponent.
#[derive(Clone, Copy, Debug, PartialEq, Eq, Structural)]
pub struct HdbDecimal {
    negative: bool,
    mantissa: u128,
    exponent: i16,
}

impl View for HdbDecimal {
    type V = DecimalParts;

    closed spec fn view(&self) -> DecimalParts {
        DecimalParts {
            negative: self.negative,
            mantissa: self.mantissa as int,
            exponent: self.exponent as int,
        }
    }
}

impl HdbDecimal {
    #[verifier::type_invariant]
    closed spec fn inv(self) -> bool {
        decimal_valid(self.negative, self.mantissa as int, self.exponent as int)
    }

    /// Holds of every value.
    pub open spec fn wf(&self) -> bool {
        decimal_valid(self@.negative, self@.mantissa, self@.exponent)
    }

    /// The decimal with this sign, mantissa and exponent, if they fit.
    pub fn new(negative: bool, mantissa: u128, exponent: i16) -> (r: Option<HdbDecimal>)
        ensures
            r is Some <==> decimal_valid(negative, mantissa as int, exponent as int),
            r matches Some(d) ==> d@ == (DecimalParts {
                negative,
                mantissa: mantissa as int,
                exponent: exponent as int,
            }) && d.wf(),
    {
        if mantissa >= MANTISSA_LIMIT || exponent < MIN_EXPONENT || exponent > MAX_EXPONENT {
            None
        } else if negative && mantissa == MANTISSA_LIMIT - 1 && exponent == MAX_EXPONENT {
            None
        } else {
            Some(HdbDecimal { negative, mantissa, exponent })
        }
    }

    /// The decimal of these digits and this exponent. Digits that do not fit
    /// the mantissa are cut off from the right. There is none if the
    /// exponent does not fit.
    pub fn fitted(negative: bool, digits: u128, exponent: i64) -> (r: Option<HdbDecimal>)
        ensures
            match r {
                Some(d) => fitted_parts(negative, digits as int, exponent as int) == Some(d@),
                None => fitted_parts(negative, digits as int, exponent as int) is None,
            },
    {
        let mut m: u128 = digits;
        let mut e: i64 = exponent;
        while m >= MANTISSA_LIMIT
            invariant
                cut(digits as int, exponent as int) == cut(m as int, e as int),
            decreases m,
        {
            if e == i64::MAX {
                proof {
                    lemma_cut(m as int, e as int);
                }
                return None;
            }
            m = m / 10;
            e = e + 1;
        }
        if e < MIN_EXPONENT as i64 || e > MAX_EXPONENT as i64 {
            None
        } else {
            HdbDecimal::new(negative, m, e as i16)
        }
    }

    /// Whether the number is below zero.
    pub fn is_negative(&self) -> (r: bool)
        ensures
            r == self@.negative,
            self.wf(),
    {
        proof {
            use_type_invariant(self);
        }
        self.negative
    }

    /// The digits, as a whole number.
    pub fn mantissa(&self) -> (r: u128)
        ensures
            r == self@.mantissa,
    {
        self.mantissa
    }

    /// The power of ten that the digits are multiplied with.
    pub fn exponent(&self) -> (r: i16)
        ensures
            r == self@.exponent,
    {
        self.exponent
    }

    /// Appends the sixteen bytes of the decimal.
    pub fn emit(&self, w: &mut Vec<u8>)
        ensures
            self.wf(),
            final(w)@ == old(w)@ + decimal_wire(self@.negative, self@.mantissa, self@.exponent),
    {
        proof {
            use_type_invariant(self);
        }
        let lo: u64 = (self.mantissa % TWO_64) as u64;
        let top: u64 = (self.mantissa / TWO_64) as u64;
        let biased: u64 = (self.exponent as i32 + EXPONENT_BIAS as i32) as u64;
        let sign: u64 = if self.negative {
            TWO_63
        } else {
            0
        };
        let hi: u64 = top + biased * TWO_49 + sign;
        write_u64(w, lo);
        write_u64(w, hi);
        assert(w@ =~= old(w)@ + decimal_wire(self@.negative, self@.mantissa, self@.exponent));
    }
}

/// Reads a decimal; NULL only where `nullable` allows it.
pub fn parse_decimal(b: &[u8], pos: usize, nullable: bool) -> (r: Result<
    (Option<HdbDecimal>, usize),
    HdbError,
>)
    ensures
        match r {
            Ok((o, p)) => decimal_at(b@, pos as int, nullable) == Ok::<_, HdbError>(
                (
                    match o {
                        Some(d) => Some(d@),
                        None => None,
                    },
                    p as int,
                ),
            ) && (o matches Some(d) ==> d.wf()),
            Err(e) => decimal_at(b@, pos as int, nullable) == Err::<
                (Option<DecimalParts>, int),
                _,
            >(e),
        },
{
    let (lo, p) = take_u64(b, pos)?;
    let (hi, q) = take_u64(b, p)?;
    if lo == u64::MAX && hi == u64::MAX {
        if nullable {
            Ok((None, q))
        } else {
            Err(HdbError::Impl(ImplError::UnexpectedNull))
        }
    } else {
        let negative: bool = hi >= TWO_63;
        let mantissa: u128 = ((hi % TWO_49) as u128) * TWO_64 + (lo as u128);
        let exponent: i16 = (((hi / TWO_49) % 0x4000) as i32 - EXPONENT_BIAS as i32) as i16;
        Ok((Some(HdbDecimal { negative, mantissa, exponent }), q))
    }
}

/// The two halves of a decimal's bytes give back its sign, mantissa and
/// exponent, and are not both all ones.
pub proof fn lemma_decimal_halves(negative: bool, mantissa: int, exponent: int)
    requires
        decimal_valid(negative, mantissa, exponent),
    ensures
        0 <= decimal_low(mantissa) < 0x1_0000_0000_0000_0000,
        0 <= decimal_high(negative, mantissa, exponent) < 0x1_0000_0000_0000_0000,
        decimal_of(decimal_low(mantissa), decimal_high(negative, mantissa, exponent)) == (
        DecimalParts { negative, mantissa, exponent }),
        !(decimal_low(mantissa) == u64::MAX && decimal_high(negative, mantissa, exponent)
            == u64::MAX),
{
    let lo = decimal_low(mantissa);
    let hi = decimal_high(negative, mantissa, exponent);
    let top = mantissa / (TWO_64 as int);
    let biased = exponent + EXPONENT_BIAS;
    let sign: int = if negative {
        1
    } else {
        0
    };
    assert(mantissa == (TWO_64 as int) * top + lo);
    assert(0 <= top < TWO_49);
    assert(0 <= biased < 0x4000);
    assert(hi == top + (TWO_49 as int) * (biased + 0x4000 * sign));
    assert(hi % (TWO_49 as int) == top);
    assert(hi / (TWO_49 as int) == biased + 0x4000 * sign);
    assert((hi / (TWO_49 as int)) % 0x4000 == biased);
    if lo == u64::MAX && hi == u64::MAX {
        assert(top == TWO_49 - 1);
        assert(biased == 0x3fff);
        assert(negative);
        assert(mantissa == MANTISSA_LIMIT - 1);
        assert(false);
    }
}

/// A decimal that was written reads back as itself.
pub proof fn lemma_decimal_reads_back(
    a: Seq<u8>,
    negative: bool,
    mantissa: int,
    exponent: int,
    nullable: bool,
    b: Seq<u8>,
)
    requires
        decimal_valid(negative, mantissa, exponent),
    ensures
        decimal_at(a + decimal_wire(negative, mantissa, exponent) + b, a.len() as int, nullable)
            == Ok::<_, HdbError>(
            (Some(DecimalParts { negative, mantissa, exponent }), (a.len() + 16) as int),
        ),
{
    let lo = decimal_low(mantissa);
    let hi = decimal_high(negative, mantissa, exponent);
    lemma_decimal_halves(negative, mantissa, exponent);
    let s = a + decimal_wire(negative, mantissa, exponent) + b;
    lemma_le_len(lo);
    lemma_le_len(hi);
    lemma_concat4(a, le64(lo), le64(hi), b);
    lemma_u64_reads_back(a, lo as u64, le64(hi) + b);
    lemma_u64_reads_back(a + le64(lo), hi as u64, b);
    assert(get_u64(s, a.len() as int) == Ok::<_, HdbError>((lo as u64, (a.len() + 8) as int)));
    assert(get_u64(s, (a.len() + 8) as int) == Ok::<_, HdbError>(
        (hi as u64, (a.len() + 16) as int),
    ));
}

} // verus!
