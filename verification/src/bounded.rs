//! Numbers that are checked against a range when they are made.
//!
//! A number is given and kept as the bit pattern of an IEEE 754 binary64
//! value: one sign bit, eleven exponent bits, fifty-two fraction bits.

use vstd::prelude::*;
use crate::error::{Bound, CodecError, ErrorKind, Failure, FailureKind};

verus! {

/// The bit pattern of one hundred.
pub const HUNDRED: u64 = 0x4059_0000_0000_0000;

/// The bit pattern of positive infinity.
pub const INFINITY: u64 = 0x7ff0_0000_0000_0000;

/// The bit pattern of negative zero.
pub const NEGATIVE_ZERO: u64 = 0x8000_0000_0000_0000;

/// Whether the sign bit is set.
pub open spec fn negative(bits: u64) -> bool {
    bits >> 63 == 1
}

/// The biased exponent.
pub open spec fn exponent(bits: u64) -> u64 {
    (bits >> 52) & 0x7ff
}

/// The fraction bits.
pub open spec fn fraction(bits: u64) -> u64 {
    bits & 0x000f_ffff_ffff_ffff
}

/// Whether the pattern stands for no number at all.
pub open spec fn is_nan(bits: u64) -> bool {
    exponent(bits) == 0x7ff && fraction(bits) != 0
}

/// Whether the pattern stands for zero, of either sign.
pub open spec fn is_zero(bits: u64) -> bool {
    exponent(bits) == 0 && fraction(bits) == 0
}

/// Whether the magnitude of `bits` is at most that of `limit`, neither being
/// NaN: magnitudes are ordered by exponent first and by fraction second.
pub open spec fn magnitude_at_most(bits: u64, limit: u64) -> bool {
    exponent(bits) < exponent(limit) || (exponent(bits) == exponent(limit) && fraction(bits)
        <= fraction(limit))
}

/// Whether the number is zero or more as numbers compare: not NaN, and
/// either without a sign or a zero.
pub open spec fn at_least_zero(bits: u64) -> bool {
    !is_nan(bits) && (!negative(bits) || is_zero(bits))
}

/// Whether the number is one hundred or less as numbers compare: not NaN, and
/// either negative or of a magnitude up to one hundred.
pub open spec fn at_most_hundred(bits: u64) -> bool {
    !is_nan(bits) && (negative(bits) || magnitude_at_most(bits, HUNDRED))
}

/// The range of a percentage: from zero to one hundred, both included.
/// Negative zero compares equal to zero and is in the range.
pub open spec fn is_percentage(bits: u64) -> bool {
    at_least_zero(bits) && at_most_hundred(bits)
}

/// The range of a non-negative number: not NaN and with a clear sign bit.
/// Negative zero carries the sign and is outside the range.
pub open spec fn is_non_negative(bits: u64) -> bool {
    !is_nan(bits) && !negative(bits)
}

/// The failure that reports `bits` as outside `bound`.
pub open spec fn violation(bits: u64, bound: Bound) -> Failure {
    Failure::at_root(FailureKind::BoundViolation { value: bits, bound })
}

/// A number from zero to one hundred.
#[derive(Clone, Copy, Debug, PartialEq, Eq)]
pub struct Percentage {
    value: u64,
}

/// A number that is zero or more and carries no sign.
#[derive(Clone, Copy, Debug, PartialEq, Eq)]
pub struct PositiveFloat {
    value: u64,
}

impl View for Percentage {
    type V = u64;

    /// The bit pattern of the number.
    closed spec fn view(&self) -> u64 {
        self.value
    }
}

impl View for PositiveFloat {
    type V = u64;

    /// The bit pattern of the number.
    closed spec fn view(&self) -> u64 {
        self.value
    }
}

impl Percentage {
    #[verifier::type_invariant]
    spec fn in_range(self) -> bool {
        is_percentage(self.value)
    }

    /// Checks the range and keeps the number.
    pub fn new(bits: u64) -> (r: Result<Percentage, CodecError>)
        ensures
            match r {
                Ok(p) => is_percentage(bits) && p@ == bits,
                Err(e) => !is_percentage(bits) && e@ == violation(bits, Bound::Percentage),
            },
    {
        assert(is_percentage(bits) <==> (bits <= HUNDRED || bits == NEGATIVE_ZERO)) by (bit_vector)
            requires
                is_percentage(bits) == ({
                    let e = (bits >> 52) & 0x7ff;
                    let f = bits & 0x000f_ffff_ffff_ffff;
                    let nan = e == 0x7ff && f != 0;
                    let le = (bits >> 52) & 0x7ff;
                    &&& !nan && (!(bits >> 63 == 1) || (e == 0 && f == 0))
                    &&& !nan && (bits >> 63 == 1 || e < ((0x4059_0000_0000_0000u64 >> 52) & 0x7ff)
                        || (e == ((0x4059_0000_0000_0000u64 >> 52) & 0x7ff) && f <= (
                    0x4059_0000_0000_0000u64 & 0x000f_ffff_ffff_ffff)))
                }),
                HUNDRED == 0x4059_0000_0000_0000u64,
                NEGATIVE_ZERO == 0x8000_0000_0000_0000u64,
        ;
        if bits <= HUNDRED || bits == NEGATIVE_ZERO {
            Ok(Percentage { value: bits })
        } else {
            Err(
                CodecError::at_root(
                    ErrorKind::BoundViolation { value: bits, bound: Bound::Percentage },
                ),
            )
        }
    }

    /// The bit pattern of the number.
    pub fn get(self) -> (r: u64)
        ensures
            r == self@,
            is_percentage(r),
    {
        proof {
            use_type_invariant(self);
        }
        self.value
    }
}

impl PositiveFloat {
    #[verifier::type_invariant]
    spec fn in_range(self) -> bool {
        is_non_negative(self.value)
    }

    /// Checks the range and keeps the number.
    pub fn new(bits: u64) -> (r: Result<PositiveFloat, CodecError>)
        ensures
            match r {
                Ok(p) => is_non_negative(bits) && p@ == bits,
                Err(e) => !is_non_negative(bits) && e@ == violation(bits, Bound::NonNegative),
            },
    {
        assert(is_non_negative(bits) <==> bits <= INFINITY) by (bit_vector)
            requires
                is_non_negative(bits) == ({
                    let e = (bits >> 52) & 0x7ff;
                    let f = bits & 0x000f_ffff_ffff_ffff;
                    !(e == 0x7ff && f != 0) && !(bits >> 63 == 1)
                }),
                INFINITY == 0x7ff0_0000_0000_0000u64,
        ;
        if bits <= INFINITY {
            Ok(PositiveFloat { value: bits })
        } else {
            Err(
                CodecError::at_root(
                    ErrorKind::BoundViolation { value: bits, bound: Bound::NonNegative },
                ),
            )
        }
    }

    /// The bit pattern of the number.
    pub fn get(self) -> (r: u64)
        ensures
            r == self@,
            is_non_negative(r),
    {
        proof {
            use_type_invariant(self);
        }
        self.value
    }
}

} // verus!
