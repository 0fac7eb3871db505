//! Exact decimal numbers for prices and amounts.
use vstd::prelude::*;

use crate::text::{equals_ignoring_case, same_ignoring_case, utf8};

verus! {

/// A decimal number, `mantissa * 10^(-scale)`.
#[derive(Clone, Copy, Debug, PartialEq, Eq, Structural)]
pub struct Decimal {
    pub mantissa: i128,
    pub scale: u32,
}

impl Decimal {
    /// Zero, with no fractional digits.
    pub open spec fn zero_spec() -> Decimal {
        Decimal { mantissa: 0, scale: 0 }
    }

    /// Zero, with no fractional digits.
    pub fn zero() -> (r: Decimal)
        ensures
            r == Decimal::zero_spec(),
    {
        Decimal { mantissa: 0, scale: 0 }
    }
}

/// A number that the service may send as text instead of a JSON number.
#[derive(Clone, Copy, Debug, PartialEq, Eq, Structural)]
pub enum SpecialNumber {
    Infinity,
    NegativeInfinity,
    NotANumber,
}

/// The special number that a text names, in any ASCII case: `Infinity`,
/// `-Infinity` or `NaN`.
pub open spec fn special_of(s: Seq<char>) -> Option<SpecialNumber> {
    if same_ignoring_case(utf8(s), utf8("infinity"@)) {
        Some(SpecialNumber::Infinity)
    } else if same_ignoring_case(utf8(s), utf8("-infinity"@)) {
        Some(SpecialNumber::NegativeInfinity)
    } else if same_ignoring_case(utf8(s), utf8("nan"@)) {
        Some(SpecialNumber::NotANumber)
    } else {
        None
    }
}

/// The special number that a text names, if any.
pub fn special_number(s: &str) -> (r: Option<SpecialNumber>)
    ensures
        r == special_of(s@),
{
    if equals_ignoring_case(s, "infinity") {
        Some(SpecialNumber::Infinity)
    } else if equals_ignoring_case(s, "-infinity") {
        Some(SpecialNumber::NegativeInfinity)
    } else if equals_ignoring_case(s, "nan") {
        Some(SpecialNumber::NotANumber)
    } else {
        None
    }
}

} // verus!
