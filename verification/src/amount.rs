//! Numbers that stand for binary64 values.

use vstd::prelude::*;

verus! {

/// A number, held exactly.
#[derive(Debug, Clone, Copy, PartialEq, Eq, Structural)]
pub enum Amount {
    /// `units / 10^scale`, divided by `per`.
    Decimal { units: u64, scale: u32, per: u64 },
    /// The binary64 number with this bit pattern.
    Bits(u64),
}

/// The number `units / 10^scale`.
pub open spec fn spec_decimal(units: u64, scale: u32) -> Amount {
    Amount::Decimal { units, scale, per: 1 }
}

/// The number `units / 10^scale`.
#[verifier::when_used_as_spec(spec_decimal)]
pub fn decimal(units: u64, scale: u32) -> (r: Amount)
    ensures
        r == spec_decimal(units, scale),
{
    Amount::Decimal { units, scale, per: 1 }
}

/// The integer `units`.
pub open spec fn spec_whole(units: u64) -> Amount {
    Amount::Decimal { units, scale: 0, per: 1 }
}

/// The integer `units`.
#[verifier::when_used_as_spec(spec_whole)]
pub fn whole(units: u64) -> (r: Amount)
    ensures
        r == spec_whole(units),
{
    Amount::Decimal { units, scale: 0, per: 1 }
}

/// The amount `units / 10^scale` for each million.
pub open spec fn spec_per_million(units: u64, scale: u32) -> Amount {
    Amount::Decimal { units, scale, per: 1_000_000 }
}

/// The amount `units / 10^scale` for each million.
#[verifier::when_used_as_spec(spec_per_million)]
pub fn per_million(units: u64, scale: u32) -> (r: Amount)
    ensures
        r == spec_per_million(units, scale),
{
    Amount::Decimal { units, scale, per: 1_000_000 }
}

/// The bit pattern of positive infinity, the largest of a positive number.
pub const INFINITY_BITS: u64 = 0x7ff0_0000_0000_0000;

impl Amount {
    /// The number is greater than zero.
    pub open spec fn positive(self) -> bool {
        match self {
            Amount::Decimal { units, .. } => units > 0,
            Amount::Bits(b) => 0 < b <= INFINITY_BITS,
        }
    }

    /// Whether the number is greater than zero.
    pub fn is_positive(&self) -> (r: bool)
        ensures
            r == self.positive(),
    {
        match self {
            Amount::Decimal { units, .. } => *units > 0,
            Amount::Bits(b) => 0 < *b && *b <= INFINITY_BITS,
        }
    }
}

/// A text together with the number that it reads as, where it reads as one.
#[derive(Debug, Clone, PartialEq, Eq)]
pub struct Numeral {
    pub text: String,
    /// The bit pattern of the number.
    pub bits: Option<u64>,
}

/// The model of a [`Numeral`].
pub struct NumeralView {
    pub text: Seq<char>,
    pub bits: Option<u64>,
}

impl View for Numeral {
    type V = NumeralView;

    open spec fn view(&self) -> NumeralView {
        NumeralView { text: self.text@, bits: self.bits }
    }
}

/// The number that a numeral reads as, where it reads as one.
pub open spec fn numeral_value(n: NumeralView) -> Option<Amount> {
    match n.bits {
        Some(b) => Some(Amount::Bits(b)),
        None => None,
    }
}

impl Numeral {
    /// The number that the numeral reads as, where it reads as one.
    pub fn value(&self) -> (r: Option<Amount>)
        ensures
            r == numeral_value(self@),
    {
        match self.bits {
            Some(b) => Some(Amount::Bits(b)),
            None => None,
        }
    }
}

} // verus!
