use vstd::prelude::*;
use crate::token::Currency;

verus! {

/// An exact rational exchange rate between two currencies: one unit of `base`
/// commands `numerator / denominator` units of `quote`. No rounding ever
/// happens; the ratio is carried as the literal pair.
#[derive(Clone, Copy, Debug, PartialEq, Eq, Structural)]
pub struct Price {
    pub base: Currency,
    pub quote: Currency,
    pub numerator: u128,
    pub denominator: u128,
}

impl Price {
    /// A well-formed price has positive components.
    pub open spec fn wf(self) -> bool {
        self.numerator >= 1 && self.denominator >= 1
    }

    /// Build a price tagged with the currencies it relates. The fraction
    /// convention takes the denominator before the numerator.
    pub fn new(base: Currency, quote: Currency, denominator: u128, numerator: u128) -> (r: Price)
        ensures
            r == (Price { base, quote, numerator, denominator }),
    {
        Price { base, quote, numerator, denominator }
    }

    pub fn numerator(&self) -> (r: u128)
        ensures
            r == self.numerator,
    {
        self.numerator
    }

    pub fn denominator(&self) -> (r: u128)
        ensures
            r == self.denominator,
    {
        self.denominator
    }

    /// Exact rational multiplication: componentwise numerator and denominator
    /// products, relating `self.base` to `other.quote`. The products must fit
    /// the component type; nothing is rounded.
    pub fn multiply(&self, other: &Price) -> (r: Price)
        requires
            self.numerator * other.numerator <= u128::MAX,
            self.denominator * other.denominator <= u128::MAX,
        ensures
            r.base == self.base,
            r.quote == other.quote,
            r.numerator == self.numerator * other.numerator,
            r.denominator == self.denominator * other.denominator,
    {
        Price {
            base: self.base,
            quote: other.quote,
            numerator: self.numerator * other.numerator,
            denominator: self.denominator * other.denominator,
        }
    }
}

} // verus!
