//! The numeric model of the filter pipeline: JSON numbers are carried
//! as sign-magnitude fixed-point values with eight decimal places
//! (one unit is 10^-8), enough for prices, volumes and satoshi amounts.
use vstd::prelude::*;

verus! {

/// Units per whole: a value `v` is stored as `v * E8` units.
pub const E8: u128 = 100_000_000;

/// The unit count of 10^4 wholes: the volume filter's middle bracket.
pub const E12: u128 = 1_000_000_000_000;

/// The unit count of 10^8 wholes: the volume filter's upper bracket.
pub const E16: u128 = 10_000_000_000_000_000;

/// A sign-magnitude fixed-point number: its value is
/// `units * 10^-8`, negated when `neg` is set.
#[derive(Clone, Copy, Debug, PartialEq, Eq, Structural)]
pub struct Fixed {
    pub neg: bool,
    pub units: u128,
}

impl Fixed {
    /// Canonical form: zero is never negative.
    pub open spec fn wf(self) -> bool {
        self.neg ==> self.units > 0
    }

    /// The value scaled by 10^8, as a mathematical integer.
    pub open spec fn val_e8(self) -> int {
        if self.neg {
            -(self.units as int)
        } else {
            self.units as int
        }
    }

    /// The result of dividing the value by 10^8, truncating toward zero
    /// at the eighth decimal place.
    pub open spec fn spec_div_e8(self) -> Fixed {
        Fixed { neg: self.neg && self.units / E8 > 0, units: self.units / E8 }
    }

    /// The result of dividing the value by 10^4, truncating toward zero
    /// at the eighth decimal place.
    pub open spec fn spec_div_e4(self) -> Fixed {
        Fixed { neg: self.neg && self.units / 10000 > 0, units: self.units / 10000 }
    }

    /// Builds a value from its sign and magnitude in units of 10^-8,
    /// normalising negative zero.
    pub fn new(neg: bool, units: u128) -> (r: Fixed)
        ensures
            r.wf(),
            r.units == units,
            r.neg == (neg && units > 0),
    {
        Fixed { neg: neg && units > 0, units }
    }

    /// The magnitude of the whole part (the value with the fraction
    /// truncated away).
    pub fn int_abs(&self) -> (r: u128)
        ensures
            r == self.units / E8,
    {
        self.units / E8
    }

    /// Division by 10^8, the satoshi-to-coin conversion: the quotient
    /// is truncated toward zero at the eighth decimal place.
    pub fn div_e8(&self) -> (r: Fixed)
        requires
            self.wf(),
        ensures
            r == self.spec_div_e8(),
            r.wf(),
    {
        Fixed::new(self.neg, self.units / E8)
    }

    /// Division by 10^4, used for mid-range volume scaling.
    pub fn div_e4(&self) -> (r: Fixed)
        requires
            self.wf(),
        ensures
            r == self.spec_div_e4(),
            r.wf(),
    {
        Fixed::new(self.neg, self.units / 10000)
    }

    /// Strictly positive?
    pub fn is_pos(&self) -> (r: bool)
        requires
            self.wf(),
        ensures
            r == (self.val_e8() > 0),
    {
        !self.neg && self.units > 0
    }
}

} // verus!
