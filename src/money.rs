//! Amounts of money in integer minor units.

use vstd::prelude::*;

verus! {

/// An amount in minor currency units (cents).
#[derive(Debug, Clone, Copy, PartialEq, Eq, Structural)]
pub struct Money(pub i64);

impl Money {
    pub fn new(amount: i64) -> (r: Money)
        ensures
            r.0 == amount,
    {
        Money(amount)
    }

    /// No money at all.
    pub fn zero() -> (r: Money)
        ensures
            r.0 == 0,
    {
        Money(0)
    }

    /// The amount in minor units.
    pub fn amount(&self) -> (r: i64)
        ensures
            r == self.0,
    {
        self.0
    }

    pub fn subtract(&self, other: &Money) -> (r: Money)
        requires
            i64::MIN <= self.0 - other.0 <= i64::MAX,
        ensures
            r.0 == self.0 - other.0,
    {
        Money(self.0 - other.0)
    }

    /// `hundredths` hundredths of a percent of this amount, rounded toward zero.
    pub fn percentage(&self, hundredths: u16) -> (r: Money)
        requires
            hundredths <= 10000,
        ensures
            r.0 == trunc_div(self.0 * hundredths, 10000),
    {
        let p = self.0 as i128;
        let h = hundredths as i128;
        let m: i128 = if p >= 0 { p } else { -p };
        assert(0 <= m * h <= 0x8000_0000_0000_0000 * 10000) by (nonlinear_arith)
            requires 0 <= m <= 0x8000_0000_0000_0000, 0 <= h <= 10000;
        let q = m * h / 10000;
        assert(q <= m) by (nonlinear_arith)
            requires 0 <= m, 0 <= h <= 10000, q == m * h / 10000;
        assert(p >= 0 ==> p * h == m * h);
        assert(p < 0 ==> p * h == -(m * h)) by (nonlinear_arith)
            requires p < 0 ==> m == -p;
        let r = if p >= 0 { q } else { -q };
        Money(r as i64)
    }

    pub fn less_then(&self, other: &Money) -> (r: bool)
        ensures
            r == (self.0 < other.0),
    {
        self.0 < other.0
    }
}

/// Integer division that rounds toward zero, as Rust's `/` does.
pub open spec fn trunc_div(a: int, b: int) -> int {
    if a >= 0 {
        a / b
    } else {
        -((-a) / b)
    }
}

} // verus!
