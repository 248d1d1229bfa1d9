//! The coefficients of the classical Runge-Kutta method of order four.
//!
//! The three tables hold exact fractions; an integrator turns them into
//! scalars of its number type where it uses them.
use vstd::prelude::*;

verus! {

/// The number of stages of the method.
pub const STAGES: usize = 4;

/// A fraction `num / den` of whole numbers, with `den` positive.
#[derive(Clone, Copy, Debug, PartialEq, Eq, Structural)]
pub struct Fraction {
    pub num: u32,
    pub den: u32,
}

/// The table `c`: the fraction of the step at which stage `j` samples the
/// derivative, `0, 1/2, 1/2, 1`.
pub open spec fn spec_time_fraction(j: int) -> Fraction {
    if j == 0 {
        Fraction { num: 0, den: 1 }
    } else if j == 3 {
        Fraction { num: 1, den: 1 }
    } else {
        Fraction { num: 1, den: 2 }
    }
}

/// The table `b`: the weight of stage `j` in the step, `1/6, 1/3, 1/3, 1/6`.
pub open spec fn spec_weight(j: int) -> Fraction {
    if j == 0 || j == 3 {
        Fraction { num: 1, den: 6 }
    } else {
        Fraction { num: 1, den: 3 }
    }
}

/// The table `A`: how much of stage `l` enters the state at which stage `j`
/// samples the derivative. Only `A[1][0] = 1/2`, `A[2][1] = 1/2` and
/// `A[3][2] = 1` differ from zero.
pub open spec fn spec_coupling(j: int, l: int) -> Fraction {
    if j == l + 1 && j == 3 {
        Fraction { num: 1, den: 1 }
    } else if j == l + 1 && (j == 1 || j == 2) {
        Fraction { num: 1, den: 2 }
    } else {
        Fraction { num: 0, den: 1 }
    }
}

/// Entry `j` of the table `c`.
pub fn time_fraction(j: usize) -> (r: Fraction)
    requires
        j < STAGES,
    ensures
        r == spec_time_fraction(j as int),
        r.den > 0,
{
    if j == 0 {
        Fraction { num: 0, den: 1 }
    } else if j == 3 {
        Fraction { num: 1, den: 1 }
    } else {
        Fraction { num: 1, den: 2 }
    }
}

/// Entry `j` of the table `b`.
pub fn weight(j: usize) -> (r: Fraction)
    requires
        j < STAGES,
    ensures
        r == spec_weight(j as int),
        r.den > 0,
{
    if j == 0 || j == 3 {
        Fraction { num: 1, den: 6 }
    } else {
        Fraction { num: 1, den: 3 }
    }
}

/// Entry `(j, l)` of the table `A`.
pub fn coupling(j: usize, l: usize) -> (r: Fraction)
    requires
        j < STAGES,
        l < STAGES,
    ensures
        r == spec_coupling(j as int, l as int),
        r.den > 0,
{
    if j == 3 && l == 2 {
        Fraction { num: 1, den: 1 }
    } else if (j == 1 && l == 0) || (j == 2 && l == 1) {
        Fraction { num: 1, den: 2 }
    } else {
        Fraction { num: 0, den: 1 }
    }
}

/// The method is explicit: `A` is strictly lower triangular, so a stage is
/// coupled to earlier stages only.
pub proof fn lemma_tableau_is_explicit(j: int, l: int)
    requires
        l >= j,
    ensures
        spec_coupling(j, l).num == 0,
{
}

} // verus!
