use vstd::prelude::*;
use crate::scalar::iabs;

verus! {

/// Tight comparison tolerance, in scalar units: one unit is the finest
/// difference a scalar can represent, so two scalars are tightly close
/// exactly when they hold the same value.
pub const EPSILON_UNITS: i128 = 1;

/// Loose comparison tolerance, in scalar units. It absorbs the rounding
/// error that accumulates through matrix inversion and normalization.
pub const EPSILON_LOW_UNITS: i128 = 10_000;

/// Two unit counts are tightly close when they differ by less than the
/// tight tolerance.
pub open spec fn approx_units(a: int, b: int) -> bool {
    iabs(a - b) < EPSILON_UNITS
}

/// Two unit counts are loosely close when they differ by less than the
/// loose tolerance.
pub open spec fn approx_low_units(a: int, b: int) -> bool {
    iabs(a - b) < EPSILON_LOW_UNITS
}

/// Two-tier approximate comparison. The tight tier is used for point
/// equality, the loose tier for vector, matrix and color equality.
pub trait ApproxEq: Sized {
    fn approx_eq(self, other: Self) -> bool;

    fn approx_eq_low_precision(self, other: Self) -> bool;
}

/// A difference that sits between the two tolerances tells the tiers apart:
/// such values are tightly unequal yet loosely equal.
pub proof fn lemma_tier_gap(a: int, b: int)
    requires
        EPSILON_UNITS as int <= iabs(a - b) < EPSILON_LOW_UNITS as int,
    ensures
        !approx_units(a, b),
        approx_low_units(a, b),
{
}

} // verus!
