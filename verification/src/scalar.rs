use vstd::prelude::*;
use vstd::arithmetic::div_mod::{
    lemma_div_is_ordered,
    lemma_div_multiples_vanish,
    lemma_div_nonincreasing,
    lemma_div_of0,
    lemma_div_pos_is_pos,
    lemma_fundamental_div_mod,
    lemma_mod_bound,
};
use crate::approx::{ApproxEq, EPSILON_UNITS, EPSILON_LOW_UNITS, approx_units, approx_low_units};

verus! {

/// Number of units in 1.0: scalars are fixed-point values on a 1e-7 grid,
/// the same grid as the tight comparison tolerance.
pub const SCALE: i128 = 10_000_000;

/// Largest magnitude, in units, that a scalar may hold. The bound is small
/// enough that the product of any two scalars' unit counts fits the machine
/// word the library computes in.
pub const LIMIT: i128 = 5_000_000_000_000_000_000;

/// Whether a unit count fits the scalar range.
pub open spec fn fits(u: int) -> bool {
    -(LIMIT as int) <= u <= LIMIT as int
}

/// Magnitude of an integer.
pub open spec fn iabs(x: int) -> int {
    if x < 0 {
        -x
    } else {
        x
    }
}

/// Quotient of `p` by `d`, truncated toward zero. Truncation is symmetric
/// under negation, which keeps scalar arithmetic sign-symmetric.
pub open spec fn tdiv(p: int, d: int) -> int
    recommends
        d != 0,
{
    if (p >= 0) == (d >= 0) {
        iabs(p) / iabs(d)
    } else {
        -(iabs(p) / iabs(d))
    }
}

/// A truncated quotient is bounded by any value whose product with the
/// divisor dominates the dividend.
pub proof fn lemma_tdiv_bound(p: int, d: int, bound: int)
    requires
        d > 0,
        bound >= 0,
        -(bound * d) <= p <= bound * d,
    ensures
        -bound <= tdiv(p, d) <= bound,
{
    let ap = iabs(p);
    assert(ap <= bound * d);
    lemma_div_is_ordered(ap, bound * d, d);
    lemma_div_multiples_vanish(bound, d);
    assert(bound * d == d * bound) by (nonlinear_arith);
    lemma_div_pos_is_pos(ap, d);
    assert(ap / d <= bound);
}

/// Unit count of the product of two scalars given by their unit counts.
pub open spec fn fp_mul(a: int, b: int) -> int {
    tdiv(a * b, SCALE as int)
}

/// Unit count of the quotient of two scalars given by their unit counts.
pub open spec fn fp_div(a: int, b: int) -> int
    recommends
        b != 0,
{
    tdiv(a * (SCALE as int), b)
}

/// Truncated division never overshoots: the quotient times the divisor
/// stays within one divisor step below the dividend's magnitude.
pub proof fn lemma_tdiv_close(p: int, d: int)
    requires
        d > 0,
    ensures
        iabs(tdiv(p, d)) * d <= iabs(p),
        iabs(p) < iabs(tdiv(p, d)) * d + d,
{
    let ap = iabs(p);
    let q = ap / d;
    lemma_fundamental_div_mod(ap, d);
    lemma_mod_bound(ap, d);
    lemma_div_pos_is_pos(ap, d);
    assert(d * q == q * d) by (nonlinear_arith);
    assert(iabs(tdiv(p, d)) == q);
}

/// The magnitude of a product is the product of the magnitudes.
pub proof fn lemma_iabs_mul(a: int, b: int)
    ensures
        iabs(a * b) == iabs(a) * iabs(b),
{
    assert(iabs(a * b) == iabs(a) * iabs(b)) by (nonlinear_arith)
        requires
            iabs(a) == a || iabs(a) == -a,
            iabs(a) >= 0,
            iabs(b) == b || iabs(b) == -b,
            iabs(b) >= 0,
            iabs(a * b) == a * b || iabs(a * b) == -(a * b),
            iabs(a * b) >= 0,
    ;
}

/// A product of scalars bounded by whole values is bounded by the product
/// of the values.
pub proof fn lemma_fp_mul_value_bound(a: int, b: int, v1: int, v2: int)
    requires
        v1 >= 0,
        v2 >= 0,
        iabs(a) <= v1 * SCALE,
        iabs(b) <= v2 * SCALE,
    ensures
        iabs(fp_mul(a, b)) <= (v1 * v2) * SCALE,
{
    let s = SCALE as int;
    lemma_tdiv_close(a * b, s);
    lemma_iabs_mul(a, b);
    assert(iabs(a) * iabs(b) <= ((v1 * v2) * s) * s) by (nonlinear_arith)
        requires
            0 <= iabs(a) <= v1 * s,
            0 <= iabs(b) <= v2 * s,
            v1 >= 0,
            v2 >= 0,
            s >= 0,
    ;
    assert(iabs(fp_mul(a, b)) <= (v1 * v2) * s) by (nonlinear_arith)
        requires
            iabs(fp_mul(a, b)) * s <= ((v1 * v2) * s) * s,
            s > 0,
    ;
}

/// Scalar multiplication reads the same from either side.
pub proof fn lemma_fp_mul_comm(a: int, b: int)
    ensures
        fp_mul(a, b) == fp_mul(b, a),
{
    assert(a * b == b * a) by (nonlinear_arith);
}

/// Multiplying by 1.0 returns the same unit count: no rounding happens.
pub proof fn lemma_fp_mul_scale(x: int)
    ensures
        fp_mul(x, SCALE as int) == x,
{
    let s = SCALE as int;
    if x >= 0 {
        assert(x * s >= 0 && x * s == s * x) by (nonlinear_arith)
            requires
                x >= 0,
                s > 0,
        ;
        lemma_div_multiples_vanish(x, s);
    } else {
        assert(x * s < 0 && -(x * s) == s * (-x)) by (nonlinear_arith)
            requires
                x < 0,
                s > 0,
        ;
        lemma_div_multiples_vanish(-x, s);
    }
}

/// Multiplying by zero gives zero.
pub proof fn lemma_fp_mul_zero(x: int)
    ensures
        fp_mul(x, 0) == 0,
        fp_mul(0, x) == 0,
{
    let s = SCALE as int;
    assert(x * 0 == 0 && 0 * x == 0) by (nonlinear_arith);
    lemma_div_of0(s);
}

/// A fixed-point scalar: `units` counts steps of 1e-7. Addition and
/// subtraction are exact; multiplication and division truncate toward zero,
/// so each rounds by less than one unit.
#[derive(Clone, Copy, Debug, PartialEq, Eq, Structural)]
pub struct Scalar {
    units: i128,
}

impl View for Scalar {
    type V = int;

    closed spec fn view(&self) -> int {
        self.units as int
    }
}

impl Scalar {
    #[verifier::type_invariant]
    pub(crate) open spec fn bounded(self) -> bool {
        fits(self@)
    }

    /// Scalar holding the given unit count.
    pub fn from_units(units: i128) -> (r: Scalar)
        requires
            fits(units as int),
        ensures
            r@ == units,
    {
        Scalar { units }
    }

    /// Scalar holding the given whole value.
    pub fn from_int(value: i64) -> (r: Scalar)
        requires
            -500_000_000_000 <= value <= 500_000_000_000,
        ensures
            r@ == value * SCALE,
    {
        Scalar { units: (value as i128) * SCALE }
    }

    /// Unit count held by this scalar.
    pub fn to_units(self) -> (r: i128)
        ensures
            r == self@,
    {
        self.units
    }

    /// Exact sum.
    pub fn add(self, rhs: Scalar) -> (r: Scalar)
        requires
            fits(self@ + rhs@),
        ensures
            r@ == self@ + rhs@,
    {
        proof {
            use_type_invariant(&self);
            use_type_invariant(&rhs);
        }
        Scalar { units: self.units + rhs.units }
    }

    /// Exact difference.
    pub fn sub(self, rhs: Scalar) -> (r: Scalar)
        requires
            fits(self@ - rhs@),
        ensures
            r@ == self@ - rhs@,
    {
        proof {
            use_type_invariant(&self);
            use_type_invariant(&rhs);
        }
        Scalar { units: self.units - rhs.units }
    }

    /// Exact negation.
    pub fn neg(self) -> (r: Scalar)
        ensures
            r@ == -self@,
    {
        proof {
            use_type_invariant(&self);
        }
        Scalar { units: -self.units }
    }

    /// Product, truncated toward zero onto the scalar grid.
    pub fn mul(self, rhs: Scalar) -> (r: Scalar)
        requires
            fits(fp_mul(self@, rhs@)),
        ensures
            r@ == fp_mul(self@, rhs@),
    {
        proof {
            use_type_invariant(&self);
            use_type_invariant(&rhs);
            assert(-(LIMIT as int) * (LIMIT as int) <= self@ * rhs@ <= (LIMIT as int) * (
            LIMIT as int)) by (nonlinear_arith)
                requires
                    -(LIMIT as int) <= self@ <= LIMIT as int,
                    -(LIMIT as int) <= rhs@ <= LIMIT as int,
            ;
        }
        let p: i128 = self.units * rhs.units;
        Scalar { units: div_trunc(p, SCALE) }
    }

    /// Quotient, truncated toward zero onto the scalar grid.
    pub fn div(self, rhs: Scalar) -> (r: Scalar)
        requires
            rhs@ != 0,
            fits(fp_div(self@, rhs@)),
        ensures
            r@ == fp_div(self@, rhs@),
    {
        proof {
            use_type_invariant(&self);
            use_type_invariant(&rhs);
        }
        let p: i128 = self.units * SCALE;
        Scalar { units: div_trunc(p, rhs.units) }
    }
}

/// Quotient of `p` by `d`, truncated toward zero.
fn div_trunc(p: i128, d: i128) -> (q: i128)
    requires
        d != 0,
        -(i128::MAX as int) <= p,
        -(i128::MAX as int) <= d,
    ensures
        q == tdiv(p as int, d as int),
{
    let pn: u128 = if p >= 0 { p as u128 } else { (-p) as u128 };
    let dn: u128 = if d >= 0 { d as u128 } else { (-d) as u128 };
    proof {
        assert(pn == iabs(p as int));
        assert(dn == iabs(d as int));
        lemma_div_nonincreasing(pn as int, dn as int);
        lemma_div_pos_is_pos(pn as int, dn as int);
    }
    let qn: u128 = pn / dn;
    if (p >= 0) == (d >= 0) {
        qn as i128
    } else {
        -(qn as i128)
    }
}

impl ApproxEq for Scalar {
    /// Tightly close: the unit counts differ by less than one unit, which on
    /// the scalar grid means they are the same value.
    fn approx_eq(self, other: Self) -> (r: bool)
        ensures
            r == approx_units(self@, other@),
    {
        proof {
            use_type_invariant(&self);
            use_type_invariant(&other);
        }
        let d: i128 = self.units - other.units;
        let a: i128 = if d >= 0 {
            d
        } else {
            -d
        };
        a < EPSILON_UNITS
    }

    /// Loosely close: the unit counts differ by less than the loose tolerance.
    fn approx_eq_low_precision(self, other: Self) -> (r: bool)
        ensures
            r == approx_low_units(self@, other@),
    {
        proof {
            use_type_invariant(&self);
            use_type_invariant(&other);
        }
        let d: i128 = self.units - other.units;
        let a: i128 = if d >= 0 {
            d
        } else {
            -d
        };
        a < EPSILON_LOW_UNITS
    }
}

} // verus!
