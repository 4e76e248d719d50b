use vstd::prelude::*;
use crate::approx::{ApproxEq, EPSILON_LOW_UNITS, approx_low_units};
use crate::point::Point;
use crate::scalar::{Scalar, LIMIT, SCALE, fits, fp_mul, fp_div, iabs, tdiv, lemma_fp_mul_comm, lemma_tdiv_bound, lemma_tdiv_close};
use crate::tuple::Tuple;

verus! {

/// Largest integer whose square is at most `x`.
pub open spec fn isqrt(x: int) -> int
    recommends
        x >= 0,
    decreases x,
{
    if x <= 0 {
        0
    } else {
        let r = isqrt(x - 1);
        if (r + 1) * (r + 1) <= x {
            r + 1
        } else {
            r
        }
    }
}

/// `isqrt(x)` is the floor of the square root of `x`.
pub proof fn lemma_isqrt_bounds(x: int)
    requires
        x >= 0,
    ensures
        isqrt(x) >= 0,
        isqrt(x) * isqrt(x) <= x,
        x < (isqrt(x) + 1) * (isqrt(x) + 1),
    decreases x,
{
    if x > 0 {
        lemma_isqrt_bounds(x - 1);
        let r = isqrt(x - 1);
        if (r + 1) * (r + 1) <= x {
            assert(x < (r + 2) * (r + 2)) by (nonlinear_arith)
                requires
                    r >= 0,
                    x - 1 < (r + 1) * (r + 1),
            ;
        }
    }
}

/// No integer other than the floor square root sits between square and
/// successor square.
pub proof fn lemma_isqrt_unique(x: int, r: int)
    requires
        r >= 0,
        r * r <= x,
        x < (r + 1) * (r + 1),
    ensures
        r == isqrt(x),
{
    lemma_isqrt_bounds(x);
    let s = isqrt(x);
    assert(r == s) by (nonlinear_arith)
        requires
            r >= 0,
            s >= 0,
            r * r <= x,
            x < (r + 1) * (r + 1),
            s * s <= x,
            x < (s + 1) * (s + 1),
    ;
}

/// Largest integer whose square is at most `x`, by bisection.
fn isqrt_exec(x: u128) -> (r: u128)
    ensures
        r == isqrt(x as int),
{
    let mut lo: u128 = 0;
    let mut hi: u128 = 18446744073709551616;
    while lo + 1 < hi
        invariant
            lo < hi,
            hi <= 18446744073709551616,
            lo * lo <= x,
            (x as int) < (hi as int) * (hi as int),
        decreases hi - lo,
    {
        let mid: u128 = lo + (hi - lo) / 2;
        proof {
            assert(mid * mid < 340282366920938463463374607431768211455) by (nonlinear_arith)
                requires
                    mid < 18446744073709551616,
            ;
        }
        if mid * mid <= x {
            lo = mid;
        } else {
            hi = mid;
        }
    }
    proof {
        lemma_isqrt_unique(x as int, lo as int);
    }
    lo
}

/// The square of an in-range unit count is non-negative and well within the
/// wide machine word.
proof fn lemma_square_within_limit(a: int)
    requires
        -(LIMIT as int) <= a <= LIMIT as int,
    ensures
        0 <= a * a <= 25000000000000000000000000000000000000,
{
    assert(0 <= a * a <= 25000000000000000000000000000000000000) by (nonlinear_arith)
        requires
            -5000000000000000000 <= a <= 5000000000000000000,
    ;
}

/// A displacement or direction in space; its homogeneous coordinate is 0, so
/// translation leaves it unchanged.
#[derive(Clone, Copy, Debug)]
pub struct Vector {
    pub x: Scalar,
    pub y: Scalar,
    pub z: Scalar,
}

impl Tuple for Vector {
    open spec fn ux(&self) -> int {
        self.x@
    }

    open spec fn uy(&self) -> int {
        self.y@
    }

    open spec fn uz(&self) -> int {
        self.z@
    }

    open spec fn uw(&self) -> int {
        0
    }

    fn new(x: Scalar, y: Scalar, z: Scalar) -> (r: Self) {
        Vector { x, y, z }
    }

    fn zero() -> (r: Self) {
        Vector { x: Scalar::from_units(0), y: Scalar::from_units(0), z: Scalar::from_units(0) }
    }

    fn x(&self) -> (r: Scalar) {
        self.x
    }

    fn y(&self) -> (r: Scalar) {
        self.y
    }

    fn z(&self) -> (r: Scalar) {
        self.z
    }

    fn w(&self) -> (r: Scalar) {
        Scalar::from_units(0)
    }
}

impl Vector {
    /// Unit count of the Euclidean norm, rounded down onto the scalar grid.
    pub open spec fn mag_u(self) -> int {
        isqrt(self.ux() * self.ux() + self.uy() * self.uy() + self.uz() * self.uz())
    }

    /// Unit counts of the dot product.
    pub open spec fn dot_u(self, other: Vector) -> int {
        fp_mul(self.ux(), other.ux()) + fp_mul(self.uy(), other.uy()) + fp_mul(
            self.uz(),
            other.uz(),
        )
    }

    /// The dot product's intermediate values stay in the scalar range.
    pub open spec fn dot_ok(self, other: Vector) -> bool {
        &&& fits(fp_mul(self.ux(), other.ux()))
        &&& fits(fp_mul(self.uy(), other.uy()))
        &&& fits(fp_mul(self.uz(), other.uz()))
        &&& fits(fp_mul(self.ux(), other.ux()) + fp_mul(self.uy(), other.uy()))
        &&& fits(self.dot_u(other))
    }

    /// Unit counts of the cross product, one spec per component.
    pub open spec fn cross_x_u(self, other: Vector) -> int {
        fp_mul(self.uy(), other.uz()) - fp_mul(self.uz(), other.uy())
    }

    pub open spec fn cross_y_u(self, other: Vector) -> int {
        fp_mul(self.uz(), other.ux()) - fp_mul(self.ux(), other.uz())
    }

    pub open spec fn cross_z_u(self, other: Vector) -> int {
        fp_mul(self.ux(), other.uy()) - fp_mul(self.uy(), other.ux())
    }

    /// The cross product's intermediate values stay in the scalar range.
    pub open spec fn cross_ok(self, other: Vector) -> bool {
        &&& fits(fp_mul(self.uy(), other.uz()))
        &&& fits(fp_mul(self.uz(), other.uy()))
        &&& fits(fp_mul(self.uz(), other.ux()))
        &&& fits(fp_mul(self.ux(), other.uz()))
        &&& fits(fp_mul(self.ux(), other.uy()))
        &&& fits(fp_mul(self.uy(), other.ux()))
        &&& fits(self.cross_x_u(other))
        &&& fits(self.cross_y_u(other))
        &&& fits(self.cross_z_u(other))
    }

    /// Euclidean norm, rounded down onto the scalar grid; never negative.
    pub fn magnitude(&self) -> (r: Scalar)
        requires
            fits(self.mag_u()),
        ensures
            r@ == self.mag_u(),
            r@ >= 0,
    {
        proof {
            use_type_invariant(&self.x);
            use_type_invariant(&self.y);
            use_type_invariant(&self.z);
            lemma_square_within_limit(self.ux());
            lemma_square_within_limit(self.uy());
            lemma_square_within_limit(self.uz());
        }
        let ux: i128 = self.x.to_units();
        let uy: i128 = self.y.to_units();
        let uz: i128 = self.z.to_units();
        let sum: u128 = (ux * ux) as u128 + (uy * uy) as u128 + (uz * uz) as u128;
        let root: u128 = isqrt_exec(sum);
        Scalar::from_units(root as i128)
    }

    /// The vector scaled to norm 1, each component rounded toward zero onto
    /// the scalar grid. The original lets a zero-length vector flow into
    /// non-finite values; here the vector is required to be nonzero instead,
    /// a documented hardening of that behaviour.
    pub fn normalize(&self) -> (r: Self)
        requires
            self.mag_u() != 0,
            fits(self.mag_u()),
        ensures
            r.ux() == fp_div(self.ux(), self.mag_u()),
            r.uy() == fp_div(self.uy(), self.mag_u()),
            r.uz() == fp_div(self.uz(), self.mag_u()),
    {
        let m = self.magnitude();
        proof {
            let s = self.ux() * self.ux() + self.uy() * self.uy() + self.uz() * self.uz();
            assert(self.ux() * self.ux() >= 0) by (nonlinear_arith);
            assert(self.uy() * self.uy() >= 0) by (nonlinear_arith);
            assert(self.uz() * self.uz() >= 0) by (nonlinear_arith);
            assert(s > 0);
            lemma_component_div_fits(self.ux(), self.uy(), self.uz());
            lemma_component_div_fits(self.uy(), self.uz(), self.ux());
            lemma_component_div_fits(self.uz(), self.ux(), self.uy());
            assert(self.uy() * self.uy() + self.uz() * self.uz() + self.ux() * self.ux() == s);
            assert(self.uz() * self.uz() + self.ux() * self.ux() + self.uy() * self.uy() == s);
        }
        Vector { x: self.x.div(m), y: self.y.div(m), z: self.z.div(m) }
    }

    /// Dot product.
    pub fn dot(&self, other: Vector) -> (r: Scalar)
        requires
            self.dot_ok(other),
        ensures
            r@ == self.dot_u(other),
    {
        let t0 = self.x.mul(other.x);
        let t1 = self.y.mul(other.y);
        let t2 = self.z.mul(other.z);
        t0.add(t1).add(t2)
    }

    /// Right-handed cross product.
    pub fn cross(&self, other: Vector) -> (r: Self)
        requires
            self.cross_ok(other),
        ensures
            r.ux() == self.cross_x_u(other),
            r.uy() == self.cross_y_u(other),
            r.uz() == self.cross_z_u(other),
    {
        Vector {
            x: self.y.mul(other.z).sub(self.z.mul(other.y)),
            y: self.z.mul(other.x).sub(self.x.mul(other.z)),
            z: self.x.mul(other.y).sub(self.y.mul(other.x)),
        }
    }

    /// Component-wise sum.
    pub fn add(self, rhs: Vector) -> (r: Vector)
        requires
            fits(self.ux() + rhs.ux()),
            fits(self.uy() + rhs.uy()),
            fits(self.uz() + rhs.uz()),
        ensures
            r.ux() == self.ux() + rhs.ux(),
            r.uy() == self.uy() + rhs.uy(),
            r.uz() == self.uz() + rhs.uz(),
    {
        Vector { x: self.x.add(rhs.x), y: self.y.add(rhs.y), z: self.z.add(rhs.z) }
    }

    /// Commuted translation: vector plus point is the translated point.
    pub fn add_point(self, rhs: Point) -> (r: Point)
        requires
            fits(self.ux() + rhs.ux()),
            fits(self.uy() + rhs.uy()),
            fits(self.uz() + rhs.uz()),
        ensures
            r.ux() == self.ux() + rhs.ux(),
            r.uy() == self.uy() + rhs.uy(),
            r.uz() == self.uz() + rhs.uz(),
    {
        Point { x: self.x.add(rhs.x), y: self.y.add(rhs.y), z: self.z.add(rhs.z) }
    }

    /// Component-wise difference.
    pub fn sub(self, rhs: Vector) -> (r: Vector)
        requires
            fits(self.ux() - rhs.ux()),
            fits(self.uy() - rhs.uy()),
            fits(self.uz() - rhs.uz()),
        ensures
            r.ux() == self.ux() - rhs.ux(),
            r.uy() == self.uy() - rhs.uy(),
            r.uz() == self.uz() - rhs.uz(),
    {
        Vector { x: self.x.sub(rhs.x), y: self.y.sub(rhs.y), z: self.z.sub(rhs.z) }
    }

    /// Component-wise negation.
    pub fn neg(self) -> (r: Vector)
        ensures
            r.ux() == -self.ux(),
            r.uy() == -self.uy(),
            r.uz() == -self.uz(),
    {
        Vector { x: self.x.neg(), y: self.y.neg(), z: self.z.neg() }
    }

    /// Component-wise scaling.
    pub fn mul(self, rhs: Scalar) -> (r: Vector)
        requires
            fits(fp_mul(self.ux(), rhs@)),
            fits(fp_mul(self.uy(), rhs@)),
            fits(fp_mul(self.uz(), rhs@)),
        ensures
            r.ux() == fp_mul(self.ux(), rhs@),
            r.uy() == fp_mul(self.uy(), rhs@),
            r.uz() == fp_mul(self.uz(), rhs@),
    {
        Vector { x: self.x.mul(rhs), y: self.y.mul(rhs), z: self.z.mul(rhs) }
    }

    /// Component-wise division by a nonzero scalar; hardened as `Point::div`.
    pub fn div(self, rhs: Scalar) -> (r: Vector)
        requires
            rhs@ != 0,
            fits(fp_div(self.ux(), rhs@)),
            fits(fp_div(self.uy(), rhs@)),
            fits(fp_div(self.uz(), rhs@)),
        ensures
            r.ux() == fp_div(self.ux(), rhs@),
            r.uy() == fp_div(self.uy(), rhs@),
            r.uz() == fp_div(self.uz(), rhs@),
    {
        Vector { x: self.x.div(rhs), y: self.y.div(rhs), z: self.z.div(rhs) }
    }
}

impl Scalar {
    /// Scaling reads the same from either side: scalar times vector.
    pub fn mul_vector(self, rhs: Vector) -> (r: Vector)
        requires
            fits(fp_mul(rhs.ux(), self@)),
            fits(fp_mul(rhs.uy(), self@)),
            fits(fp_mul(rhs.uz(), self@)),
        ensures
            r.ux() == fp_mul(rhs.ux(), self@),
            r.uy() == fp_mul(rhs.uy(), self@),
            r.uz() == fp_mul(rhs.uz(), self@),
    {
        rhs.mul(self)
    }
}

/// A component divided by the vector's norm is at most the grid step for
/// 1.0 in magnitude, so it stays in the scalar range.
proof fn lemma_component_div_fits(a: int, b: int, c: int)
    requires
        a * a + b * b + c * c > 0,
    ensures
        isqrt(a * a + b * b + c * c) > 0,
        fits(fp_div(a, isqrt(a * a + b * b + c * c))),
{
    let s = a * a + b * b + c * c;
    let m = isqrt(s);
    assert(b * b >= 0) by (nonlinear_arith);
    assert(c * c >= 0) by (nonlinear_arith);
    lemma_isqrt_bounds(s);
    assert(m > 0) by (nonlinear_arith)
        requires
            s > 0,
            m >= 0,
            s < (m + 1) * (m + 1),
    ;
    assert(iabs(a) <= m) by (nonlinear_arith)
        requires
            m >= 0,
            b * b >= 0,
            c * c >= 0,
            s == a * a + b * b + c * c,
            s < (m + 1) * (m + 1),
    ;
    assert(-((SCALE as int) * m) <= a * (SCALE as int) <= (SCALE as int) * m) by (nonlinear_arith)
        requires
            -m <= a <= m,
            m > 0,
    ;
    lemma_tdiv_bound(a * (SCALE as int), m, SCALE as int);
}

impl PartialEq for Vector {
    /// Vector equality is loose approximate equality on every component.
    fn eq(&self, other: &Self) -> (r: bool) {
        self.x.approx_eq_low_precision(other.x) && self.y.approx_eq_low_precision(other.y)
            && self.z.approx_eq_low_precision(other.z)
    }
}

impl vstd::std_specs::cmp::PartialEqSpecImpl for Vector {
    open spec fn obeys_eq_spec() -> bool {
        true
    }

    open spec fn eq_spec(&self, other: &Vector) -> bool {
        approx_low_units(self.ux(), other.ux()) && approx_low_units(self.uy(), other.uy())
            && approx_low_units(self.uz(), other.uz())
    }
}

// ---------------------------------------------------------------------------
// Algebraic laws of the vector operations.
// ---------------------------------------------------------------------------

/// Subtracting any vector from the zero vector yields exactly its
/// component-wise negation.
pub proof fn lemma_zero_sub_is_neg(zero: Vector, v: Vector, w: Vector)
    requires
        zero.ux() == 0,
        zero.uy() == 0,
        zero.uz() == 0,
        w.ux() == zero.ux() - v.ux(),
        w.uy() == zero.uy() - v.uy(),
        w.uz() == zero.uz() - v.uz(),
    ensures
        w.ux() == -v.ux(),
        w.uy() == -v.uy(),
        w.uz() == -v.uz(),
{
}

/// Any axis unit vector has magnitude exactly 1.0.
pub proof fn lemma_axis_unit_magnitude(v: Vector)
    requires
        (iabs(v.ux()) == SCALE as int && v.uy() == 0 && v.uz() == 0) || (v.ux() == 0 && iabs(
            v.uy(),
        ) == SCALE as int && v.uz() == 0) || (v.ux() == 0 && v.uy() == 0 && iabs(v.uz())
            == SCALE as int),
    ensures
        v.mag_u() == SCALE as int,
{
    let s = SCALE as int;
    let m = v.ux() * v.ux() + v.uy() * v.uy() + v.uz() * v.uz();
    assert((v.ux() == s || v.ux() == -s || v.ux() == 0) && (v.uy() == s || v.uy() == -s || v.uy()
        == 0) && (v.uz() == s || v.uz() == -s || v.uz() == 0));
    assert(m == s * s) by (nonlinear_arith)
        requires
            ((v.ux() == s || v.ux() == -s) && v.uy() == 0 && v.uz() == 0) || (v.ux() == 0 && (
            v.uy() == s || v.uy() == -s) && v.uz() == 0) || (v.ux() == 0 && v.uy() == 0 && (v.uz()
                == s || v.uz() == -s)),
            m == v.ux() * v.ux() + v.uy() * v.uy() + v.uz() * v.uz(),
    ;
    lemma_isqrt_unique(m, s);
}

/// The cross product is anti-commutative: crossing in the other order
/// negates every component.
pub proof fn lemma_cross_anticommutes(a: Vector, b: Vector)
    ensures
        a.cross_x_u(b) == -b.cross_x_u(a),
        a.cross_y_u(b) == -b.cross_y_u(a),
        a.cross_z_u(b) == -b.cross_z_u(a),
{
    lemma_fp_mul_comm(a.ux(), b.uy());
    lemma_fp_mul_comm(a.ux(), b.uz());
    lemma_fp_mul_comm(a.uy(), b.ux());
    lemma_fp_mul_comm(a.uy(), b.uz());
    lemma_fp_mul_comm(a.uz(), b.ux());
    lemma_fp_mul_comm(a.uz(), b.uy());
}

/// One normalized component: its magnitude is at most the unit scale, and
/// its square times the norm's square brackets the scaled component's
/// square within one norm step.
proof fn lemma_norm_component(m: int, r: int)
    requires
        r > 0,
        iabs(m) <= r,
    ensures
        iabs(tdiv(m * (SCALE as int), r)) <= SCALE as int,
        (tdiv(m * (SCALE as int), r) * tdiv(m * (SCALE as int), r)) * (r * r) <= (m * (
        SCALE as int)) * (m * (SCALE as int)),
        (m * (SCALE as int)) * (m * (SCALE as int)) < ((iabs(tdiv(m * (SCALE as int), r)) + 1) * (
        iabs(tdiv(m * (SCALE as int), r)) + 1)) * (r * r),
{
    let s = SCALE as int;
    let p = m * s;
    let q = tdiv(p, r);
    let aq = iabs(q);
    let ap = iabs(p);
    let am = iabs(m);
    lemma_tdiv_close(p, r);
    if m >= 0 {
        assert(p >= 0) by (nonlinear_arith)
            requires
                p == m * s,
                m >= 0,
                s > 0,
        ;
        assert(ap == am * s);
    } else {
        assert(p < 0 && -p == (-m) * s) by (nonlinear_arith)
            requires
                p == m * s,
                m < 0,
                s > 0,
        ;
        assert(ap == am * s);
    }
    assert(aq * r <= r * s) by (nonlinear_arith)
        requires
            aq * r <= ap,
            ap == am * s,
            am <= r,
            s > 0,
    ;
    assert(aq <= s) by (nonlinear_arith)
        requires
            aq * r <= r * s,
            r > 0,
            aq >= 0,
    ;
    assert((q * q) * (r * r) <= p * p) by (nonlinear_arith)
        requires
            aq * r <= ap,
            aq >= 0,
            ap >= 0,
            r > 0,
            aq == q || aq == -q,
            ap == p || ap == -p,
    ;
    assert(p * p < ((aq + 1) * (aq + 1)) * (r * r)) by (nonlinear_arith)
        requires
            ap < aq * r + r,
            aq >= 0,
            ap >= 0,
            r > 0,
            ap == p || ap == -p,
    ;
}

/// Normalizing a vector whose magnitude is at least the loose tolerance
/// yields a vector of loosely unit magnitude. For still shorter nonzero
/// vectors the rounding of each component can dominate the result, and the
/// law does not hold of them.
pub proof fn lemma_normalize_magnitude(v: Vector, n: Vector)
    requires
        v.mag_u() >= EPSILON_LOW_UNITS as int,
        n.ux() == fp_div(v.ux(), v.mag_u()),
        n.uy() == fp_div(v.uy(), v.mag_u()),
        n.uz() == fp_div(v.uz(), v.mag_u()),
    ensures
        approx_low_units(n.mag_u(), SCALE as int),
{
    let s = SCALE as int;
    let eps = EPSILON_LOW_UNITS as int;
    assert(s == 10000000);
    assert(eps == 10000);
    let mx = v.ux();
    let my = v.uy();
    let mz = v.uz();
    let bigm = mx * mx + my * my + mz * mz;
    let r = v.mag_u();
    assert(mx * mx >= 0) by (nonlinear_arith);
    assert(my * my >= 0) by (nonlinear_arith);
    assert(mz * mz >= 0) by (nonlinear_arith);
    lemma_isqrt_bounds(bigm);
    let amx = iabs(mx);
    let amy = iabs(my);
    let amz = iabs(mz);
    assert(amx <= r && amy <= r && amz <= r) by (nonlinear_arith)
        requires
            r >= 0,
            amx == mx || amx == -mx,
            amy == my || amy == -my,
            amz == mz || amz == -mz,
            amx >= 0,
            amy >= 0,
            amz >= 0,
            mx * mx + my * my + mz * mz < (r + 1) * (r + 1),
            mx * mx >= 0,
            my * my >= 0,
            mz * mz >= 0,
    ;
    lemma_norm_component(mx, r);
    lemma_norm_component(my, r);
    lemma_norm_component(mz, r);
    let qx = n.ux();
    let qy = n.uy();
    let qz = n.uz();
    let aqx = iabs(qx);
    let aqy = iabs(qy);
    let aqz = iabs(qz);
    let q2 = qx * qx + qy * qy + qz * qz;
    let a2 = (mx * s) * (mx * s) + (my * s) * (my * s) + (mz * s) * (mz * s);
    assert(a2 == (s * s) * bigm) by (nonlinear_arith)
        requires
            a2 == (mx * s) * (mx * s) + (my * s) * (my * s) + (mz * s) * (mz * s),
            bigm == mx * mx + my * my + mz * mz,
    ;
    assert(q2 * (r * r) <= a2) by (nonlinear_arith)
        requires
            (qx * qx) * (r * r) <= (mx * s) * (mx * s),
            (qy * qy) * (r * r) <= (my * s) * (my * s),
            (qz * qz) * (r * r) <= (mz * s) * (mz * s),
            q2 == qx * qx + qy * qy + qz * qz,
            a2 == (mx * s) * (mx * s) + (my * s) * (my * s) + (mz * s) * (mz * s),
    ;
    assert(a2 < (q2 + 2 * (aqx + aqy + aqz) + 3) * (r * r)) by (nonlinear_arith)
        requires
            (mx * s) * (mx * s) < ((aqx + 1) * (aqx + 1)) * (r * r),
            (my * s) * (my * s) < ((aqy + 1) * (aqy + 1)) * (r * r),
            (mz * s) * (mz * s) < ((aqz + 1) * (aqz + 1)) * (r * r),
            aqx == qx || aqx == -qx,
            aqy == qy || aqy == -qy,
            aqz == qz || aqz == -qz,
            q2 == qx * qx + qy * qy + qz * qz,
            a2 == (mx * s) * (mx * s) + (my * s) * (my * s) + (mz * s) * (mz * s),
    ;
    let slack = q2 + 2 * (aqx + aqy + aqz) + 3;
    assert((s * s) * (r * r) <= a2) by (nonlinear_arith)
        requires
            r * r <= bigm,
            a2 == (s * s) * bigm,
            s > 0,
    ;
    assert(a2 < (s * s) * ((r + 1) * (r + 1))) by (nonlinear_arith)
        requires
            bigm < (r + 1) * (r + 1),
            a2 == (s * s) * bigm,
            s > 0,
    ;
    assert(s * s < slack) by (nonlinear_arith)
        requires
            (s * s) * (r * r) <= a2,
            a2 < slack * (r * r),
            r > 0,
    ;
    assert(q2 > s * s - 6 * s - 3);
    assert(eps * r >= s) by (nonlinear_arith)
        requires
            r >= eps,
            eps == 10000,
            s == 10000000,
    ;
    assert((s + eps) * r >= s * (r + 1)) by (nonlinear_arith)
        requires
            eps * r >= s,
            s > 0,
            r > 0,
    ;
    assert(((s + eps) * (s + eps)) * (r * r) >= (s * s) * ((r + 1) * (r + 1))) by (nonlinear_arith)
        requires
            (s + eps) * r >= s * (r + 1),
            s * (r + 1) >= 0,
    ;
    assert(q2 < (s + eps) * (s + eps)) by (nonlinear_arith)
        requires
            q2 * (r * r) <= a2,
            a2 < (s * s) * ((r + 1) * (r + 1)),
            ((s + eps) * (s + eps)) * (r * r) >= (s * s) * ((r + 1) * (r + 1)),
            r > 0,
    ;
    assert(qx * qx >= 0) by (nonlinear_arith);
    assert(qy * qy >= 0) by (nonlinear_arith);
    assert(qz * qz >= 0) by (nonlinear_arith);
    lemma_isqrt_bounds(q2);
    let i = isqrt(q2);
    assert((s - 4) * (s - 4) <= q2) by (nonlinear_arith)
        requires
            q2 > s * s - 6 * s - 3,
            s == 10000000,
    ;
    assert(i + 1 > s - 4) by (nonlinear_arith)
        requires
            (s - 4) * (s - 4) <= q2,
            q2 < (i + 1) * (i + 1),
            i >= 0,
            s - 4 >= 0,
    ;
    assert(i < s + eps) by (nonlinear_arith)
        requires
            i * i <= q2,
            q2 < (s + eps) * (s + eps),
            i >= 0,
            s + eps > 0,
    ;
    assert(n.mag_u() == i);
    assert(iabs(i - s) < eps);
}

} // verus!
