use vstd::prelude::*;
use crate::approx::{ApproxEq, approx_units};
use crate::scalar::{Scalar, SCALE, fits, fp_mul, fp_div};
use crate::tuple::Tuple;
use crate::vector::Vector;

verus! {

/// A location in space; its homogeneous coordinate is 1, so translation by a
/// vector moves it.
#[derive(Clone, Copy, Debug)]
pub struct Point {
    pub x: Scalar,
    pub y: Scalar,
    pub z: Scalar,
}

impl Tuple for Point {
    open spec fn ux(&self) -> int {
        self.x@
    }

    open spec fn uy(&self) -> int {
        self.y@
    }

    open spec fn uz(&self) -> int {
        self.z@
    }

    open spec fn uw(&self) -> int {
        SCALE as int
    }

    fn new(x: Scalar, y: Scalar, z: Scalar) -> (r: Self) {
        Point { x, y, z }
    }

    fn zero() -> (r: Self) {
        Point { x: Scalar::from_units(0), y: Scalar::from_units(0), z: Scalar::from_units(0) }
    }

    fn x(&self) -> (r: Scalar) {
        self.x
    }

    fn y(&self) -> (r: Scalar) {
        self.y
    }

    fn z(&self) -> (r: Scalar) {
        self.z
    }

    fn w(&self) -> (r: Scalar) {
        Scalar::from_units(SCALE)
    }
}

impl Point {
    /// Translation: point plus vector is a point.
    pub fn add(self, rhs: Vector) -> (r: Point)
        requires
            fits(self.ux() + rhs.ux()),
            fits(self.uy() + rhs.uy()),
            fits(self.uz() + rhs.uz()),
        ensures
            r.ux() == self.ux() + rhs.ux(),
            r.uy() == self.uy() + rhs.uy(),
            r.uz() == self.uz() + rhs.uz(),
    {
        Point { x: self.x.add(rhs.x), y: self.y.add(rhs.y), z: self.z.add(rhs.z) }
    }

    /// Difference of two points is the displacement between them.
    pub fn sub(self, rhs: Point) -> (r: Vector)
        requires
            fits(self.ux() - rhs.ux()),
            fits(self.uy() - rhs.uy()),
            fits(self.uz() - rhs.uz()),
        ensures
            r.ux() == self.ux() - rhs.ux(),
            r.uy() == self.uy() - rhs.uy(),
            r.uz() == self.uz() - rhs.uz(),
    {
        Vector { x: self.x.sub(rhs.x), y: self.y.sub(rhs.y), z: self.z.sub(rhs.z) }
    }

    /// Translation backwards: point minus vector is a point.
    pub fn sub_vector(self, rhs: Vector) -> (r: Point)
        requires
            fits(self.ux() - rhs.ux()),
            fits(self.uy() - rhs.uy()),
            fits(self.uz() - rhs.uz()),
        ensures
            r.ux() == self.ux() - rhs.ux(),
            r.uy() == self.uy() - rhs.uy(),
            r.uz() == self.uz() - rhs.uz(),
    {
        Point { x: self.x.sub(rhs.x), y: self.y.sub(rhs.y), z: self.z.sub(rhs.z) }
    }

    /// Component-wise negation.
    pub fn neg(self) -> (r: Point)
        ensures
            r.ux() == -self.ux(),
            r.uy() == -self.uy(),
            r.uz() == -self.uz(),
    {
        Point { x: self.x.neg(), y: self.y.neg(), z: self.z.neg() }
    }

    /// Component-wise scaling.
    pub fn mul(self, rhs: Scalar) -> (r: Point)
        requires
            fits(fp_mul(self.ux(), rhs@)),
            fits(fp_mul(self.uy(), rhs@)),
            fits(fp_mul(self.uz(), rhs@)),
        ensures
            r.ux() == fp_mul(self.ux(), rhs@),
            r.uy() == fp_mul(self.uy(), rhs@),
            r.uz() == fp_mul(self.uz(), rhs@),
    {
        Point { x: self.x.mul(rhs), y: self.y.mul(rhs), z: self.z.mul(rhs) }
    }

    /// Component-wise division by a nonzero scalar. The original lets a zero
    /// divisor flow into non-finite values; here the divisor is required to
    /// be nonzero instead, a documented hardening of that behaviour.
    pub fn div(self, rhs: Scalar) -> (r: Point)
        requires
            rhs@ != 0,
            fits(fp_div(self.ux(), rhs@)),
            fits(fp_div(self.uy(), rhs@)),
            fits(fp_div(self.uz(), rhs@)),
        ensures
            r.ux() == fp_div(self.ux(), rhs@),
            r.uy() == fp_div(self.uy(), rhs@),
            r.uz() == fp_div(self.uz(), rhs@),
    {
        Point { x: self.x.div(rhs), y: self.y.div(rhs), z: self.z.div(rhs) }
    }
}

impl Scalar {
    /// Scaling reads the same from either side: scalar times point.
    pub fn mul_point(self, rhs: Point) -> (r: Point)
        requires
            fits(fp_mul(rhs.ux(), self@)),
            fits(fp_mul(rhs.uy(), self@)),
            fits(fp_mul(rhs.uz(), self@)),
        ensures
            r.ux() == fp_mul(rhs.ux(), self@),
            r.uy() == fp_mul(rhs.uy(), self@),
            r.uz() == fp_mul(rhs.uz(), self@),
    {
        rhs.mul(self)
    }
}

impl PartialEq for Point {
    /// Point equality is tight approximate equality on every component.
    fn eq(&self, other: &Self) -> (r: bool) {
        self.x.approx_eq(other.x) && self.y.approx_eq(other.y) && self.z.approx_eq(other.z)
    }
}

impl vstd::std_specs::cmp::PartialEqSpecImpl for Point {
    open spec fn obeys_eq_spec() -> bool {
        true
    }

    open spec fn eq_spec(&self, other: &Point) -> bool {
        approx_units(self.ux(), other.ux()) && approx_units(self.uy(), other.uy())
            && approx_units(self.uz(), other.uz())
    }
}

/// Translating a point by a vector and subtracting the same vector returns
/// exactly the original point, so the round trip holds within the tight
/// tolerance.
pub proof fn lemma_translate_round_trip(p: Point, v: Vector, q: Point, w: Point)
    requires
        q.ux() == p.ux() + v.ux(),
        q.uy() == p.uy() + v.uy(),
        q.uz() == p.uz() + v.uz(),
        w.ux() == q.ux() - v.ux(),
        w.uy() == q.uy() - v.uy(),
        w.uz() == q.uz() - v.uz(),
    ensures
        w.ux() == p.ux(),
        w.uy() == p.uy(),
        w.uz() == p.uz(),
        approx_units(w.ux(), p.ux()),
        approx_units(w.uy(), p.uy()),
        approx_units(w.uz(), p.uz()),
{
}

} // verus!
