use vstd::prelude::*;
use crate::point::Point;
use crate::scalar::{Scalar, fits, fp_mul};
use crate::tuple::Tuple;
use crate::vector::Vector;

verus! {

/// A ray: an origin point and a direction vector.
#[derive(Clone, Copy, Debug)]
pub struct Ray {
    direction: Vector,
    origin: Point,
}

impl Ray {
    /// The stored direction.
    pub closed spec fn dir_spec(&self) -> Vector {
        self.direction
    }

    /// The stored origin.
    pub closed spec fn orig_spec(&self) -> Point {
        self.origin
    }

    /// Ray from a direction and an origin.
    pub fn new(direction: &Vector, origin: &Point) -> (r: Self)
        ensures
            r.dir_spec() == *direction,
            r.orig_spec() == *origin,
    {
        Ray { direction: *direction, origin: *origin }
    }

    /// The direction.
    pub fn direction(&self) -> (r: Vector)
        ensures
            r == self.dir_spec(),
    {
        self.direction
    }

    /// The origin.
    pub fn origin(&self) -> (r: Point)
        ensures
            r == self.orig_spec(),
    {
        self.origin
    }

    /// The point reached after travelling `t` times the direction from the
    /// origin.
    pub fn at(&self, t: Scalar) -> (r: Point)
        requires
            fits(fp_mul(self.dir_spec().ux(), t@)),
            fits(fp_mul(self.dir_spec().uy(), t@)),
            fits(fp_mul(self.dir_spec().uz(), t@)),
            fits(self.orig_spec().ux() + fp_mul(self.dir_spec().ux(), t@)),
            fits(self.orig_spec().uy() + fp_mul(self.dir_spec().uy(), t@)),
            fits(self.orig_spec().uz() + fp_mul(self.dir_spec().uz(), t@)),
        ensures
            r.ux() == self.orig_spec().ux() + fp_mul(self.dir_spec().ux(), t@),
            r.uy() == self.orig_spec().uy() + fp_mul(self.dir_spec().uy(), t@),
            r.uz() == self.orig_spec().uz() + fp_mul(self.dir_spec().uz(), t@),
    {
        let scaled = self.direction.mul(t);
        self.origin.add(scaled)
    }
}

impl Default for Ray {
    /// Ray at the origin pointing nowhere.
    fn default() -> (r: Self)
        ensures
            r.dir_spec().ux() == 0,
            r.dir_spec().uy() == 0,
            r.dir_spec().uz() == 0,
            r.orig_spec().ux() == 0,
            r.orig_spec().uy() == 0,
            r.orig_spec().uz() == 0,
    {
        Ray { direction: Vector::zero(), origin: Point::zero() }
    }
}

} // verus!
