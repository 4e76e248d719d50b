use vstd::prelude::*;
use crate::scalar::Scalar;

verus! {

/// Capability shared by Point and Vector: a three-component value with an
/// implicit fourth homogeneous coordinate `w` fixed by the variant — the
/// units of 1.0 for a point, 0 for a vector. The homogeneous multiplication
/// on 4x4 matrices is written once against this trait and rebuilds the
/// caller's concrete variant.
pub trait Tuple: Sized {
    /// Unit count of the x component.
    spec fn ux(&self) -> int;

    /// Unit count of the y component.
    spec fn uy(&self) -> int;

    /// Unit count of the z component.
    spec fn uz(&self) -> int;

    /// Unit count of the homogeneous coordinate; a constant of the variant,
    /// never stored.
    spec fn uw(&self) -> int;

    fn new(x: Scalar, y: Scalar, z: Scalar) -> (r: Self)
        ensures
            r.ux() == x@,
            r.uy() == y@,
            r.uz() == z@,
    ;

    fn zero() -> (r: Self)
        ensures
            r.ux() == 0,
            r.uy() == 0,
            r.uz() == 0,
    ;

    fn x(&self) -> (r: Scalar)
        ensures
            r@ == self.ux(),
    ;

    fn y(&self) -> (r: Scalar)
        ensures
            r@ == self.uy(),
    ;

    fn z(&self) -> (r: Scalar)
        ensures
            r@ == self.uz(),
    ;

    fn w(&self) -> (r: Scalar)
        ensures
            r@ == self.uw(),
    ;
}

} // verus!
