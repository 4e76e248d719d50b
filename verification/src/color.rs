use vstd::prelude::*;
use vstd::arithmetic::div_mod::{lemma_div_is_ordered, lemma_div_multiples_vanish, lemma_div_pos_is_pos};
use crate::approx::{ApproxEq, approx_low_units};
use crate::scalar::{Scalar, SCALE, fits, fp_mul, tdiv};

verus! {

/// An RGB color; 1.0 is full intensity, values outside [0, 1] are kept
/// until rendering clamps them.
#[derive(Clone, Copy, Debug)]
pub struct Color {
    pub r: Scalar,
    pub g: Scalar,
    pub b: Scalar,
}

/// The 8-bit value of one channel: below 0 clamps to 0, above 1.0 clamps
/// to 255, anything between scales by 255 and truncates.
pub open spec fn channel_byte(u: int) -> int {
    if u < 0 {
        0
    } else if u > SCALE as int {
        255
    } else {
        tdiv(u * 255, SCALE as int)
    }
}

/// One channel rendered to 8 bits.
fn channel_to_byte(v: Scalar) -> (r: u8)
    ensures
        r == channel_byte(v@),
{
    let u: i128 = v.to_units();
    if u < 0 {
        0
    } else if u > SCALE {
        255
    } else {
        proof {
            lemma_div_is_ordered(u * 255, (SCALE as int) * 255, SCALE as int);
            lemma_div_multiples_vanish(255, SCALE as int);
            assert(u * 255 <= (SCALE as int) * 255) by (nonlinear_arith)
                requires
                    0 <= u <= SCALE as int,
            ;
            lemma_div_pos_is_pos(u * 255, SCALE as int);
        }
        let scaled: u128 = (u as u128) * 255;
        let byte: u128 = scaled / (SCALE as u128);
        byte as u8
    }
}

impl Color {
    /// Color with the given channels.
    pub fn new(r: Scalar, g: Scalar, b: Scalar) -> (c: Color)
        ensures
            c.r@ == r@,
            c.g@ == g@,
            c.b@ == b@,
    {
        Color { r, g, b }
    }

    /// The three channels rendered to 8-bit RGB, clamped into [0, 255].
    pub fn to_rgb(&self) -> (out: [u8; 3])
        ensures
            out@.len() == 3,
            out@[0] == channel_byte(self.r@),
            out@[1] == channel_byte(self.g@),
            out@[2] == channel_byte(self.b@),
    {
        let r = channel_to_byte(self.r);
        let g = channel_to_byte(self.g);
        let b = channel_to_byte(self.b);
        [r, g, b]
    }

    /// Component-wise sum.
    pub fn add(self, rhs: Color) -> (c: Color)
        requires
            fits(self.r@ + rhs.r@),
            fits(self.g@ + rhs.g@),
            fits(self.b@ + rhs.b@),
        ensures
            c.r@ == self.r@ + rhs.r@,
            c.g@ == self.g@ + rhs.g@,
            c.b@ == self.b@ + rhs.b@,
    {
        Color { r: self.r.add(rhs.r), g: self.g.add(rhs.g), b: self.b.add(rhs.b) }
    }

    /// Component-wise difference.
    pub fn sub(self, rhs: Color) -> (c: Color)
        requires
            fits(self.r@ - rhs.r@),
            fits(self.g@ - rhs.g@),
            fits(self.b@ - rhs.b@),
        ensures
            c.r@ == self.r@ - rhs.r@,
            c.g@ == self.g@ - rhs.g@,
            c.b@ == self.b@ - rhs.b@,
    {
        Color { r: self.r.sub(rhs.r), g: self.g.sub(rhs.g), b: self.b.sub(rhs.b) }
    }

    /// Component-wise (Hadamard) product.
    pub fn mul(self, rhs: Color) -> (c: Color)
        requires
            fits(fp_mul(self.r@, rhs.r@)),
            fits(fp_mul(self.g@, rhs.g@)),
            fits(fp_mul(self.b@, rhs.b@)),
        ensures
            c.r@ == fp_mul(self.r@, rhs.r@),
            c.g@ == fp_mul(self.g@, rhs.g@),
            c.b@ == fp_mul(self.b@, rhs.b@),
    {
        Color { r: self.r.mul(rhs.r), g: self.g.mul(rhs.g), b: self.b.mul(rhs.b) }
    }

    /// Component-wise scaling.
    pub fn mul_scalar(self, rhs: Scalar) -> (c: Color)
        requires
            fits(fp_mul(self.r@, rhs@)),
            fits(fp_mul(self.g@, rhs@)),
            fits(fp_mul(self.b@, rhs@)),
        ensures
            c.r@ == fp_mul(self.r@, rhs@),
            c.g@ == fp_mul(self.g@, rhs@),
            c.b@ == fp_mul(self.b@, rhs@),
    {
        Color { r: self.r.mul(rhs), g: self.g.mul(rhs), b: self.b.mul(rhs) }
    }
}

impl Default for Color {
    /// Black: all channels zero.
    fn default() -> (c: Color)
        ensures
            c.r@ == 0,
            c.g@ == 0,
            c.b@ == 0,
    {
        Color { r: Scalar::from_units(0), g: Scalar::from_units(0), b: Scalar::from_units(0) }
    }
}

impl PartialEq for Color {
    /// Color equality is loose approximate equality on every channel.
    fn eq(&self, other: &Self) -> (r: bool) {
        self.r.approx_eq_low_precision(other.r) && self.g.approx_eq_low_precision(other.g)
            && self.b.approx_eq_low_precision(other.b)
    }
}

impl vstd::std_specs::cmp::PartialEqSpecImpl for Color {
    open spec fn obeys_eq_spec() -> bool {
        true
    }

    open spec fn eq_spec(&self, other: &Color) -> bool {
        approx_low_units(self.r@, other.r@) && approx_low_units(self.g@, other.g@)
            && approx_low_units(self.b@, other.b@)
    }
}

} // verus!
