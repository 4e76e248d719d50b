use vstd::prelude::*;
use crate::color::{Color, channel_byte};

verus! {

/// A rectangle of pixels, row-major by scanline. Rendering hands a flat
/// 8-bit RGB buffer to whatever encodes or stores the image; the canvas
/// itself never touches the outside world.
pub struct Canvas {
    width: usize,
    height: usize,
    pixels: Vec<Color>,
}

impl View for Canvas {
    type V = Seq<Color>;

    closed spec fn view(&self) -> Seq<Color> {
        self.pixels@
    }
}

impl Canvas {
    #[verifier::type_invariant]
    spec fn wf(self) -> bool {
        self.pixels@.len() == self.width * self.height
    }

    /// The width in pixels.
    pub closed spec fn spec_width(&self) -> int {
        self.width as int
    }

    /// The height in pixels.
    pub closed spec fn spec_height(&self) -> int {
        self.height as int
    }

    /// A canvas of the given size with every pixel black.
    pub fn new(width: usize, height: usize) -> (r: Self)
        requires
            width * height <= usize::MAX,
        ensures
            r.spec_width() == width,
            r.spec_height() == height,
            r@.len() == width * height,
            forall|i: int|
                0 <= i < width * height ==> (#[trigger] r@[i]).r@ == 0 && r@[i].g@ == 0
                    && r@[i].b@ == 0,
    {
        let total: usize = width * height;
        let mut pixels: Vec<Color> = Vec::new();
        let mut i: usize = 0;
        while i < total
            invariant
                i <= total,
                pixels@.len() == i,
                forall|j: int|
                    0 <= j < i ==> (#[trigger] pixels@[j]).r@ == 0 && pixels@[j].g@ == 0
                        && pixels@[j].b@ == 0,
            decreases total - i,
        {
            pixels.push(Color::default());
            i = i + 1;
        }
        Canvas { width, height, pixels }
    }

    /// The width in pixels.
    pub fn width(&self) -> (r: usize)
        ensures
            r == self.spec_width(),
    {
        self.width
    }

    /// The height in pixels.
    pub fn height(&self) -> (r: usize)
        ensures
            r == self.spec_height(),
    {
        self.height
    }

    /// The pixel at column `x` of scanline `y`.
    pub fn at(&self, x: usize, y: usize) -> (r: Color)
        requires
            x < self.spec_width(),
            y < self.spec_height(),
        ensures
            r == self@[self.spec_width() * y + x],
    {
        proof {
            use_type_invariant(&*self);
            vstd::std_specs::vec::axiom_spec_len(&self.pixels);
            lemma_scanline_index(self.width as int, self.height as int, x as int, y as int);
        }
        self.pixels[self.width * y + x]
    }

    /// Overwrite the pixel at column `x` of scanline `y`.
    pub fn set(&mut self, x: usize, y: usize, color: Color)
        requires
            x < old(self).spec_width(),
            y < old(self).spec_height(),
        ensures
            final(self).spec_width() == old(self).spec_width(),
            final(self).spec_height() == old(self).spec_height(),
            final(self)@ == old(self)@.update(old(self).spec_width() * y + x, color),
    {
        proof {
            use_type_invariant(&*self);
            vstd::std_specs::vec::axiom_spec_len(&self.pixels);
            lemma_scanline_index(self.width as int, self.height as int, x as int, y as int);
        }
        let i: usize = self.width * y + x;
        self.pixels[i] = color;
    }

    /// The whole canvas as a flat row-major byte buffer, three 8-bit RGB
    /// channels per pixel.
    pub fn to_rgb_bytes(&self) -> (out: Vec<u8>)
        ensures
            out@.len() == 3 * self@.len(),
            forall|i: int|
                0 <= i < self@.len() ==> out@[3 * i] == channel_byte(#[trigger] self@[i].r@)
                    && out@[3 * i + 1] == channel_byte(self@[i].g@) && out@[3 * i + 2]
                    == channel_byte(self@[i].b@),
    {
        proof {
            use_type_invariant(&*self);
        }
        let mut out: Vec<u8> = Vec::new();
        let mut i: usize = 0;
        let total: usize = self.pixels.len();
        while i < total
            invariant
                total == self@.len(),
                total <= usize::MAX,
                i <= total,
                out@.len() == 3 * i,
                forall|j: int|
                    0 <= j < i ==> out@[3 * j] == channel_byte(#[trigger] self@[j].r@)
                        && out@[3 * j + 1] == channel_byte(self@[j].g@) && out@[3 * j + 2]
                        == channel_byte(self@[j].b@),
            decreases total - i,
        {
            let rgb = self.pixels[i].to_rgb();
            let ghost prev = out@;
            out.push(rgb[0]);
            out.push(rgb[1]);
            out.push(rgb[2]);
            proof {
                assert forall|j: int|
                    0 <= j < i + 1 implies out@[3 * j] == channel_byte(#[trigger] self@[j].r@)
                    && out@[3 * j + 1] == channel_byte(self@[j].g@) && out@[3 * j + 2]
                    == channel_byte(self@[j].b@) by {
                    if j < i {
                        assert(out@[3 * j] == prev[3 * j]);
                        assert(out@[3 * j + 1] == prev[3 * j + 1]);
                        assert(out@[3 * j + 2] == prev[3 * j + 2]);
                    } else {
                        assert(out@[3 * j] == rgb@[0]);
                        assert(out@[3 * j + 1] == rgb@[1]);
                        assert(out@[3 * j + 2] == rgb@[2]);
                    }
                }
            }
            i = i + 1;
        }
        out
    }
}

/// A column and scanline within bounds give a flat index within the buffer.
proof fn lemma_scanline_index(w: int, h: int, x: int, y: int)
    requires
        0 <= x < w,
        0 <= y < h,
    ensures
        0 <= w * y + x < w * h,
{
    assert(0 <= w * y + x < w * h) by (nonlinear_arith)
        requires
            0 <= x < w,
            0 <= y < h,
    ;
}

} // verus!
