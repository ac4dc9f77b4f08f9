use crate::scalar::{Scalar, ONE_BITS};
use vstd::prelude::*;

verus! {

/// A colour: three channels, nominally between zero and one, never clamped
/// here.
#[derive(Clone, Copy, Debug)]
pub struct Color {
    pub red: Scalar,
    pub green: Scalar,
    pub blue: Scalar,
}

impl Color {
    /// The colour whose channels are all positive zero.
    pub open spec fn dark() -> Color {
        Color { red: Scalar { bits: 0 }, green: Scalar { bits: 0 }, blue: Scalar { bits: 0 } }
    }

    /// Full red, the colour of a pixel that was never written.
    pub open spec fn unset() -> Color {
        Color { red: Scalar { bits: ONE_BITS }, green: Scalar { bits: 0 }, blue: Scalar { bits: 0 } }
    }

    pub fn new(red: Scalar, green: Scalar, blue: Scalar) -> (r: Color)
        ensures
            r == (Color { red, green, blue }),
    {
        Color { red, green, blue }
    }

    /// Black: what a ray that sees nothing, or a point that no light
    /// reaches, contributes.
    pub fn black() -> (r: Color)
        ensures
            r == Color::dark(),
    {
        Color { red: Scalar::zero(), green: Scalar::zero(), blue: Scalar::zero() }
    }

    /// The three channels as bytes, each rounded towards zero and held
    /// within `0..=255`. The caller has scaled the channels to that range.
    pub fn to_bytes(self) -> (r: (u8, u8, u8))
        ensures
            r.0 == self.red.byte(),
            r.1 == self.green.byte(),
            r.2 == self.blue.byte(),
    {
        (self.red.to_u8(), self.green.to_u8(), self.blue.to_u8())
    }
}

/// A raster of colours, stored row by row.
#[derive(Clone, Debug)]
pub struct Image {
    pixels: Vec<Color>,
    width: u32,
    height: u32,
}

impl Image {
    /// The pixels, row by row.
    pub closed spec fn view(&self) -> Seq<Color> {
        self.pixels@
    }

    pub closed spec fn spec_width(&self) -> nat {
        self.width as nat
    }

    pub closed spec fn spec_height(&self) -> nat {
        self.height as nat
    }

    /// An image holds one colour for each of its `width * height` pixels.
    pub open spec fn wf(&self) -> bool {
        self@.len() == self.spec_width() * self.spec_height()
    }

    /// Where pixel `(x, y)` lies in the row-major sequence.
    pub open spec fn offset(&self, x: u32, y: u32) -> int {
        x + y * self.spec_width()
    }

    /// An image of `width` by `height` pixels, every one of them unset.
    pub fn new(width: u32, height: u32) -> (r: Image)
        requires
            width * height <= u32::MAX,
        ensures
            r.wf(),
            r.spec_width() == width,
            r.spec_height() == height,
            forall|i: int| 0 <= i < r@.len() ==> r@[i] == Color::unset(),
    {
        let count: u32 = width * height;
        let mut pixels: Vec<Color> = Vec::new();
        let mut i: u32 = 0;
        while i < count
            invariant
                i <= count,
                pixels@.len() == i,
                forall|k: int| 0 <= k < pixels@.len() ==> pixels@[k] == Color::unset(),
            decreases count - i,
        {
            pixels.push(Color { red: Scalar::one(), green: Scalar::zero(), blue: Scalar::zero() });
            i = i + 1;
        }
        Image { pixels, width, height }
    }

    pub fn width(&self) -> (r: u32)
        ensures
            r == self.spec_width(),
    {
        self.width
    }

    pub fn height(&self) -> (r: u32)
        ensures
            r == self.spec_height(),
    {
        self.height
    }

    /// Writes one pixel and leaves the others as they were.
    pub fn set_pixel(&mut self, x: u32, y: u32, color: Color)
        requires
            0 <= old(self).offset(x, y) < old(self)@.len(),
        ensures
            final(self)@ == old(self)@.update(old(self).offset(x, y), color),
            final(self).spec_width() == old(self).spec_width(),
            final(self).spec_height() == old(self).spec_height(),
            old(self).wf() ==> final(self).wf(),
    {
        let width: u32 = self.width;
        let count: usize = self.pixels.len();
        assert(0 <= y * width) by (nonlinear_arith);
        assert(x + y * width < count);
        let row: usize = y as usize * width as usize;
        self.pixels[x as usize + row] = color;
    }

    /// Reads one pixel.
    pub fn pixel(&self, x: u32, y: u32) -> (r: Color)
        requires
            0 <= self.offset(x, y) < self@.len(),
        ensures
            r == self@[self.offset(x, y)],
    {
        let width: u32 = self.width;
        let count: usize = self.pixels.len();
        assert(0 <= y * width) by (nonlinear_arith);
        assert(x + y * width < count);
        let row: usize = y as usize * width as usize;
        self.pixels[x as usize + row]
    }
}

} // verus!
