//! An opaque RGBA frame: one colour per pixel, row by row, written out as
//! four bytes per pixel with the alpha channel always 255.

use vstd::prelude::*;
use crate::config::{cell_index, check_dimensions, dimension_error, lemma_cell_index, ConfigError};

verus! {

/// A colour of three 8-bit channels.
#[derive(Clone, Copy, Debug, PartialEq, Eq, Structural)]
pub struct Rgb {
    pub r: u8,
    pub g: u8,
    pub b: u8,
}

/// Channel `k` of an opaque pixel of colour `c`: red, green, blue, then
/// alpha, which is always 255.
pub open spec fn channel(c: Rgb, k: int) -> u8 {
    if k == 0 {
        c.r
    } else if k == 1 {
        c.g
    } else if k == 2 {
        c.b
    } else {
        255u8
    }
}

/// The bytes of a frame: four per pixel, in the order of the pixels.
pub open spec fn frame_bytes(pixels: Seq<Rgb>) -> Seq<u8> {
    Seq::new(pixels.len() * 4, |j: int| channel(pixels[j / 4], j % 4))
}

/// A frame of `n` pixels of one colour.
pub open spec fn uniform_pixels(n: nat, c: Rgb) -> Seq<Rgb> {
    Seq::new(n, |i: int| c)
}

/// `pixels` with the pixel at column `x` of row `y` set to `c`, or `pixels`
/// itself where `(x, y)` lies outside the frame.
pub open spec fn put_pixel(pixels: Seq<Rgb>, w: int, h: int, x: int, y: int, c: Rgb) -> Seq<Rgb> {
    if 0 <= x < w && 0 <= y < h {
        pixels.update(cell_index(w, x, y), c)
    } else {
        pixels
    }
}

/// A frame of `width` by `height` pixels.
pub struct PixelBuffer {
    width: usize,
    height: usize,
    pixels: Vec<Rgb>,
}

impl View for PixelBuffer {
    type V = Seq<Rgb>;

    /// The pixels, row by row.
    closed spec fn view(&self) -> Seq<Rgb> {
        self.pixels@
    }
}

impl PixelBuffer {
    /// Number of columns.
    pub closed spec fn cols(&self) -> int {
        self.width as int
    }

    /// Number of rows.
    pub closed spec fn rows(&self) -> int {
        self.height as int
    }

    /// The dimensions are valid and there is one colour per pixel.
    pub closed spec fn wf(&self) -> bool {
        &&& dimension_error(self.width as int, self.height as int).is_none()
        &&& self.pixels@.len() == self.width * self.height
    }

    /// What `wf` says of the pixels.
    pub proof fn lemma_wf(&self)
        requires
            self.wf(),
        ensures
            dimension_error(self.cols(), self.rows()).is_none(),
            self@.len() == self.cols() * self.rows(),
    {
    }

    /// A frame of `width` by `height` pixels, all of the colour `fill`.
    pub fn new(width: usize, height: usize, fill: Rgb) -> (r: Result<PixelBuffer, ConfigError>)
        ensures
            match r {
                Ok(p) => {
                    &&& dimension_error(width as int, height as int).is_none()
                    &&& p.wf()
                    &&& p.cols() == width
                    &&& p.rows() == height
                    &&& p@ == uniform_pixels((width * height) as nat, fill)
                },
                Err(e) => dimension_error(width as int, height as int) == Some(e),
            },
    {
        let size: usize = match check_dimensions(width, height) {
            Ok(n) => n,
            Err(e) => { return Err(e); },
        };
        let mut pixels: Vec<Rgb> = Vec::with_capacity(size);
        let mut i: usize = 0;
        while i < size
            invariant
                i <= size,
                pixels@.len() == i,
                forall|k: int| 0 <= k < i ==> pixels@[k] == fill,
            decreases size - i,
        {
            pixels.push(fill);
            i += 1;
        }
        assert(pixels@ =~= uniform_pixels(size as nat, fill));
        Ok(PixelBuffer { width, height, pixels })
    }

    /// Number of columns.
    pub fn width(&self) -> (w: usize)
        ensures
            w == self.cols(),
    {
        self.width
    }

    /// Number of rows.
    pub fn height(&self) -> (h: usize)
        ensures
            h == self.rows(),
    {
        self.height
    }

    /// Sets the pixel at column `px` of row `py` and says whether the
    /// position lies inside the frame. Outside it nothing changes.
    pub fn set_pixel(&mut self, px: usize, py: usize, color: Rgb) -> (inside: bool)
        requires
            old(self).wf(),
        ensures
            final(self).wf(),
            final(self).cols() == old(self).cols(),
            final(self).rows() == old(self).rows(),
            inside == (px < old(self).cols() && py < old(self).rows()),
            final(self)@ == put_pixel(
                old(self)@,
                old(self).cols(),
                old(self).rows(),
                px as int,
                py as int,
                color,
            ),
    {
        if px < self.width && py < self.height {
            proof {
                lemma_cell_index(self.width as int, self.height as int, px as int, py as int);
            }
            let idx: usize = py * self.width + px;
            self.pixels.set(idx, color);
            true
        } else {
            false
        }
    }

    /// The colour at column `px` of row `py`, or `None` outside the frame.
    pub fn pixel(&self, px: usize, py: usize) -> (c: Option<Rgb>)
        requires
            self.wf(),
        ensures
            c == (if px < self.cols() && py < self.rows() {
                Some(self@[cell_index(self.cols(), px as int, py as int)])
            } else {
                None
            }),
    {
        if px < self.width && py < self.height {
            proof {
                lemma_cell_index(self.width as int, self.height as int, px as int, py as int);
            }
            Some(self.pixels[py * self.width + px])
        } else {
            None
        }
    }

    /// The frame as bytes: red, green, blue and an alpha of 255 for each
    /// pixel, row by row.
    pub fn to_bytes(&self) -> (data: Vec<u8>)
        requires
            self.wf(),
        ensures
            data@ == frame_bytes(self@),
    {
        let n: usize = self.pixels.len();
        assert(n * 4 <= usize::MAX) by (nonlinear_arith)
            requires
                n == self.width * self.height,
                self.width * self.height * 4 <= usize::MAX,
        ;
        let mut data: Vec<u8> = Vec::with_capacity(n * 4);
        let mut i: usize = 0;
        while i < n
            invariant
                i <= n,
                n == self.pixels@.len(),
                n * 4 <= usize::MAX,
                data@.len() == i * 4,
                forall|j: int| 0 <= j < i * 4 ==> data@[j] == frame_bytes(self.pixels@)[j],
            decreases n - i,
        {
            let c: Rgb = self.pixels[i];
            data.push(c.r);
            data.push(c.g);
            data.push(c.b);
            data.push(255);
            i += 1;
        }
        assert(data@ =~= frame_bytes(self.pixels@));
        data
    }
}

/// Every fourth byte of a frame, the alpha channel, is 255.
pub proof fn lemma_frame_is_opaque(pixels: Seq<Rgb>, j: int)
    requires
        0 <= j < pixels.len() * 4,
        j % 4 == 3,
    ensures
        frame_bytes(pixels)[j] == 255u8,
{
}

} // verus!
