//! A decoded RGBA pixel buffer: the plain-value form of a source image
//! that sampling reads. Row-major, four bytes (r, g, b, a) per pixel.

use vstd::prelude::*;
use crate::color::Color;

verus! {

/// A read-only RGBA pixel buffer of known dimensions.
pub struct PixelBuffer {
    pub width: u32,
    pub height: u32,
    pub data: Vec<u8>,
}

impl PixelBuffer {
    /// The byte vector holds exactly four bytes per canvas pixel.
    pub open spec fn wf(&self) -> bool {
        self.data@.len() == 4 * (self.width as int) * (self.height as int)
    }

    /// The color stored at `(x, y)`.
    pub open spec fn spec_pixel(&self, x: int, y: int) -> Color {
        let base = 4 * (y * (self.width as int) + x);
        Color {
            r: self.data@[base],
            g: self.data@[base + 1],
            b: self.data@[base + 2],
            a: self.data@[base + 3],
        }
    }

    /// Every pixel of the buffer holds `c`.
    pub open spec fn spec_uniform(&self, c: Color) -> bool {
        forall|x: int, y: int|
            0 <= x < self.width && 0 <= y < self.height ==> self.spec_pixel(x, y) == c
    }

    /// Wraps a raw byte vector; `None` exactly when the byte count does
    /// not match the dimensions.
    pub fn new(width: u32, height: u32, data: Vec<u8>) -> (r: Option<PixelBuffer>)
        ensures
            r is Some <==> data@.len() == 4 * (width as int) * (height as int),
            r is Some ==> r->0 == (PixelBuffer { width, height, data }) && r->0.wf(),
    {
        proof {
            assert(4 * (width as int) * (height as int) <= 0x4_0000_0000_0000_0000)
                by (nonlinear_arith)
                requires
                    width < 0x1_0000_0000,
                    height < 0x1_0000_0000,
            ;
        }
        let expected = 4u128 * (width as u128) * (height as u128);
        if data.len() as u128 == expected {
            Some(PixelBuffer { width, height, data })
        } else {
            None
        }
    }

    /// Reads the color at `(x, y)`.
    pub fn get_pixel(&self, x: u32, y: u32) -> (c: Color)
        requires
            self.wf(),
            x < self.width,
            y < self.height,
        ensures
            c == self.spec_pixel(x as int, y as int),
    {
        let n = self.data.len();
        proof {
            lemma_pixel_index_in_range(
                self.width as int,
                self.height as int,
                x as int,
                y as int,
            );
            assert(4 * ((y as int) * (self.width as int) + (x as int)) + 3 < n);
        }
        let base = 4 * ((y as usize) * (self.width as usize) + (x as usize));
        Color {
            r: self.data[base],
            g: self.data[base + 1],
            b: self.data[base + 2],
            a: self.data[base + 3],
        }
    }
}

/// The byte offsets of pixel `(x, y)` lie inside a well-formed buffer.
proof fn lemma_pixel_index_in_range(w: int, h: int, x: int, y: int)
    requires
        0 <= x < w,
        0 <= y < h,
    ensures
        0 <= 4 * (y * w + x),
        4 * (y * w + x) + 3 < 4 * w * h,
{
    assert(0 <= y * w && y * w + x < w * h && 4 * (y * w + x) + 3 < 4 * w * h)
        by (nonlinear_arith)
        requires
            0 <= x < w,
            0 <= y < h,
    ;
}

} // verus!
