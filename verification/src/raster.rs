//! The engine's own raster image model: a row-major 3-channel pixel buffer.
//!
//! Decoders and resizers of the outside world produce values of this type;
//! everything the engine reads out of an image goes through it.

use vstd::prelude::*;

verus! {

/// The mathematical content of an [`Image`]: its dimensions and its samples,
/// three per pixel (red, green, blue), row by row from the top.
pub struct ImageView {
    pub width: nat,
    pub height: nat,
    pub pixels: Seq<u8>,
}

impl ImageView {
    /// The buffer holds exactly three samples for each of the
    /// `width * height` pixels.
    pub open spec fn wf(self) -> bool {
        self.pixels.len() == 3 * self.width * self.height
    }

    /// The index of the first sample of the pixel in column `x` of row `y`.
    pub open spec fn sample_base(self, x: int, y: int) -> int {
        3 * (y * self.width + x)
    }

    /// The RGB samples of the pixel in column `x` of row `y`.
    pub open spec fn pixel(self, x: int, y: int) -> (u8, u8, u8)
        recommends
            self.wf(),
            0 <= x < self.width,
            0 <= y < self.height,
    {
        (
            self.pixels[self.sample_base(x, y)],
            self.pixels[self.sample_base(x, y) + 1],
            self.pixels[self.sample_base(x, y) + 2],
        )
    }
}

/// A decoded raster image: `width * height` RGB pixels, row-major, three
/// samples per pixel.
pub struct Image {
    width: u32,
    height: u32,
    pixels: Vec<u8>,
}

impl View for Image {
    type V = ImageView;

    closed spec fn view(&self) -> ImageView {
        ImageView { width: self.width as nat, height: self.height as nat, pixels: self.pixels@ }
    }
}

/// A pixel's sample range lies inside a well-formed buffer.
pub proof fn lemma_sample_base_in_range(img: ImageView, x: int, y: int)
    requires
        img.wf(),
        0 <= x < img.width,
        0 <= y < img.height,
    ensures
        0 <= img.sample_base(x, y),
        img.sample_base(x, y) + 2 < img.pixels.len(),
{
    assert(0 <= y * img.width + x && y * img.width + x < img.width * img.height)
        by (nonlinear_arith)
        requires
            0 <= x < img.width,
            0 <= y < img.height,
    ;
    assert(3 * (y * img.width + x) + 2 < 3 * (img.width * img.height)) by (nonlinear_arith)
        requires
            0 <= y * img.width + x < img.width * img.height,
    ;
    assert(3 * img.width * img.height == 3 * (img.width * img.height)) by (nonlinear_arith);
}

impl Image {
    /// Assembles an image from its parts; refused unless the buffer holds
    /// exactly three samples per pixel.
    pub fn from_parts(width: u32, height: u32, pixels: Vec<u8>) -> (r: Option<Image>)
        ensures
            r is Some <==> pixels@.len() == 3 * (width as nat) * (height as nat),
            r matches Some(img) ==> img@ == (ImageView {
                width: width as nat,
                height: height as nat,
                pixels: pixels@,
            }) && img@.wf(),
    {
        let w128: u128 = width as u128;
        let h128: u128 = height as u128;
        proof {
            assert(w128 * h128 <= 0xFFFF_FFFFu128 * 0xFFFF_FFFFu128) by (nonlinear_arith)
                requires
                    w128 <= 0xFFFF_FFFFu128,
                    h128 <= 0xFFFF_FFFFu128,
            ;
            assert(3 * ((width as int) * (height as int)) == 3 * (width as int) * (height as int))
                by (nonlinear_arith);
        }
        let need: u128 = 3 * (w128 * h128);
        let len = pixels.len();
        if (len as u128) == need {
            Some(Image { width, height, pixels })
        } else {
            None
        }
    }

    /// The image width in pixels.
    pub fn width(&self) -> (w: u32)
        ensures
            w == self@.width,
    {
        self.width
    }

    /// The image height in pixels.
    pub fn height(&self) -> (h: u32)
        ensures
            h == self@.height,
    {
        self.height
    }

    /// The raw sample buffer, row-major, three samples per pixel.
    pub fn pixels(&self) -> (p: &Vec<u8>)
        ensures
            p@ == self@.pixels,
    {
        &self.pixels
    }

    /// Reads the RGB samples of one pixel.
    pub fn pixel(&self, x: u32, y: u32) -> (p: (u8, u8, u8))
        requires
            self@.wf(),
            x < self@.width,
            y < self@.height,
        ensures
            p == self@.pixel(x as int, y as int),
    {
        // Reading the length grounds the index arithmetic below in the range
        // of `usize`.
        let len = self.pixels.len();
        proof {
            lemma_sample_base_in_range(self@, x as int, y as int);
            assert(self@.sample_base(x as int, y as int) + 2 < len);
        }
        let base: usize = 3 * ((y as usize) * (self.width as usize) + (x as usize));
        (self.pixels[base], self.pixels[base + 1], self.pixels[base + 2])
    }
}

} // verus!
