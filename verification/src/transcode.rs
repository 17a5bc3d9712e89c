//! One frame's journey from encoded bytes to a text artifact.
//!
//! A frame is decoded, optionally resized to a requested column count
//! (height kept proportional), squashed vertically by the font aspect ratio,
//! and rastered into a grid of glyphs, one row of characters per pixel row,
//! each row closed by a line terminator.

use vstd::prelude::*;

use crate::config::{
    aspect_height, compute_aspect_height, compute_scaled_height, scaled_height, ConversionConfig,
};
use crate::errors::EngineError;
use crate::glyph::{glyph_of, luma_of, luminance, GlyphRamp};
use crate::raster::{Image, ImageView};

verus! {

/// Appending one character to a string.
pub assume_specification[ String::push ](s: &mut String, ch: char)
    ensures
        final(s)@ == old(s)@.push(ch),
;

/// What `image::load_from_memory` followed by `DynamicImage::to_rgb8` makes
/// of a byte stream: `None` when the bytes cannot be parsed as an image,
/// otherwise the decoded RGB raster. Decoding is a pure function of the
/// bytes.
pub uninterp spec fn decoded_image(bytes: Seq<u8>) -> Option<ImageView>;

/// The samples produced by `image::imageops::resize` with the Triangle
/// filter: a pure function of the source raster and the target dimensions.
pub uninterp spec fn resized_pixels(img: ImageView, new_width: nat, new_height: nat) -> Seq<u8>;

/// Relies on `image::load_from_memory` and `DynamicImage::to_rgb8`: decoding
/// yields a raster whose buffer holds exactly three samples per pixel in
/// row-major order, and depends only on the bytes.
#[verifier::external_body]
fn decode_rgb(bytes: &[u8]) -> (r: Option<Image>)
    ensures
        r is Some <==> decoded_image(bytes@) is Some,
        r matches Some(img) ==> decoded_image(bytes@) == Some(img@) && img@.wf(),
{
    match image::load_from_memory(bytes) {
        Ok(decoded) => {
            let buf = decoded.to_rgb8();
            let (w, h) = buf.dimensions();
            Some(Image::from_parts(w, h, buf.into_raw()).unwrap())
        },
        Err(_) => None,
    }
}

/// Relies on `image::imageops::resize` with the Triangle filter: the result
/// is a pure function of the source raster and the target dimensions, and
/// the returned buffer holds exactly `new_width * new_height` RGB pixels.
#[verifier::external_body]
fn resize_rgb(img: &Image, new_width: u32, new_height: u32) -> (r: Image)
    requires
        img@.wf(),
        img@.width >= 1,
        img@.height >= 1,
        new_width >= 1,
        new_height >= 1,
    ensures
        r@ == (ImageView {
            width: new_width as nat,
            height: new_height as nat,
            pixels: resized_pixels(img@, new_width as nat, new_height as nat),
        }),
        r@.wf(),
{
    let src: image::RgbImage =
        image::ImageBuffer::from_raw(img.width(), img.height(), img.pixels().clone()).unwrap();
    let out = image::imageops::resize(&src, new_width, new_height, image::imageops::FilterType::Triangle);
    Image::from_parts(new_width, new_height, out.into_raw()).unwrap()
}

/// The glyph rendered for the pixel in column `x` of row `y`.
pub open spec fn pixel_glyph(img: ImageView, ramp: Seq<char>, threshold: u8, x: int, y: int) -> char {
    let p = img.pixel(x, y);
    glyph_of(ramp, luma_of(p.0, p.1, p.2) as u8, threshold)
}

/// One text row: the glyphs of pixel row `y`, left to right.
pub open spec fn row_chars(img: ImageView, ramp: Seq<char>, threshold: u8, y: int) -> Seq<char> {
    Seq::new(img.width, |x: int| pixel_glyph(img, ramp, threshold, x, y))
}

/// The first `y` text rows, each closed by a line terminator.
pub open spec fn rows_upto(img: ImageView, ramp: Seq<char>, threshold: u8, y: int) -> Seq<char>
    decreases y,
{
    if y <= 0 {
        Seq::empty()
    } else {
        rows_upto(img, ramp, threshold, y - 1) + row_chars(img, ramp, threshold, y - 1).push('\n')
    }
}

/// The whole text artifact of a raster: `height` rows of `width` glyphs,
/// every row closed by a line terminator.
pub open spec fn ascii_text(img: ImageView, ramp: Seq<char>, threshold: u8) -> Seq<char> {
    rows_upto(img, ramp, threshold, img.height as int)
}

proof fn lemma_rows_upto_len(img: ImageView, ramp: Seq<char>, threshold: u8, y: int)
    requires
        0 <= y,
    ensures
        rows_upto(img, ramp, threshold, y).len() == y * (img.width + 1),
    decreases y,
{
    if y > 0 {
        lemma_rows_upto_len(img, ramp, threshold, y - 1);
        let w1 = img.width as int + 1;
        assert(row_chars(img, ramp, threshold, y - 1).push('\n').len() == w1);
        assert(rows_upto(img, ramp, threshold, y).len() == (y - 1) * w1 + w1);
        assert((y - 1) * w1 + w1 == y * w1) by (nonlinear_arith);
    } else {
        assert(y * (img.width as int + 1) == 0) by (nonlinear_arith)
            requires
                y == 0,
        ;
    }
}

/// Law: the artifact of a raster has exactly `height * (width + 1)`
/// characters — one row per pixel row, one glyph per column, one terminator
/// per row.
pub proof fn lemma_text_dimensions(img: ImageView, ramp: Seq<char>, threshold: u8)
    ensures
        ascii_text(img, ramp, threshold).len() == img.height * (img.width + 1),
{
    lemma_rows_upto_len(img, ramp, threshold, img.height as int);
}

proof fn lemma_rows_upto_index(img: ImageView, ramp: Seq<char>, threshold: u8, h: int, y: int, k: int)
    requires
        0 <= y < h,
        0 <= k <= img.width,
    ensures
        rows_upto(img, ramp, threshold, h)[y * (img.width as int + 1) + k] == (if k < img.width {
            row_chars(img, ramp, threshold, y)[k]
        } else {
            '\n'
        }),
    decreases h,
{
    let w1 = img.width as int + 1;
    lemma_rows_upto_len(img, ramp, threshold, h - 1);
    assert(0 <= y * w1) by (nonlinear_arith)
        requires
            0 <= y,
            0 < w1,
    ;
    if y == h - 1 {
        assert(y * w1 + k < y * w1 + w1);
    } else {
        lemma_rows_upto_index(img, ramp, threshold, h - 1, y, k);
        assert(y * w1 + w1 <= (h - 1) * w1) by (nonlinear_arith)
            requires
                y + 1 <= h - 1,
                0 < w1,
        ;
    }
}

/// Law: row `y` of the artifact is exactly the glyphs of pixel row `y`, and
/// the character after it is the line terminator.
pub proof fn lemma_text_line(img: ImageView, ramp: Seq<char>, threshold: u8, y: int)
    requires
        0 <= y < img.height,
    ensures
        ascii_text(img, ramp, threshold).subrange(
            y * (img.width as int + 1),
            y * (img.width as int + 1) + img.width,
        ) == row_chars(img, ramp, threshold, y),
        ascii_text(img, ramp, threshold)[y * (img.width as int + 1) + img.width] == '\n',
{
    let w1 = img.width as int + 1;
    lemma_text_dimensions(img, ramp, threshold);
    assert(0 <= y * w1 && y * w1 + w1 <= img.height * w1) by (nonlinear_arith)
        requires
            0 <= y < img.height as int,
            0 < w1,
    ;
    let sub = ascii_text(img, ramp, threshold).subrange(y * w1, y * w1 + img.width);
    assert forall|k: int| 0 <= k < img.width implies sub[k] == row_chars(img, ramp, threshold, y)[k] by {
        lemma_rows_upto_index(img, ramp, threshold, img.height as int, y, k);
    }
    assert(sub =~= row_chars(img, ramp, threshold, y));
    lemma_rows_upto_index(img, ramp, threshold, img.height as int, y, img.width as int);
}

/// Rasters a decoded image into its text artifact.
pub fn render(img: &Image, ramp: &GlyphRamp, threshold: u8) -> (text: String)
    requires
        img@.wf(),
        ramp.wf(),
    ensures
        text@ == ascii_text(img@, ramp@, threshold),
{
    let w = img.width();
    let h = img.height();
    let mut text = String::new();
    let mut y: u32 = 0;
    while y < h
        invariant
            img@.wf(),
            ramp.wf(),
            w == img@.width,
            h == img@.height,
            y <= h,
            text@ == rows_upto(img@, ramp@, threshold, y as int),
        decreases h - y,
    {
        let mut x: u32 = 0;
        while x < w
            invariant
                img@.wf(),
                ramp.wf(),
                w == img@.width,
                h == img@.height,
                y < h,
                x <= w,
                text@ == rows_upto(img@, ramp@, threshold, y as int) + row_chars(
                    img@,
                    ramp@,
                    threshold,
                    y as int,
                ).take(x as int),
            decreases w - x,
        {
            let p = img.pixel(x, y);
            let l = luminance(p.0, p.1, p.2);
            let c = ramp.glyph_for(l, threshold);
            text.push(c);
            proof {
                let row = row_chars(img@, ramp@, threshold, y as int);
                assert(row.take(x + 1) =~= row.take(x as int).push(row[x as int]));
            }
            x = x + 1;
        }
        text.push('\n');
        proof {
            let row = row_chars(img@, ramp@, threshold, y as int);
            assert(text@ =~= rows_upto(img@, ramp@, threshold, y as int) + row.push('\n'));
            assert(row.take(w as int) =~= row);
        }
        y = y + 1;
    }
    text
}

/// The raster after the optional column resize: a requested column count
/// other than the source width rescales the image to that many columns, the
/// height kept proportional.
pub open spec fn column_resized(img: ImageView, cfg: ConversionConfig) -> ImageView {
    match cfg.target_columns {
        None => img,
        Some(c) => if c == img.width {
            img
        } else {
            let nh = scaled_height(img.height, c as nat, img.width);
            ImageView { width: c as nat, height: nh, pixels: resized_pixels(img, c as nat, nh) }
        },
    }
}

/// The raster after font aspect correction: the height becomes
/// [`aspect_height`] of the current height.
pub open spec fn aspect_corrected(img: ImageView, cfg: ConversionConfig) -> ImageView {
    let nh = aspect_height(img.height, cfg.font_ratio_permille as nat);
    if nh == img.height {
        img
    } else {
        ImageView { width: img.width, height: nh, pixels: resized_pixels(img, img.width, nh) }
    }
}

/// What converting one frame produces: `None` when the bytes do not decode
/// to a non-empty raster, otherwise the text artifact of the decoded, column
/// resized, aspect corrected image.
pub open spec fn transcode_spec(bytes: Seq<u8>, ramp: Seq<char>, cfg: ConversionConfig) -> Option<
    Seq<char>,
> {
    match decoded_image(bytes) {
        None => None,
        Some(img0) => if img0.width < 1 || img0.height < 1 {
            None
        } else {
            Some(
                ascii_text(
                    aspect_corrected(column_resized(img0, cfg), cfg),
                    ramp,
                    cfg.luminance_threshold,
                ),
            )
        },
    }
}

/// Law: conversion is deterministic. Any two conversions of the same bytes
/// under the same ramp and configuration yield identical artifacts.
pub proof fn lemma_transcode_deterministic(
    bytes: Seq<u8>,
    ramp: Seq<char>,
    cfg: ConversionConfig,
    out1: Option<Seq<char>>,
    out2: Option<Seq<char>>,
)
    requires
        out1 == transcode_spec(bytes, ramp, cfg),
        out2 == transcode_spec(bytes, ramp, cfg),
    ensures
        out1 == out2,
{
}

/// The dimensions, in `(columns, rows)`, of a successful conversion's
/// artifact.
pub open spec fn output_size(bytes: Seq<u8>, cfg: ConversionConfig) -> (nat, nat)
    recommends
        decoded_image(bytes) is Some,
{
    let img2 = aspect_corrected(column_resized(decoded_image(bytes).unwrap(), cfg), cfg);
    (img2.width, img2.height)
}

/// Law: a successful conversion renders one text row per output pixel row —
/// the post-resize height corrected by the font aspect ratio, with its
/// minimum of one — and one glyph per post-resize column, each row closed by
/// one terminator.
pub proof fn lemma_output_dimensions(bytes: Seq<u8>, ramp: Seq<char>, cfg: ConversionConfig)
    requires
        transcode_spec(bytes, ramp, cfg) is Some,
    ensures
        ({
            let img1 = column_resized(decoded_image(bytes).unwrap(), cfg);
            &&& output_size(bytes, cfg).0 == img1.width
            &&& output_size(bytes, cfg).1 == aspect_height(
                img1.height,
                cfg.font_ratio_permille as nat,
            )
            &&& transcode_spec(bytes, ramp, cfg).unwrap().len() == output_size(bytes, cfg).1 * (
            output_size(bytes, cfg).0 + 1)
        }),
{
    let img2 = aspect_corrected(column_resized(decoded_image(bytes).unwrap(), cfg), cfg);
    lemma_text_dimensions(img2, ramp, cfg.luminance_threshold);
}

/// Converts one frame's bytes into its text artifact. Fails exactly when the
/// bytes do not decode to a non-empty raster, and then names the frame in
/// the error.
pub fn transcode_image(frame_name: &str, bytes: &[u8], ramp: &GlyphRamp, cfg: &ConversionConfig) -> (r:
    Result<String, EngineError>)
    requires
        ramp.wf(),
        cfg.wf(),
    ensures
        r is Ok <==> transcode_spec(bytes@, ramp@, *cfg) is Some,
        r matches Ok(text) ==> text@ == transcode_spec(bytes@, ramp@, *cfg).unwrap(),
        r matches Err(e) ==> e matches EngineError::Decode(n) && n@ == frame_name@,
{
    let img0 = match decode_rgb(bytes) {
        Some(img) => img,
        None => {
            return Err(EngineError::Decode(String::from_str(frame_name)));
        },
    };
    if img0.width() < 1 || img0.height() < 1 {
        return Err(EngineError::Decode(String::from_str(frame_name)));
    }
    let img1 = match cfg.target_columns {
        Some(c) => if c != img0.width() {
            let nh = compute_scaled_height(img0.height(), c, img0.width());
            resize_rgb(&img0, c, nh)
        } else {
            img0
        },
        None => img0,
    };
    proof {
        assert(img1@ == column_resized(decoded_image(bytes@).unwrap(), *cfg));
    }
    let nh = compute_aspect_height(img1.height(), cfg.font_ratio_permille);
    let img2 = if nh != img1.height() {
        resize_rgb(&img1, img1.width(), nh)
    } else {
        img1
    };
    proof {
        assert(img2@ == aspect_corrected(
            column_resized(decoded_image(bytes@).unwrap(), *cfg),
            *cfg,
        ));
    }
    Ok(render(&img2, ramp, cfg.luminance_threshold))
}

} // verus!
