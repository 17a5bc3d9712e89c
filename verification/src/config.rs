//! Batch configuration: column scaling, font aspect correction, threshold.
//!
//! Ratios are carried in thousandths (permille) so that the resize heights
//! are exact integer functions of the configuration.

use vstd::prelude::*;

verus! {

/// The settings a batch runs under, immutable for its duration.
///
/// `font_ratio_permille` is the font aspect ratio in thousandths: a value of
/// 700 squashes the image to 0.7 of its height before rendering, so the
/// character grid keeps the original proportions in a terminal.
#[derive(Clone, Copy, Debug)]
pub struct ConversionConfig {
    /// Target width in character columns; `None` keeps the source width.
    pub target_columns: Option<u32>,
    /// Font aspect ratio in thousandths, at least 1.
    pub font_ratio_permille: u32,
    /// Luminance below this renders as the background space character.
    pub luminance_threshold: u8,
    /// Keep the source images after a fully successful batch.
    pub keep_source_images: bool,
}

impl ConversionConfig {
    /// The ratio is positive and a requested width has at least one column.
    pub open spec fn wf(self) -> bool {
        &&& self.font_ratio_permille >= 1
        &&& match self.target_columns {
            Some(c) => c >= 1,
            None => true,
        }
    }

    /// Builds a configuration; refused when the ratio is zero or a zero
    /// column count is requested.
    pub fn new(
        target_columns: Option<u32>,
        font_ratio_permille: u32,
        luminance_threshold: u8,
        keep_source_images: bool,
    ) -> (r: Option<ConversionConfig>)
        ensures
            r matches Some(c) ==> c == (ConversionConfig {
                target_columns,
                font_ratio_permille,
                luminance_threshold,
                keep_source_images,
            }) && c.wf(),
            r is Some <==> font_ratio_permille >= 1 && (target_columns matches Some(c) ==> c
                >= 1),
    {
        if font_ratio_permille < 1 {
            return None;
        }
        if let Some(c) = target_columns {
            if c < 1 {
                return None;
            }
        }
        Some(ConversionConfig { target_columns, font_ratio_permille, luminance_threshold, keep_source_images })
    }
}

/// The row count after font aspect correction: `h * ratio` rounded to the
/// nearest integer (halves up) with the ratio in thousandths, never below
/// one row, capped at `u32::MAX`.
pub open spec fn aspect_height(h: nat, permille: nat) -> nat {
    let rounded = (h * permille + 500) / 1000;
    if rounded < 1 {
        1
    } else if rounded > u32::MAX {
        u32::MAX as nat
    } else {
        rounded
    }
}

/// Computes [`aspect_height`].
pub fn compute_aspect_height(h: u32, permille: u32) -> (r: u32)
    ensures
        r == aspect_height(h as nat, permille as nat),
{
    proof {
        assert((h as int) * (permille as int) <= 0xFFFF_FFFFu32 * 0xFFFF_FFFFu32)
            by (nonlinear_arith)
            requires
                h <= 0xFFFF_FFFFu32,
                permille <= 0xFFFF_FFFFu32,
        ;
    }
    let rounded: u64 = ((h as u64) * (permille as u64) + 500) / 1000;
    if rounded < 1 {
        1
    } else if rounded > (u32::MAX as u64) {
        u32::MAX
    } else {
        rounded as u32
    }
}

/// The row count that keeps an image proportional when its width changes
/// from `w` to `new_w` columns: `h * new_w / w` rounded to the nearest
/// integer (halves up), never below one row, capped at `u32::MAX`.
pub open spec fn scaled_height(h: nat, new_w: nat, w: nat) -> nat
    recommends
        w >= 1,
{
    let rounded = (2 * (h * new_w) + w) / (2 * w);
    if rounded < 1 {
        1
    } else if rounded > u32::MAX {
        u32::MAX as nat
    } else {
        rounded
    }
}

/// Computes [`scaled_height`].
pub fn compute_scaled_height(h: u32, new_w: u32, w: u32) -> (r: u32)
    requires
        w >= 1,
    ensures
        r == scaled_height(h as nat, new_w as nat, w as nat),
{
    proof {
        assert((h as int) * (new_w as int) <= 0xFFFF_FFFFu32 * 0xFFFF_FFFFu32)
            by (nonlinear_arith)
            requires
                h <= 0xFFFF_FFFFu32,
                new_w <= 0xFFFF_FFFFu32,
        ;
    }
    let num: u128 = 2 * ((h as u128) * (new_w as u128)) + (w as u128);
    let rounded: u128 = num / (2 * (w as u128));
    if rounded < 1 {
        1
    } else if rounded > (u32::MAX as u128) {
        u32::MAX
    } else {
        rounded as u32
    }
}

/// A built-in bundle of quality settings.
#[derive(Clone, Copy, Debug, PartialEq, Eq, Structural)]
pub enum QualityPreset {
    /// Small output for quick previews.
    Small,
    /// Large, slow, detailed output.
    Large,
    /// The balanced default preset.
    Standard,
    /// The values offered when the caller picks nothing.
    Full,
}

/// The values of a preset: `(columns, frames per second, ratio in thousandths)`.
pub open spec fn preset_spec(p: QualityPreset) -> (u32, u32, u32) {
    match p {
        QualityPreset::Small => (80, 24, 440),
        QualityPreset::Large => (800, 60, 700),
        QualityPreset::Standard => (200, 24, 500),
        QualityPreset::Full => (800, 30, 700),
    }
}

/// Looks up the `(columns, frames per second, ratio in thousandths)` values
/// of a preset.
pub fn preset_values(p: QualityPreset) -> (v: (u32, u32, u32))
    ensures
        v == preset_spec(p),
{
    match p {
        QualityPreset::Small => (80, 24, 440),
        QualityPreset::Large => (800, 60, 700),
        QualityPreset::Standard => (200, 24, 500),
        QualityPreset::Full => (800, 30, 700),
    }
}

} // verus!
