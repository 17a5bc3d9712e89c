//! Pixel luminance and the luminance-to-glyph mapping.
//!
//! A [`GlyphRamp`] is an ordered palette of characters from darkest to
//! lightest. A pixel first becomes a luminance value, and the luminance
//! becomes either the background space character (below the threshold) or a
//! ramp glyph whose index grows with brightness.

use vstd::prelude::*;
use vstd::arithmetic::div_mod::{
    lemma_div_is_ordered, lemma_div_multiples_vanish, lemma_div_pos_is_pos,
};
use vstd::arithmetic::mul::lemma_mul_inequality;

verus! {

/// Perceptual brightness of an RGB pixel: the BT.709 weighted sum
/// `0.2126 R + 0.7152 G + 0.0722 B`, rounded to the nearest integer
/// (halves round up). The result always lies in `0 ..= 255`.
pub open spec fn luma_of(r: u8, g: u8, b: u8) -> int {
    (2126 * r + 7152 * g + 722 * b + 5000) / 10000
}

/// Computes the perceptual brightness of one pixel.
pub fn luminance(r: u8, g: u8, b: u8) -> (l: u8)
    ensures
        l == luma_of(r, g, b),
{
    let sum: u32 = 2126 * (r as u32) + 7152 * (g as u32) + 722 * (b as u32) + 5000;
    (sum / 10000) as u8
}

/// The ramp index chosen for a luminance at or above the threshold, in a ramp
/// of `n` glyphs: `(luma - threshold) / (255 - threshold)` scaled by `n - 1`
/// and truncated. A threshold of 255 leaves the scale without width; every
/// pixel at or above it (necessarily exactly 255) maps to the lightest glyph.
pub open spec fn glyph_index(n: nat, luma: u8, threshold: u8) -> int
    recommends
        n >= 2,
        threshold <= luma,
{
    if threshold == 255 {
        n as int - 1
    } else {
        ((luma - threshold) * (n as int - 1)) / (255 - threshold)
    }
}

/// The character rendered for a luminance: the space character as background
/// below the threshold, otherwise the ramp glyph at [`glyph_index`].
pub open spec fn glyph_of(ramp: Seq<char>, luma: u8, threshold: u8) -> char
    recommends
        ramp.len() >= 2,
{
    if luma < threshold {
        ' '
    } else {
        ramp[glyph_index(ramp.len(), luma, threshold)]
    }
}

/// The chosen index is always a valid position in the ramp.
pub proof fn lemma_glyph_index_in_range(n: nat, luma: u8, threshold: u8)
    requires
        n >= 2,
        threshold <= luma,
    ensures
        0 <= glyph_index(n, luma, threshold) < n,
{
    if threshold != 255 {
        let a = luma - threshold;
        let b = 255 - threshold;
        let c = n as int - 1;
        lemma_div_pos_is_pos(a * c, b);
        lemma_mul_inequality(a, b, c);
        lemma_div_is_ordered(a * c, b * c, b);
        lemma_div_multiples_vanish(c, b);
        assert(b * c == c * b) by (nonlinear_arith);
    }
}

/// Law: for a fixed threshold, a brighter pixel never maps to an earlier
/// (darker) ramp position. For all `luma2 >= luma1 >= threshold`, the index
/// chosen for `luma2` is at least the index chosen for `luma1`.
pub proof fn lemma_glyph_monotone(n: nat, threshold: u8, luma1: u8, luma2: u8)
    requires
        n >= 2,
        threshold <= luma1 <= luma2,
    ensures
        glyph_index(n, luma1, threshold) <= glyph_index(n, luma2, threshold),
{
    if threshold != 255 {
        let c = n as int - 1;
        lemma_mul_inequality(luma1 - threshold, luma2 - threshold, c);
        lemma_div_is_ordered((luma1 - threshold) * c, (luma2 - threshold) * c, 255 - threshold);
    }
}

/// Law: with a ramp that reserves the space character for background (no ramp
/// glyph is a space), the mapping yields a space exactly when the luminance
/// lies below the threshold, for every threshold in `0 ..= 255`.
pub proof fn lemma_space_iff_below_threshold(ramp: Seq<char>, luma: u8, threshold: u8)
    requires
        ramp.len() >= 2,
        forall|i: int| 0 <= i < ramp.len() ==> ramp[i] != ' ',
    ensures
        glyph_of(ramp, luma, threshold) == ' ' <==> luma < threshold,
{
    if luma >= threshold {
        lemma_glyph_index_in_range(ramp.len(), luma, threshold);
    }
}

/// An ordered, immutable palette of characters from darkest (index 0) to
/// lightest (last index). The only invariant is its order and that it holds
/// at least two glyphs, so both ends of the scale exist.
pub struct GlyphRamp {
    chars: Vec<char>,
}

impl View for GlyphRamp {
    type V = Seq<char>;

    closed spec fn view(&self) -> Seq<char> {
        self.chars@
    }
}

/// The palette the tool ships with, from darkest to lightest.
pub open spec fn standard_ramp_chars() -> Seq<char> {
    " .`'^,:;Il!i><~+_-?][}{1)(|/tfjrxnuvczXYUJCLQ0OZmwqpdbkhao*#MW&8%B@$"@
}

impl GlyphRamp {
    /// A ramp is usable once it has at least two glyphs.
    pub open spec fn wf(&self) -> bool {
        self@.len() >= 2
    }

    /// Builds a ramp from an ordered glyph list; refused when fewer than two
    /// glyphs are given.
    pub fn new(chars: Vec<char>) -> (r: Option<GlyphRamp>)
        ensures
            r is Some <==> chars@.len() >= 2,
            r matches Some(g) ==> g@ == chars@ && g.wf(),
    {
        if chars.len() >= 2 {
            Some(GlyphRamp { chars })
        } else {
            None
        }
    }

    /// The ramp the tool ships with.
    pub fn standard() -> (g: GlyphRamp)
        ensures
            g@ == standard_ramp_chars(),
            g.wf(),
    {
        let s = " .`'^,:;Il!i><~+_-?][}{1)(|/tfjrxnuvczXYUJCLQ0OZmwqpdbkhao*#MW&8%B@$";
        proof {
            reveal_strlit(" .`'^,:;Il!i><~+_-?][}{1)(|/tfjrxnuvczXYUJCLQ0OZmwqpdbkhao*#MW&8%B@$");
        }
        let n = s.unicode_len();
        let mut chars: Vec<char> = Vec::new();
        let mut i: usize = 0;
        while i < n
            invariant
                n == s@.len(),
                i <= n,
                chars@ == s@.take(i as int),
            decreases n - i,
        {
            chars.push(s.get_char(i));
            proof {
                assert(chars@ =~= s@.take(i + 1));
            }
            i = i + 1;
        }
        proof {
            assert(chars@ =~= s@);
        }
        GlyphRamp { chars }
    }

    /// The number of glyphs in the ramp.
    pub fn len(&self) -> (n: usize)
        ensures
            n == self@.len(),
    {
        self.chars.len()
    }

    /// The glyph at one ramp position.
    pub fn char_at(&self, i: usize) -> (c: char)
        requires
            i < self@.len(),
        ensures
            c == self@[i as int],
    {
        self.chars[i]
    }

    /// Maps a luminance to its character: the background space below the
    /// threshold, otherwise the ramp glyph at [`glyph_index`].
    pub fn glyph_for(&self, luma: u8, threshold: u8) -> (c: char)
        requires
            self.wf(),
        ensures
            c == glyph_of(self@, luma, threshold),
    {
        if luma < threshold {
            return ' ';
        }
        let n = self.chars.len();
        if threshold == 255 {
            return self.chars[n - 1];
        }
        let a: u128 = (luma - threshold) as u128;
        let c: u128 = (n - 1) as u128;
        proof {
            assert(a * c <= 255 * 0xFFFF_FFFF_FFFF_FFFFu128) by (nonlinear_arith)
                requires
                    a <= 255,
                    c <= 0xFFFF_FFFF_FFFF_FFFFu128,
            ;
        }
        let num: u128 = a * c;
        let den: u128 = 255u128 - (threshold as u128);
        let q: u128 = num / den;
        proof {
            lemma_glyph_index_in_range(n as nat, luma, threshold);
        }
        self.chars[q as usize]
    }
}

} // verus!
