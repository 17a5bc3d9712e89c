use cascii::glyph::{luminance, GlyphRamp};

#[test]
fn luminance_of_white_is_full() {
    assert_eq!(luminance(255, 255, 255), 255);
}

#[test]
fn luminance_of_black_is_zero() {
    assert_eq!(luminance(0, 0, 0), 0);
}

#[test]
fn luminance_weights_follow_bt709() {
    // 0.2126*100 + 0.7152*200 + 0.0722*50 = 167.91, rounded to 168.
    assert_eq!(luminance(100, 200, 50), 168);
    // Pure channels.
    assert_eq!(luminance(255, 0, 0), 54);
    assert_eq!(luminance(0, 255, 0), 182);
    assert_eq!(luminance(0, 0, 255), 18);
}

fn ramp_of(s: &str) -> GlyphRamp {
    GlyphRamp::new(s.chars().collect()).unwrap()
}

#[test]
fn white_pixel_maps_to_lightest_glyph() {
    // Luminance 255 at threshold 1 with the three-glyph ramp " .#" lands on
    // index 2.
    let ramp = ramp_of(" .#");
    assert_eq!(ramp.glyph_for(255, 1), '#');
}

#[test]
fn below_threshold_is_background_space() {
    let ramp = ramp_of(" .#");
    assert_eq!(ramp.glyph_for(0, 1), ' ');
}

#[test]
fn threshold_255_maps_all_visible_to_lightest() {
    let ramp = ramp_of(" .#");
    assert_eq!(ramp.glyph_for(255, 255), '#');
    assert_eq!(ramp.glyph_for(254, 255), ' ');
}

#[test]
fn glyph_index_is_monotone_in_luminance() {
    let ramp = ramp_of("ABC");
    assert_eq!(ramp.glyph_for(10, 10), 'A');
    assert_eq!(ramp.glyph_for(200, 10), 'B');
    assert_eq!(ramp.glyph_for(255, 10), 'C');
    let standard = GlyphRamp::standard();
    let mut last_index = 0usize;
    for luma in 5u8..=255 {
        let c = standard.glyph_for(luma, 5);
        let index = (0..standard.len())
            .position(|i| standard.char_at(i) == c)
            .unwrap();
        assert!(index >= last_index);
        last_index = index;
    }
}

#[test]
fn ramp_needs_two_glyphs() {
    assert!(GlyphRamp::new(vec!['#']).is_none());
    assert!(GlyphRamp::new(Vec::new()).is_none());
    assert!(GlyphRamp::new(vec![' ', '#']).is_some());
}

#[test]
fn standard_ramp_runs_dark_to_light() {
    let ramp = GlyphRamp::standard();
    assert_eq!(ramp.len(), 68);
    assert_eq!(ramp.char_at(0), ' ');
    assert_eq!(ramp.char_at(67), '$');
}
