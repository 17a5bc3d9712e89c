use cascii::glyph::GlyphRamp;
use cascii::order::{sort_names, str_lex_le};
use cascii::raster::Image;
use cascii::transcode::render;

#[test]
fn render_reads_pixels_row_major() {
    // Two pixels in one row: black then white, three samples each.
    let img = Image::from_parts(2, 1, vec![0, 0, 0, 255, 255, 255]).unwrap();
    let ramp = GlyphRamp::new(" .#".chars().collect()).unwrap();
    assert_eq!(render(&img, &ramp, 1), " #\n");
}

#[test]
fn render_closes_every_row() {
    // One column, two rows, both white.
    let img = Image::from_parts(1, 2, vec![255, 255, 255, 255, 255, 255]).unwrap();
    let ramp = GlyphRamp::new(" .#".chars().collect()).unwrap();
    assert_eq!(render(&img, &ramp, 1), "#\n#\n");
}

#[test]
fn images_need_three_samples_per_pixel() {
    assert!(Image::from_parts(2, 1, vec![0, 0, 0]).is_none());
    assert!(Image::from_parts(1, 1, vec![0, 0, 0, 0]).is_none());
    let img = Image::from_parts(1, 1, vec![7, 8, 9]).unwrap();
    assert_eq!(img.width(), 1);
    assert_eq!(img.height(), 1);
    assert_eq!(img.pixel(0, 0), (7, 8, 9));
}

#[test]
fn string_order_is_lexicographic() {
    assert!(str_lex_le("a", "ab"));
    assert!(!str_lex_le("ab", "a"));
    assert!(str_lex_le("abc", "abd"));
    assert!(str_lex_le("x", "x"));
    assert!(str_lex_le("", "anything"));
    // Zero-padded frame numbers sort in frame order.
    assert!(str_lex_le("frame_0002.png", "frame_0010.png"));
}

#[test]
fn sorting_names_is_stable_under_input_order() {
    let a: Vec<String> = ["b", "a10", "a2", "a", ""].iter().map(|s| s.to_string()).collect();
    let sorted = sort_names(&a);
    assert_eq!(sorted, vec!["", "a", "a10", "a2", "b"]);
}
