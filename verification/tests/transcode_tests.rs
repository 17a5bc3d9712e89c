use cascii::config::ConversionConfig;
use cascii::errors::EngineError;
use cascii::glyph::GlyphRamp;
use cascii::transcode::transcode_image;

fn png_bytes(width: u32, height: u32, pixel: [u8; 3]) -> Vec<u8> {
    let img = image::RgbImage::from_pixel(width, height, image::Rgb(pixel));
    let mut bytes: Vec<u8> = Vec::new();
    img.write_to(&mut std::io::Cursor::new(&mut bytes), image::ImageFormat::Png)
        .unwrap();
    bytes
}

fn ramp_of(s: &str) -> GlyphRamp {
    GlyphRamp::new(s.chars().collect()).unwrap()
}

fn config(columns: Option<u32>, permille: u32, threshold: u8) -> ConversionConfig {
    ConversionConfig::new(columns, permille, threshold, true).unwrap()
}

#[test]
fn white_pixel_renders_lightest_glyph() {
    // A 1x1 white pixel at threshold 1 with the ramp " .#": luminance 255,
    // normalized 1.0, index 2, glyph '#'.
    let bytes = png_bytes(1, 1, [255, 255, 255]);
    let out = transcode_image("w.png", &bytes, &ramp_of(" .#"), &config(None, 1000, 1)).unwrap();
    assert_eq!(out, "#\n");
}

#[test]
fn black_pixel_renders_background() {
    // A 1x1 black pixel at threshold 1: luminance 0 is below the threshold.
    let bytes = png_bytes(1, 1, [0, 0, 0]);
    let out = transcode_image("b.png", &bytes, &ramp_of(" .#"), &config(None, 1000, 1)).unwrap();
    assert_eq!(out, " \n");
}

#[test]
fn conversion_is_deterministic() {
    let bytes = png_bytes(5, 4, [120, 33, 200]);
    let ramp = GlyphRamp::standard();
    let cfg = config(Some(3), 700, 10);
    let once = transcode_image("f.png", &bytes, &ramp, &cfg).unwrap();
    let twice = transcode_image("f.png", &bytes, &ramp, &cfg).unwrap();
    assert_eq!(once.as_bytes(), twice.as_bytes());
}

#[test]
fn output_grid_matches_corrected_dimensions() {
    // 4x6 pixels at font ratio 0.5: rows = round(6 * 0.5) = 3, columns = 4.
    let bytes = png_bytes(4, 6, [255, 255, 255]);
    let out = transcode_image("g.png", &bytes, &ramp_of(" .#"), &config(None, 500, 1)).unwrap();
    let lines: Vec<&str> = out.split_terminator('\n').collect();
    assert_eq!(lines.len(), 3);
    for line in lines {
        assert_eq!(line.chars().count(), 4);
    }
    assert!(out.ends_with('\n'));
}

#[test]
fn tiny_image_keeps_at_least_one_row() {
    // 3x1 pixels at font ratio 0.4: round(1 * 0.4) = 0 is lifted to the
    // minimum of one row.
    let bytes = png_bytes(3, 1, [255, 255, 255]);
    let out = transcode_image("t.png", &bytes, &ramp_of(" .#"), &config(None, 400, 1)).unwrap();
    let lines: Vec<&str> = out.split_terminator('\n').collect();
    assert_eq!(lines.len(), 1);
    assert_eq!(lines[0].chars().count(), 3);
}

#[test]
fn requested_columns_rescale_the_grid() {
    // 2x2 source rescaled to 4 columns: height follows proportionally to 4,
    // then the 1.0 font ratio keeps it, so the grid is 4x4.
    let bytes = png_bytes(2, 2, [255, 255, 255]);
    let out = transcode_image("c.png", &bytes, &ramp_of(" .#"), &config(Some(4), 1000, 1)).unwrap();
    let lines: Vec<&str> = out.split_terminator('\n').collect();
    assert_eq!(lines.len(), 4);
    for line in lines {
        assert_eq!(line.chars().count(), 4);
    }
}

#[test]
fn matching_column_request_keeps_the_width() {
    let bytes = png_bytes(2, 2, [255, 255, 255]);
    let with_cols =
        transcode_image("c.png", &bytes, &ramp_of(" .#"), &config(Some(2), 1000, 1)).unwrap();
    let without =
        transcode_image("c.png", &bytes, &ramp_of(" .#"), &config(None, 1000, 1)).unwrap();
    assert_eq!(with_cols, without);
    assert_eq!(with_cols, "##\n##\n");
}

#[test]
fn undecodable_bytes_fail_with_decode_error() {
    let bytes = vec![1u8, 2, 3, 4, 5];
    let err = transcode_image("frame_0001.png", &bytes, &GlyphRamp::standard(), &config(None, 700, 1))
        .unwrap_err();
    match &err {
        EngineError::Decode(name) => assert_eq!(name, "frame_0001.png"),
        other => panic!("unexpected error: {:?}", other.describe()),
    }
    assert_eq!(err.describe(), "could not decode frame_0001.png");
}

#[test]
fn gradient_renders_darker_to_lighter() {
    // Two pixels, dark and bright, side by side: the bright one must not get
    // an earlier ramp glyph than the dark one.
    let mut img = image::RgbImage::new(2, 1);
    img.put_pixel(0, 0, image::Rgb([40, 40, 40]));
    img.put_pixel(1, 0, image::Rgb([230, 230, 230]));
    let mut bytes: Vec<u8> = Vec::new();
    img.write_to(&mut std::io::Cursor::new(&mut bytes), image::ImageFormat::Png)
        .unwrap();
    let out = transcode_image("g.png", &bytes, &ramp_of(".x#"), &config(None, 1000, 1)).unwrap();
    let chars: Vec<char> = out.chars().collect();
    assert_eq!(chars.len(), 3);
    // Luminance 40 lands on ramp index 0, luminance 230 on index 1.
    assert_eq!(chars[0], '.');
    assert_eq!(chars[1], 'x');
}
