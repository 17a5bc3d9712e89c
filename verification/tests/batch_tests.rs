use cascii::batch::{plan_batch, sources_to_delete, summarize_outcomes, Frame};
use cascii::config::{
    compute_aspect_height, compute_scaled_height, preset_values, ConversionConfig, QualityPreset,
};
use cascii::errors::EngineError;
use cascii::names::output_name;

fn names(list: &[&str]) -> Vec<String> {
    list.iter().map(|s| s.to_string()).collect()
}

#[test]
fn plan_keeps_only_images_in_lexicographic_order() {
    let listing = names(&[
        "frame_0010.png",
        "details.md",
        "frame_0002.png",
        "frame_0001.txt",
        "frame_0003.png",
    ]);
    let frames = plan_batch(&listing);
    let sources: Vec<&str> = frames.iter().map(|f| f.source_name.as_str()).collect();
    assert_eq!(sources, vec!["frame_0002.png", "frame_0003.png", "frame_0010.png"]);
    let outputs: Vec<&str> = frames.iter().map(|f| f.output_name.as_str()).collect();
    assert_eq!(outputs, vec!["frame_0002.txt", "frame_0003.txt", "frame_0010.txt"]);
}

#[test]
fn plan_ignores_discovery_order() {
    let one = plan_batch(&names(&["b.png", "a.png", "c.png", "z.txt"]));
    let two = plan_batch(&names(&["z.txt", "c.png", "b.png", "a.png"]));
    assert_eq!(one.len(), two.len());
    for (f, g) in one.iter().zip(two.iter()) {
        assert_eq!(f.source_name, g.source_name);
        assert_eq!(f.output_name, g.output_name);
    }
}

#[test]
fn artifact_names_replace_the_extension() {
    assert_eq!(output_name("frame_0001.png").unwrap(), "frame_0001.txt");
    assert_eq!(output_name("picture").unwrap(), "picture.txt");
    assert_eq!(output_name("archive.tar.png").unwrap(), "archive.tar.txt");
    assert!(matches!(output_name(""), Err(EngineError::Naming(_))));
}

#[test]
fn summary_reports_the_first_failure() {
    let outcomes: Vec<Result<(), EngineError>> = vec![
        Ok(()),
        Ok(()),
        Err(EngineError::Decode("frame_0003.png".to_string())),
        Err(EngineError::Write("frame_0004.txt".to_string())),
    ];
    let res = summarize_outcomes(outcomes);
    assert_eq!(res.frames_converted, 2);
    match res.first_error {
        Some(EngineError::Decode(name)) => assert_eq!(name, "frame_0003.png"),
        other => panic!("unexpected outcome: {:?}", other),
    }
}

#[test]
fn summary_of_full_success_has_no_error() {
    let outcomes: Vec<Result<(), EngineError>> = vec![Ok(()), Ok(()), Ok(())];
    let res = summarize_outcomes(outcomes);
    assert_eq!(res.frames_converted, 3);
    assert!(res.first_error.is_none());
}

fn two_frames() -> Vec<Frame> {
    plan_batch(&names(&["frame_0001.png", "frame_0002.png"]))
}

#[test]
fn sources_deleted_only_after_full_success() {
    let frames = two_frames();
    let purge = sources_to_delete(&frames, false, true);
    assert_eq!(purge, vec!["frame_0001.png".to_string(), "frame_0002.png".to_string()]);
}

#[test]
fn failed_batch_keeps_every_source() {
    let frames = two_frames();
    assert!(sources_to_delete(&frames, false, false).is_empty());
}

#[test]
fn kept_sources_survive_a_successful_batch() {
    let frames = two_frames();
    assert!(sources_to_delete(&frames, true, true).is_empty());
    assert!(sources_to_delete(&frames, true, false).is_empty());
}

#[test]
fn presets_carry_their_quality_values() {
    assert_eq!(preset_values(QualityPreset::Small), (80, 24, 440));
    assert_eq!(preset_values(QualityPreset::Large), (800, 60, 700));
    assert_eq!(preset_values(QualityPreset::Standard), (200, 24, 500));
    assert_eq!(preset_values(QualityPreset::Full), (800, 30, 700));
}

#[test]
fn aspect_height_rounds_and_clamps() {
    // 6 rows at ratio 0.5 keep 3 rows.
    assert_eq!(compute_aspect_height(6, 500), 3);
    // 3 rows at ratio 0.44: round(1.32) = 1.
    assert_eq!(compute_aspect_height(3, 440), 1);
    // Halves round up: round(2.5) with ratio 0.5 on 5 rows.
    assert_eq!(compute_aspect_height(5, 500), 3);
    // Never below one row.
    assert_eq!(compute_aspect_height(1, 400), 1);
    assert_eq!(compute_aspect_height(0, 700), 1);
}

#[test]
fn scaled_height_keeps_proportions() {
    // 100x100 to 10 columns: 10 rows.
    assert_eq!(compute_scaled_height(100, 10, 100), 10);
    // 3 rows, width 2 to 1 column: round(1.5) = 2.
    assert_eq!(compute_scaled_height(3, 1, 2), 2);
    // Never below one row.
    assert_eq!(compute_scaled_height(1, 1, 100), 1);
}

#[test]
fn config_rejects_degenerate_values() {
    assert!(ConversionConfig::new(None, 0, 1, false).is_none());
    assert!(ConversionConfig::new(Some(0), 700, 1, false).is_none());
    let cfg = ConversionConfig::new(Some(80), 700, 1, false).unwrap();
    assert_eq!(cfg.target_columns, Some(80));
    assert_eq!(cfg.font_ratio_permille, 700);
    assert_eq!(cfg.luminance_threshold, 1);
    assert!(!cfg.keep_source_images);
}
