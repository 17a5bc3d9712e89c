use cascii::errors::EngineError;
use cascii::names::{extension, is_media_name, is_png_name, is_prior_artifact};
use cascii::outsync::{detect_prior_frames, plan_output_sync, SyncPlan};

fn names(list: &[&str]) -> Vec<String> {
    list.iter().map(|s| s.to_string()).collect()
}

#[test]
fn prior_frames_are_detected_by_prefix() {
    assert!(detect_prior_frames(&names(&["notes.md", "frame_0001.png"])));
    assert!(detect_prior_frames(&names(&["frame_0001.txt"])));
    assert!(!detect_prior_frames(&names(&["notes.md", "image.png"])));
    assert!(!detect_prior_frames(&names(&[])));
}

#[test]
fn declined_overwrite_cancels_without_touching_anything() {
    // The destination holds prior artifacts and overwrite is declined: the
    // plan is a benign cancellation that names no file for deletion.
    let listing = names(&["frame_0001.png", "frame_0001.txt"]);
    let plan = plan_output_sync(&listing, false);
    assert!(matches!(plan, SyncPlan::Cancelled));
}

#[test]
fn confirmed_overwrite_purges_exactly_the_prior_artifacts() {
    let listing = names(&[
        "frame_0001.png",
        "frame_0001.txt",
        "details.md",
        "unrelated.png",
        "frame_0002.jpg",
    ]);
    match plan_output_sync(&listing, true) {
        SyncPlan::CleanFirst(purge) => {
            assert_eq!(purge, vec!["frame_0001.png".to_string(), "frame_0001.txt".to_string()]);
        }
        other => panic!("unexpected plan: {:?}", plan_name(&other)),
    }
}

#[test]
fn clean_destination_proceeds_either_way() {
    let listing = names(&["details.md", "image.png"]);
    assert!(matches!(plan_output_sync(&listing, false), SyncPlan::Proceed));
    assert!(matches!(plan_output_sync(&listing, true), SyncPlan::Proceed));
}

fn plan_name(p: &SyncPlan) -> &'static str {
    match p {
        SyncPlan::Proceed => "proceed",
        SyncPlan::Cancelled => "cancelled",
        SyncPlan::CleanFirst(_) => "clean-first",
    }
}

#[test]
fn name_predicates_follow_the_extension() {
    assert!(is_png_name("frame_0001.png"));
    assert!(!is_png_name("frame_0001.PNG"));
    assert!(!is_png_name(".png"));
    assert!(!is_png_name("frame.txt"));
    assert!(is_media_name("clip.mp4"));
    assert!(is_media_name("clip.webm"));
    assert!(is_media_name("photo.jpg"));
    assert!(!is_media_name("notes.md"));
    assert!(is_prior_artifact("frame_0001.png"));
    assert!(is_prior_artifact("frame_0001.txt"));
    assert!(!is_prior_artifact("frame_0001.jpg"));
    assert!(!is_prior_artifact("image.png"));
    assert_eq!(extension("a.tar.gz"), Some("gz"));
    assert_eq!(extension("plain"), None);
    assert_eq!(extension(".hidden"), None);
}

#[test]
fn errors_describe_their_file_and_stage() {
    assert_eq!(
        EngineError::Write("frame_0001.txt".to_string()).describe(),
        "could not write frame_0001.txt"
    );
    assert_eq!(
        EngineError::Naming("???".to_string()).describe(),
        "no usable base name: ???"
    );
    assert_eq!(EngineError::Discovery.describe(), "could not read the source directory");
}
