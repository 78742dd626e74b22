use facerust::errors::FaceRecognitionError;
use facerust::store::FeatureStore;
use facerust::text::{
    contains_str, is_visualization_artifact, score_milli_to_string, u64_to_string,
    visualize_file_name,
};
use facerust::types::{DbLoadStatus, MatchResult};

#[test]
fn decimal_rendering() {
    assert_eq!(u64_to_string(0), "0");
    assert_eq!(u64_to_string(7), "7");
    assert_eq!(u64_to_string(10), "10");
    assert_eq!(u64_to_string(1234), "1234");
    assert_eq!(u64_to_string(1000000), "1000000");
}

#[test]
fn score_rendering_has_two_fraction_digits() {
    assert_eq!(score_milli_to_string(456), "0.46");
    assert_eq!(score_milli_to_string(1000), "1.00");
    assert_eq!(score_milli_to_string(0), "0.00");
    assert_eq!(score_milli_to_string(-420), "-0.42");
    // The thousandth rounds half away from zero.
    assert_eq!(score_milli_to_string(5), "0.01");
    assert_eq!(score_milli_to_string(4), "0.00");
    assert_eq!(score_milli_to_string(-5), "-0.01");
    assert_eq!(score_milli_to_string(12345), "12.35");
}

#[test]
fn match_result_display() {
    let r = MatchResult::new("alice".to_string(), 456);
    assert_eq!(r.to_string(), "alice (0.46)");
    let u = MatchResult::new("Unknown".to_string(), 0);
    assert_eq!(u.to_string(), "Unknown");
}

#[test]
fn unknown_sentinel_is_recognized_case_insensitively() {
    assert!(MatchResult::new("Unknown".to_string(), 0).is_unknown());
    assert!(MatchResult::new("unknown".to_string(), 0).is_unknown());
    assert!(MatchResult::new("UNKNOWN".to_string(), 0).is_unknown());
    assert!(!MatchResult::new("alice".to_string(), 0).is_unknown());
    assert!(!MatchResult::new("unknowns".to_string(), 0).is_unknown());
}

#[test]
fn lowercase_folding_really_folds() {
    let r = MatchResult::new("AlIcE".to_string(), 0);
    assert_eq!(r.to_lower_case(), "alice");
    let s = MatchResult::new("Grüße".to_string(), 0);
    assert_eq!(s.to_lower_case(), "grüße");
}

#[test]
fn duplicate_copies_both_fields() {
    let r = MatchResult::new("bob".to_string(), 321);
    let d = r.duplicate();
    assert_eq!(d.name, "bob");
    assert_eq!(d.score, 321);
}

#[test]
fn visualization_artifacts_are_recognized() {
    assert!(is_visualization_artifact("photo_visualize.jpg"));
    assert!(is_visualization_artifact("a_visualize"));
    assert!(!is_visualization_artifact("photo.jpg"));
    assert!(!is_visualization_artifact("visual.jpg"));
    assert!(!is_visualization_artifact(""));
}

#[test]
fn substring_search() {
    assert!(contains_str("hello world", "o w"));
    assert!(contains_str("hello", "hello"));
    assert!(contains_str("hello", ""));
    assert!(!contains_str("hello", "world"));
    assert!(!contains_str("he", "hello"));
}

#[test]
fn visualize_name_inserts_the_marker() {
    assert_eq!(visualize_file_name("photo", "jpg"), "photo_visualize.jpg");
    assert_eq!(visualize_file_name("a", "png"), "a_visualize.png");
}

#[test]
fn status_labels() {
    assert_eq!(DbLoadStatus::NotLoaded.to_label(), "NOT_LOADED");
    assert_eq!(DbLoadStatus::Loading.to_label(), "LOADING");
    assert_eq!(DbLoadStatus::Loaded.to_label(), "LOADED");
}

#[test]
fn error_messages() {
    assert_eq!(
        FaceRecognitionError::ModelNotFound("m.onnx".to_string()).message(),
        "Model not found: m.onnx"
    );
    assert_eq!(
        FaceRecognitionError::DatabaseNotLoaded.message(),
        "Database not loaded"
    );
    assert_eq!(
        FaceRecognitionError::DetectionFailed.message(),
        "Face detection failed"
    );
    assert_eq!(
        FaceRecognitionError::FeatureExtractionFailed.message(),
        "Feature extraction failed"
    );
    assert_eq!(FaceRecognitionError::InvalidImage.message(), "Invalid image");
    assert_eq!(
        FaceRecognitionError::WatchError("denied".to_string()).message(),
        "Directory watch error: denied"
    );
    assert_eq!(
        FaceRecognitionError::OpenCv("bad mat".to_string()).message(),
        "OpenCV error: bad mat"
    );
    assert_eq!(
        FaceRecognitionError::Io("missing dir".to_string()).message(),
        "IO error: missing dir"
    );
}

#[test]
fn store_operations() {
    let mut s = FeatureStore::new();
    assert_eq!(s.len(), 0);
    s.insert("alice".to_string(), vec![vec![1]]);
    s.insert("bob".to_string(), vec![vec![2]]);
    s.insert("alice".to_string(), vec![vec![3]]);
    assert_eq!(s.len(), 2);
    assert_eq!(s.get(&"alice".to_string()), Some(&vec![vec![3]]));
    assert_eq!(s.get(&"bob".to_string()), Some(&vec![vec![2]]));
    assert_eq!(s.get(&"carol".to_string()), None);

    // Candidates flatten in record order, features in order.
    s.insert("carol".to_string(), vec![vec![4], vec![5]]);
    let cs = s.candidates();
    let pairs: Vec<(String, Vec<i64>)> = cs.iter().map(|c| (c.name.clone(), c.feature.clone())).collect();
    assert_eq!(
        pairs,
        vec![
            ("alice".to_string(), vec![3]),
            ("bob".to_string(), vec![2]),
            ("carol".to_string(), vec![4]),
            ("carol".to_string(), vec![5]),
        ]
    );

    s.clear();
    assert_eq!(s.len(), 0);
    assert_eq!(s.get(&"alice".to_string()), None);
}
