use facerust::geometry::{
    annotation_scale, half, label_layout, resize_target, scale_coord, Dims, FaceBox,
};
use facerust::manager::FaceRecognition;
use facerust::store::Feature;
use facerust::types::DetectedFace;

fn dims(w: i64, h: i64) -> Dims {
    Dims {
        width: w,
        height: h,
    }
}

fn face(b: Option<FaceBox>, det: Dims, orig: Dims) -> DetectedFace {
    let feature: Feature = vec![1, 2, 3];
    DetectedFace::new_with_detection_size("Unknown".to_string(), b, feature, orig, det)
}

#[test]
fn scale_coord_applies_the_ratio() {
    assert_eq!(scale_coord(300, 1000, 600), 500);
    assert_eq!(scale_coord(0, 1000, 600), 0);
    assert_eq!(scale_coord(-30, 1000, 600), -50);
    // Truncation toward zero.
    assert_eq!(scale_coord(100, 1, 3), 33);
    assert_eq!(scale_coord(-100, 1, 3), -33);
}

#[test]
fn rescale_round_trip_reproduces_the_original_region() {
    // A 1000x1000 frame resized by factor 0.6 for detection: a coordinate
    // found at 300 in detection space is 500 in the original frame; taking
    // it back to detection space returns 300 exactly.
    let down = scale_coord(500, 600, 1000);
    assert_eq!(down, 300);
    let up = scale_coord(down, 1000, 600);
    assert_eq!(up, 500);

    // With an uneven ratio the round trip lands within rounding error.
    let down2 = scale_coord(777, 600, 1000);
    let up2 = scale_coord(down2, 1000, 600);
    assert!(up2 <= 777 && 777 - up2 <= 2);
}

#[test]
fn bbox_returns_the_region_or_zeros() {
    let b = FaceBox {
        x: 10,
        y: 20,
        width: 30,
        height: 40,
    };
    let f = face(Some(b), dims(600, 400), dims(600, 400));
    assert_eq!(f.bbox(), b);
    let none = face(None, dims(600, 400), dims(600, 400));
    assert_eq!(
        none.bbox(),
        FaceBox {
            x: 0,
            y: 0,
            width: 0,
            height: 0
        }
    );
}

#[test]
fn bbox_scaled_rescales_between_spaces() {
    // Detection ran on a 600x300 copy of a 1200x600 frame.
    let b = FaceBox {
        x: 100,
        y: 50,
        width: 60,
        height: 30,
    };
    let f = face(Some(b), dims(600, 300), dims(1200, 600));
    let scaled = f.bbox_scaled(Dims {
        width: 1200,
        height: 600,
    });
    assert_eq!(
        scaled,
        FaceBox {
            x: 200,
            y: 100,
            width: 120,
            height: 60
        }
    );
}

#[test]
fn bbox_scaled_same_size_is_unchanged() {
    let b = FaceBox {
        x: 5,
        y: 6,
        width: 7,
        height: 8,
    };
    let f = face(Some(b), dims(600, 400), dims(600, 400));
    assert_eq!(
        f.bbox_scaled(Dims {
            width: 600,
            height: 400
        }),
        b
    );
}

#[test]
fn bbox_scaled_degenerate_detection_space_is_unchanged() {
    let b = FaceBox {
        x: 5,
        y: 6,
        width: 7,
        height: 8,
    };
    let f = face(Some(b), dims(0, 0), dims(600, 400));
    assert_eq!(
        f.bbox_scaled(Dims {
            width: 600,
            height: 400
        }),
        b
    );
}

#[test]
fn resize_caps_the_larger_dimension() {
    // 1000x500 with a cap of 600: the width comes to the cap, the height
    // follows the aspect ratio.
    let d = resize_target(1000, 500, 600, true).unwrap();
    assert_eq!((d.width, d.height), (600, 300));
    // Portrait orientation: the height is the larger dimension.
    let d2 = resize_target(500, 1000, 600, true).unwrap();
    assert_eq!((d2.width, d2.height), (300, 600));
}

#[test]
fn resize_leaves_small_frames_alone() {
    assert!(resize_target(400, 300, 600, true).is_none());
    assert!(resize_target(600, 600, 600, true).is_none());
}

#[test]
fn resize_without_cap_does_nothing() {
    assert!(resize_target(4000, 3000, 0, true).is_none());
    assert!(resize_target(4000, 3000, -5, true).is_none());
}

#[test]
fn resize_without_aspect_goes_to_cap_square() {
    let d = resize_target(1000, 500, 600, false).unwrap();
    assert_eq!((d.width, d.height), (600, 600));
    // Even a frame already under the cap is forced square.
    let d2 = resize_target(100, 100, 600, false).unwrap();
    assert_eq!((d2.width, d2.height), (600, 600));
}

#[test]
fn manager_resize_uses_its_configured_cap() {
    let m = FaceRecognition::new(Some(1000));
    let d = m.resize_frame(2000, 1000, true).unwrap();
    assert_eq!((d.width, d.height), (1000, 500));
    assert!(m.resize_frame(800, 600, true).is_none());
}

#[test]
fn half_truncates_toward_zero() {
    assert_eq!(half(9), 4);
    assert_eq!(half(-9), -4);
    assert_eq!(half(0), 0);
}

#[test]
fn label_layout_centres_text_above_the_region() {
    let b = FaceBox {
        x: 100,
        y: 200,
        width: 80,
        height: 90,
    };
    let l = label_layout(b, 60, 20);
    assert_eq!(l.text_x, 110);
    assert_eq!(l.text_y, 175);
    assert_eq!(l.baseline_y, 195);
    assert_eq!(l.background.x, 108);
    assert_eq!(l.background.y, 173);
    assert_eq!(l.background.width, 64);
    assert_eq!(l.background.height, 24);
}

#[test]
fn label_layout_never_goes_above_the_frame() {
    let b = FaceBox {
        x: 0,
        y: 10,
        width: 40,
        height: 40,
    };
    let l = label_layout(b, 20, 30);
    assert_eq!(l.text_y, 0);
}

#[test]
fn annotation_scale_grows_with_frame_width() {
    // At the reference width the ratio is exactly one.
    assert_eq!(annotation_scale(800), (1000, 1));
    // A small frame clamps to the lower bounds.
    assert_eq!(annotation_scale(100), (500, 1));
    // A very wide frame clamps to the upper bounds.
    assert_eq!(annotation_scale(4000), (3000, 4));
    // In between: plain proportionality.
    assert_eq!(annotation_scale(1600), (2000, 2));
}
