use facerust::manager::FaceRecognition;
use facerust::matcher::{best_across_faces, find_best_match, run_matches};
use facerust::store::IdentityRecord;
use facerust::types::MatchResult;

fn mr(name: &str, score: i64) -> MatchResult {
    MatchResult::new(name.to_string(), score)
}

#[test]
fn best_match_picks_highest_above_threshold() {
    let scored = vec![mr("alice", 900), mr("bob", 300), mr("alice", 450)];
    let r = find_best_match(scored, 400);
    assert_eq!(r.best_match.name, "alice");
    assert_eq!(r.best_match.score, 900);
    assert_eq!(r.results.len(), 3);
    assert_eq!(r.results[1].name, "bob");
    assert_eq!(r.results[1].score, 300);
}

#[test]
fn best_match_at_threshold_is_unknown() {
    // A score equal to the threshold does not qualify: strictly-exceeds.
    let scored = vec![mr("alice", 400), mr("bob", 399)];
    let r = find_best_match(scored, 400);
    assert_eq!(r.best_match.name, "Unknown");
    assert_eq!(r.best_match.score, 0);
    assert!(r.best_match.is_unknown());
}

#[test]
fn best_match_of_nothing_is_unknown() {
    let r = find_best_match(Vec::new(), 400);
    assert_eq!(r.best_match.name, "Unknown");
    assert_eq!(r.best_match.score, 0);
}

#[test]
fn best_match_tie_keeps_first_encountered() {
    let scored = vec![mr("alice", 700), mr("bob", 700)];
    let r = find_best_match(scored, 400);
    assert_eq!(r.best_match.name, "alice");
    assert_eq!(r.best_match.score, 700);
}

#[test]
fn identical_feature_scoring_at_maximum_wins() {
    // The query feature equals one of alice's stored features, and the
    // scoring function puts identical vectors at the maximum.
    let scored = vec![mr("bob", 320), mr("alice", 1000), mr("alice", 610)];
    let r = find_best_match(scored, 400);
    assert_eq!(r.best_match.name, "alice");
    assert_eq!(r.best_match.score, 1000);
}

#[test]
fn per_face_matches_are_independent() {
    let per_face = vec![
        vec![mr("alice", 900), mr("bob", 300)],
        vec![mr("alice", 450), mr("bob", 410)],
        vec![mr("alice", 100), mr("bob", 200)],
    ];
    let r = run_matches(&per_face, 400);
    assert_eq!(r.len(), 3);
    assert_eq!(r[0].name, "alice");
    assert_eq!(r[1].name, "alice");
    // Nothing qualified for the third face.
    assert_eq!(r[2].name, "Unknown");
    assert_eq!(r[2].score, 0);
}

#[test]
fn best_across_faces_picks_the_top_face() {
    let results = vec![mr("alice", 450), mr("bob", 900), mr("carol", 600)];
    let best = best_across_faces(&results);
    assert_eq!(best.name, "bob");
    assert_eq!(best.score, 900);
}

#[test]
fn best_across_faces_without_detections_is_unknown() {
    let best = best_across_faces(&Vec::new());
    assert_eq!(best.name, "Unknown");
    assert_eq!(best.score, 0);
}

#[test]
fn best_across_faces_tie_keeps_first() {
    let results = vec![mr("alice", 500), mr("bob", 500)];
    let best = best_across_faces(&results);
    assert_eq!(best.name, "alice");
}

#[test]
fn gallery_query_end_to_end() {
    // db/alice/a1.jpg and db/bob/b1.jpg were scanned; each image yielded one
    // feature vector.
    let mut m = FaceRecognition::new(None);
    let records = vec![
        IdentityRecord {
            name: "alice".to_string(),
            features: vec![vec![950, 20]],
        },
        IdentityRecord {
            name: "bob".to_string(),
            features: vec![vec![-40, 870]],
        },
    ];
    assert!(m.load_persons_db("db".to_string(), false, records, 1));

    // A query image of Alice: the scorer rates her stored vector highest.
    let candidates = m.snapshot_for_read().candidates();
    assert_eq!(candidates.len(), 2);
    assert_eq!(candidates[0].name, "alice");
    assert_eq!(candidates[1].name, "bob");
    let scored: Vec<MatchResult> = candidates
        .iter()
        .map(|c| {
            // A stand-in scorer: similarity 0.93 against alice's vector,
            // 0.10 against bob's.
            let score = if c.feature == vec![950, 20] { 930 } else { 100 };
            MatchResult::new(c.name.clone(), score)
        })
        .collect();
    let r = find_best_match(scored, 400);
    assert_eq!(r.best_match.name, "alice");
    assert!(r.best_match.score > 400);

    // An unrelated face scores low everywhere: the sentinel comes back.
    let unrelated = vec![mr("alice", 120), mr("bob", 90)];
    let r2 = find_best_match(unrelated, 400);
    assert_eq!(r2.best_match.name, "Unknown");
    assert_eq!(r2.best_match.score, 0);
    assert_eq!(r2.best_match.to_string(), "Unknown");
}
