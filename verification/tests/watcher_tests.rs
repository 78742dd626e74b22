use facerust::manager::FaceRecognition;
use facerust::matcher::find_best_match;
use facerust::store::IdentityRecord;
use facerust::types::MatchResult;
use facerust::watcher::{get_latest_mod_time, Debouncer, FsEventKind, DEBOUNCE_WINDOW_MS};

#[test]
fn debounce_window_is_two_seconds() {
    assert_eq!(DEBOUNCE_WINDOW_MS, 2000);
}

#[test]
fn burst_of_events_triggers_once() {
    // Five qualifying events within two seconds of the first: one trigger.
    let mut d = Debouncer::standard(0);
    assert!(d.on_event(FsEventKind::Create, 2001));
    assert!(!d.on_event(FsEventKind::Modify, 2500));
    assert!(!d.on_event(FsEventKind::Create, 3000));
    assert!(!d.on_event(FsEventKind::Modify, 3500));
    assert!(!d.on_event(FsEventKind::Create, 4001));
}

#[test]
fn spaced_events_each_trigger() {
    let mut d = Debouncer::standard(0);
    assert!(d.on_event(FsEventKind::Modify, 2001));
    assert!(d.on_event(FsEventKind::Modify, 4002));
    assert!(d.on_event(FsEventKind::Create, 6004));
}

#[test]
fn event_exactly_at_window_edge_is_suppressed() {
    // Strictly more than the window must elapse.
    let mut d = Debouncer::standard(0);
    assert!(!d.on_event(FsEventKind::Create, 2000));
    assert!(d.on_event(FsEventKind::Create, 2001));
}

#[test]
fn non_qualifying_events_never_trigger() {
    let mut d = Debouncer::standard(0);
    assert!(!d.on_event(FsEventKind::Remove, 10_000));
    assert!(!d.on_event(FsEventKind::Access, 20_000));
    assert!(!d.on_event(FsEventKind::Other, 30_000));
    // The clock did not advance: a qualifying event still triggers.
    assert!(d.on_event(FsEventKind::Modify, 30_001));
}

#[test]
fn events_before_the_clock_are_suppressed() {
    // A timestamp before the last trigger counts as zero elapsed time.
    let mut d = Debouncer::new(2000, 10_000);
    assert!(!d.on_event(FsEventKind::Create, 5_000));
    assert!(d.on_event(FsEventKind::Create, 12_001));
}

#[test]
fn custom_window_is_honoured() {
    let mut d = Debouncer::new(500, 0);
    assert!(d.on_event(FsEventKind::Create, 501));
    assert!(!d.on_event(FsEventKind::Create, 1001));
    assert!(d.on_event(FsEventKind::Create, 1002 + 1));
}

#[test]
fn latest_mod_time_is_the_maximum() {
    assert_eq!(get_latest_mod_time(&vec![]), 0);
    assert_eq!(get_latest_mod_time(&vec![5, 9, 3]), 9);
    assert_eq!(get_latest_mod_time(&vec![7]), 7);
    assert_eq!(get_latest_mod_time(&vec![0, 0]), 0);
}

#[test]
fn change_detected_after_debounce_causes_reload_and_new_identity_matches() {
    // Initial load: alice and bob.
    let mut m = FaceRecognition::new(None);
    assert!(m.load_persons_db(
        "db".to_string(),
        false,
        vec![
            IdentityRecord {
                name: "alice".to_string(),
                features: vec![vec![900]],
            },
            IdentityRecord {
                name: "bob".to_string(),
                features: vec![vec![800]],
            },
        ],
        1_000,
    ));
    m.set_db_path("db".to_string());
    assert!(matches!(m.start_watching(1_000), Ok(true)));
    let mut d = Debouncer::standard(1_000);

    // db/carol/c1.jpg appears: a create event past the debounce window
    // triggers, and the reaction is a forced reload of the tree, which now
    // includes carol.
    assert!(d.on_event(FsEventKind::Create, 3_500));
    assert!(m.load_persons_db(
        "db".to_string(),
        true,
        vec![
            IdentityRecord {
                name: "alice".to_string(),
                features: vec![vec![900]],
            },
            IdentityRecord {
                name: "bob".to_string(),
                features: vec![vec![800]],
            },
            IdentityRecord {
                name: "carol".to_string(),
                features: vec![vec![700]],
            },
        ],
        3_500,
    ));

    // A query of Carol's face now matches her, with no further explicit
    // reload.
    let candidates = m.snapshot_for_read().candidates();
    let scored: Vec<MatchResult> = candidates
        .iter()
        .map(|c| {
            let score = if c.feature == vec![700] { 910 } else { 150 };
            MatchResult::new(c.name.clone(), score)
        })
        .collect();
    let r = find_best_match(scored, 400);
    assert_eq!(r.best_match.name, "carol");
}
