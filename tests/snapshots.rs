use codex_bridge::review::{list_turn_snapshots, turn_diff_range, GetTurnDiffRangeParams};
use codex_bridge::snapshots::{BaseStep, ReviewSnapshots, SnapshotError, TurnStep};

fn s(v: &str) -> String {
    v.to_string()
}

fn capture_base(store: &mut ReviewSnapshots, commit: &str) {
    match store.ensure_base() {
        BaseStep::Capture(_) => {}
        other => panic!("expected a base capture, got {:?}", other),
    }
    assert_eq!(store.complete_base(Ok(s(commit))), Ok(()));
}

fn capture_turn(store: &mut ReviewSnapshots, event: &str, commit: &str) {
    let id = s(event);
    match store.record_turn_snapshot(&id) {
        TurnStep::Capture(_) => {}
        other => panic!("expected a turn capture, got {:?}", other),
    }
    assert_eq!(store.complete_turn_snapshot(&id, Ok(s(commit))), Ok(Some(s(commit))));
}

#[test]
fn base_then_turn_resolves_range() {
    let mut store = ReviewSnapshots::new(s("/repo"));
    match store.ensure_base() {
        BaseStep::Capture(cwd) => assert_eq!(cwd, "/repo"),
        other => panic!("unexpected {:?}", other),
    }
    assert_eq!(store.complete_base(Ok(s("base-abc"))), Ok(()));
    let evt = s("evt-1");
    match store.record_turn_snapshot(&evt) {
        TurnStep::Capture(cwd) => assert_eq!(cwd, "/repo"),
        other => panic!("unexpected {:?}", other),
    }
    assert_eq!(store.complete_turn_snapshot(&evt, Ok(s("turn-def"))), Ok(Some(s("turn-def"))));
    assert_eq!(
        store.commits_for_range(None, &evt),
        Some((s("/repo"), s("base-abc"), s("turn-def")))
    );
    assert_eq!(store.commits_for_range(Some(&s("missing")), &evt), None);
}

#[test]
fn turn_before_base_is_unavailable() {
    let mut store = ReviewSnapshots::new(s("/repo"));
    match store.record_turn_snapshot(&s("evt-2")) {
        TurnStep::Done(r) => assert_eq!(r, Err(SnapshotError::BaseUnavailable)),
        other => panic!("unexpected {:?}", other),
    }
    assert!(!store.snapshot_summary().disabled);
}

#[test]
fn concurrent_base_requests_capture_once() {
    let mut store = ReviewSnapshots::new(s("/repo"));
    assert!(matches!(store.ensure_base(), BaseStep::Capture(_)));
    for _ in 0..5 {
        assert!(matches!(store.ensure_base(), BaseStep::Done(Ok(()))));
    }
    assert_eq!(store.complete_base(Ok(s("base-1"))), Ok(()));
    assert!(matches!(store.ensure_base(), BaseStep::Done(Ok(()))));
    assert_eq!(store.snapshot_summary().base_commit, Some(s("base-1")));
}

#[test]
fn first_base_commit_wins() {
    let mut store = ReviewSnapshots::new(s("/repo"));
    assert!(matches!(store.ensure_base(), BaseStep::Capture(_)));
    assert_eq!(store.complete_base(Ok(s("first"))), Ok(()));
    assert_eq!(store.complete_base(Ok(s("second"))), Ok(()));
    assert_eq!(store.snapshot_summary().base_commit, Some(s("first")));
}

#[test]
fn failed_base_capture_disables() {
    let mut store = ReviewSnapshots::new(s("/repo"));
    assert!(matches!(store.ensure_base(), BaseStep::Capture(_)));
    assert!(matches!(store.ensure_base(), BaseStep::Done(Ok(()))));
    assert_eq!(
        store.complete_base(Err(s("not a git repository"))),
        Err(SnapshotError::CreationFailed(s("not a git repository")))
    );
    match store.ensure_base() {
        BaseStep::Done(r) => assert_eq!(r, Err(SnapshotError::Disabled)),
        other => panic!("unexpected {:?}", other),
    }
    match store.record_turn_snapshot(&s("evt-1")) {
        TurnStep::Done(r) => assert_eq!(r, Ok(None)),
        other => panic!("unexpected {:?}", other),
    }
    assert!(store.snapshot_summary().disabled);
}

#[test]
fn concurrent_turn_requests_capture_once() {
    let mut store = ReviewSnapshots::new(s("/repo"));
    capture_base(&mut store, "base-abc");
    let evt = s("evt-1");
    let first = store.record_turn_snapshot(&evt);
    let second = store.record_turn_snapshot(&evt);
    assert!(matches!(first, TurnStep::Capture(_)));
    match second {
        TurnStep::Done(r) => assert_eq!(r, Ok(None)),
        other => panic!("unexpected {:?}", other),
    }
    assert_eq!(store.complete_turn_snapshot(&evt, Ok(s("c1"))), Ok(Some(s("c1"))));
    // once the capture is over the turn can be captured again
    assert!(matches!(store.record_turn_snapshot(&evt), TurnStep::Capture(_)));
    assert_eq!(store.complete_turn_snapshot(&evt, Ok(s("c2"))), Ok(Some(s("c2"))));
    let summary = store.snapshot_summary();
    assert_eq!(summary.turn_commits, vec![(s("evt-1"), s("c2"))]);
}

#[test]
fn failure_makes_ranges_unavailable() {
    let mut store = ReviewSnapshots::new(s("/repo"));
    capture_base(&mut store, "base-abc");
    capture_turn(&mut store, "evt-1", "turn-1");
    assert_eq!(
        store.commits_for_range(None, &s("evt-1")),
        Some((s("/repo"), s("base-abc"), s("turn-1")))
    );
    let evt = s("evt-2");
    assert!(matches!(store.record_turn_snapshot(&evt), TurnStep::Capture(_)));
    assert_eq!(
        store.complete_turn_snapshot(&evt, Err(s("git failed"))),
        Err(SnapshotError::CreationFailed(s("git failed")))
    );
    assert_eq!(store.commits_for_range(None, &s("evt-1")), None);
    assert_eq!(store.commits_for_range(Some(&s("evt-1")), &s("evt-1")), None);
}

#[test]
fn range_between_turns_and_cwd_update() {
    let mut store = ReviewSnapshots::new(s("/repo"));
    capture_base(&mut store, "b");
    capture_turn(&mut store, "evt-1", "t1");
    capture_turn(&mut store, "evt-2", "t2");
    store.update_cwd(s("/moved"));
    assert_eq!(store.cwd(), "/moved");
    assert_eq!(
        store.commits_for_range(Some(&s("evt-1")), &s("evt-2")),
        Some((s("/moved"), s("t1"), s("t2")))
    );
    assert_eq!(store.commits_for_range(None, &s("evt-3")), None);
}

#[test]
fn summary_and_listing() {
    let mut store = ReviewSnapshots::new(s("/repo"));
    let empty = store.snapshot_summary();
    assert!(!empty.disabled);
    assert_eq!(empty.base_commit, None);
    assert!(empty.turn_commits.is_empty());
    capture_base(&mut store, "base");
    capture_turn(&mut store, "evt-1", "c1");
    capture_turn(&mut store, "evt-2", "c2");
    let mut pairs = store.snapshot_summary().turn_commits;
    pairs.sort();
    assert_eq!(pairs, vec![(s("evt-1"), s("c1")), (s("evt-2"), s("c2"))]);
    let listing = list_turn_snapshots(&store);
    assert!(!listing.disabled);
    assert_eq!(listing.base_commit_id, Some(s("base")));
    let mut ids: Vec<(String, String)> =
        listing.snapshots.iter().map(|d| (d.event_id.clone(), d.commit_id.clone())).collect();
    ids.sort();
    assert_eq!(ids, vec![(s("evt-1"), s("c1")), (s("evt-2"), s("c2"))]);
}

#[test]
fn diff_range_request() {
    let mut store = ReviewSnapshots::new(s("/repo"));
    capture_base(&mut store, "base");
    capture_turn(&mut store, "evt-1", "c1");
    let ok = GetTurnDiffRangeParams {
        conversation_id: s("conv-1"),
        base_event_id: None,
        target_event_id: s("evt-1"),
    };
    assert_eq!(turn_diff_range(&store, &ok), Ok((s("/repo"), s("base"), s("c1"))));
    let missing = GetTurnDiffRangeParams {
        conversation_id: s("conv-1"),
        base_event_id: Some(s("nope")),
        target_event_id: s("evt-1"),
    };
    assert_eq!(
        turn_diff_range(&store, &missing),
        Err(s("Snapshot data unavailable for requested range"))
    );
}
