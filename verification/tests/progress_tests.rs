use scamper::cache::{
    event_for_item_progress, CacheEvent, CacheKind, CacheProgressItem, FailReason, ItemProgress,
};
use scamper::progress::{empty_done_snapshot, ProgressTracker};

fn item(size: u64, corrupt: bool, missing: bool) -> CacheProgressItem {
    CacheProgressItem { item_size: size, corrupt, missing }
}

#[test]
fn duplicate_item_events_overwrite_without_duplicates() {
    let mut tracker = ProgressTracker::new(1, CacheKind::Offline);
    tracker.apply_event(CacheEvent::ItemProcessed(
        "a.bin".to_string(),
        item(10, true, true),
    ));
    tracker.apply_event(CacheEvent::ItemProcessed(
        "a.bin".to_string(),
        item(10, false, false),
    ));
    let items = tracker.current_items();
    assert_eq!(items.len(), 1);
    assert_eq!(items[0].0, "a.bin");
    // the later event replaced the earlier record
    assert_eq!(items[0].1, item(10, false, false));
    assert!(!tracker.is_done());
}

#[test]
fn done_event_sets_the_flag_and_keeps_records() {
    let mut tracker = ProgressTracker::new(1, CacheKind::Game);
    tracker.apply_event(CacheEvent::ItemProcessed(
        "a.bin".to_string(),
        item(4, false, false),
    ));
    tracker.apply_event(CacheEvent::Done);
    assert!(tracker.is_done());
    assert_eq!(tracker.current_items().len(), 1);
}

#[test]
fn three_items_one_missing() {
    // Scenario: three items, one of which reports a missing failure; the
    // final snapshot has three entries, exactly one missing and corrupt,
    // and the operation-level corrupt flag is set.
    let mut tracker = ProgressTracker::new(77, CacheKind::Offline);
    let batch = vec![
        CacheEvent::ItemProcessed("one.bin".to_string(), item(100, false, false)),
        CacheEvent::ItemProcessed("two.bin".to_string(), item(200, true, true)),
        CacheEvent::ItemProcessed("three.bin".to_string(), item(300, false, false)),
        CacheEvent::Done,
    ];
    let snap = tracker.drain_tick(batch);
    assert_eq!(snap.version_id, 77);
    assert!(matches!(snap.kind, CacheKind::Offline));
    assert!(snap.done);
    assert_eq!(snap.items.len(), 3);
    let flagged: Vec<&(String, CacheProgressItem)> =
        snap.items.iter().filter(|p| p.1.missing).collect();
    assert_eq!(flagged.len(), 1);
    assert_eq!(flagged[0].0, "two.bin");
    assert!(flagged[0].1.corrupt);
    assert!(snap.is_corrupt());
}

#[test]
fn snapshot_without_failures_is_not_corrupt() {
    let mut tracker = ProgressTracker::new(2, CacheKind::Game);
    let snap = tracker.drain_tick(vec![
        CacheEvent::ItemProcessed("a".to_string(), item(1, false, false)),
        CacheEvent::ItemProcessed("b".to_string(), item(2, false, false)),
    ]);
    assert!(!snap.done);
    assert!(!snap.is_corrupt());
    assert_eq!(snap.items.len(), 2);
}

#[test]
fn each_tick_emits_the_accumulated_map() {
    let mut tracker = ProgressTracker::new(3, CacheKind::Offline);
    let first = tracker.drain_tick(vec![CacheEvent::ItemProcessed(
        "a".to_string(),
        item(1, false, false),
    )]);
    assert_eq!(first.items.len(), 1);
    assert!(!first.done);
    // the next tick's snapshot still holds the earlier record
    let second = tracker.drain_tick(vec![
        CacheEvent::ItemProcessed("b".to_string(), item(2, false, false)),
        CacheEvent::Done,
    ]);
    assert_eq!(second.items.len(), 2);
    assert!(second.done);
}

#[test]
fn done_stays_set_for_later_ticks() {
    let mut tracker = ProgressTracker::new(4, CacheKind::Game);
    let first = tracker.drain_tick(vec![CacheEvent::Done]);
    assert!(first.done);
    let second = tracker.drain_tick(Vec::new());
    assert!(second.done);
}

#[test]
fn empty_done_snapshot_has_no_items() {
    let snap = empty_done_snapshot(5, CacheKind::Game);
    assert_eq!(snap.version_id, 5);
    assert!(matches!(snap.kind, CacheKind::Game));
    assert!(snap.done);
    assert!(snap.items.is_empty());
    assert!(!snap.is_corrupt());
}

#[test]
fn progress_reports_translate_to_events() {
    // a passed item becomes a clean record
    match event_for_item_progress("a.bin", ItemProgress::Completed(42)) {
        Some(CacheEvent::ItemProcessed(name, it)) => {
            assert_eq!(name, "a.bin");
            assert_eq!(it, item(42, false, false));
        }
        other => panic!("unexpected event: {:?}", other),
    }
    // a missing failure is corrupt and missing
    match event_for_item_progress(
        "b.bin",
        ItemProgress::Failed { item_size: 9, reason: FailReason::Missing },
    ) {
        Some(CacheEvent::ItemProcessed(name, it)) => {
            assert_eq!(name, "b.bin");
            assert_eq!(it, item(9, true, true));
        }
        other => panic!("unexpected event: {:?}", other),
    }
    // a content mismatch is corrupt but present
    match event_for_item_progress(
        "c.bin",
        ItemProgress::Failed { item_size: 9, reason: FailReason::Mismatch },
    ) {
        Some(CacheEvent::ItemProcessed(name, it)) => {
            assert_eq!(name, "c.bin");
            assert_eq!(it, item(9, true, false));
        }
        other => panic!("unexpected event: {:?}", other),
    }
    // queued and in-progress reports produce nothing
    assert!(event_for_item_progress("d", ItemProgress::Queued).is_none());
    assert!(event_for_item_progress("d", ItemProgress::InProgress).is_none());
}
