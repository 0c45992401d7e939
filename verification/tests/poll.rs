use clipboard_master::engine::DriveStatus;
use clipboard_master::engine::WatchEvent;
use clipboard_master::engine::run_events;
use clipboard_master::poll::counter_events;
use clipboard_master::CallbackResult;
use clipboard_master::ClipboardHandler;

struct Counter {
    changes: usize,
}

impl ClipboardHandler for Counter {
    fn on_clipboard_change(&mut self) -> CallbackResult {
        self.changes += 1;
        CallbackResult::Next
    }
}

#[test]
fn counter_sequence_fires_once_per_distinct_change() {
    let counts: Vec<i64> = vec![0, 0, 1, 1, 2];
    let events = counter_events(&counts);
    assert_eq!(events.len(), 4);
    assert!(matches!(events[0], WatchEvent::Idle));
    assert!(matches!(events[1], WatchEvent::Changed));
    assert!(matches!(events[2], WatchEvent::Idle));
    assert!(matches!(events[3], WatchEvent::Changed));
    let mut handler = Counter { changes: 0 };
    let out = run_events(&mut handler, events);
    assert!(matches!(out.status, DriveStatus::Exhausted));
    assert_eq!(out.changes, 2);
    assert_eq!(handler.changes, 2);
}

#[test]
fn baseline_reading_never_fires() {
    let counts: Vec<i64> = vec![7];
    let events = counter_events(&counts);
    assert_eq!(events.len(), 0);
}

#[test]
fn steady_counter_never_fires() {
    let counts: Vec<i64> = vec![3, 3, 3, 3];
    let events = counter_events(&counts);
    assert_eq!(events.len(), 3);
    assert!(events.iter().all(|e| matches!(e, WatchEvent::Idle)));
}

#[test]
fn counter_may_move_backwards_and_still_counts_as_change() {
    let counts: Vec<i64> = vec![5, 4, 4, 5];
    let events = counter_events(&counts);
    assert!(matches!(events[0], WatchEvent::Changed));
    assert!(matches!(events[1], WatchEvent::Idle));
    assert!(matches!(events[2], WatchEvent::Changed));
}
