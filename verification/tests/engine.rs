use clipboard_master::engine::DriveStatus;
use clipboard_master::engine::WatchEvent;
use clipboard_master::engine::run_events;
use clipboard_master::CallbackResult;
use clipboard_master::ClipboardHandler;
use clipboard_master::WatchError;

/// Counts invocations; stops with the configured signal on the `stop_at`th
/// change, keeps going on everything else.
struct CountingHandler {
    changes: usize,
    errors: usize,
    stop_at: usize,
    stop_error: Option<String>,
}

impl CountingHandler {
    fn keep_going() -> CountingHandler {
        CountingHandler { changes: 0, errors: 0, stop_at: usize::MAX, stop_error: None }
    }
}

impl ClipboardHandler for CountingHandler {
    fn on_clipboard_change(&mut self) -> CallbackResult {
        self.changes += 1;
        if self.changes == self.stop_at {
            match &self.stop_error {
                Some(detail) => {
                    CallbackResult::StopWithError(WatchError::new(detail.clone()))
                }
                None => CallbackResult::Stop,
            }
        } else {
            CallbackResult::Next
        }
    }

    fn on_clipboard_error(&mut self, _error: WatchError) -> CallbackResult {
        self.errors += 1;
        CallbackResult::Next
    }
}

/// A handler that keeps the default error policy: escalate.
struct DefaultPolicyHandler {
    changes: usize,
}

impl ClipboardHandler for DefaultPolicyHandler {
    fn on_clipboard_change(&mut self) -> CallbackResult {
        self.changes += 1;
        CallbackResult::Next
    }
}

#[test]
fn change_invoked_once_per_change_and_loop_keeps_waiting() {
    let mut handler = CountingHandler::keep_going();
    let events = vec![
        WatchEvent::Idle,
        WatchEvent::Changed,
        WatchEvent::Idle,
        WatchEvent::Changed,
        WatchEvent::Idle,
    ];
    let out = run_events(&mut handler, events);
    assert!(matches!(out.status, DriveStatus::Exhausted));
    assert_eq!(out.used, 5);
    assert_eq!(out.changes, 2);
    assert_eq!(out.errors, 0);
    assert_eq!(handler.changes, 2);
    assert_eq!(handler.errors, 0);
}

#[test]
fn stop_on_nth_change_returns_success_after_n_invocations() {
    let mut handler = CountingHandler::keep_going();
    handler.stop_at = 2;
    let events = vec![
        WatchEvent::Changed,
        WatchEvent::Idle,
        WatchEvent::Changed,
        WatchEvent::Changed,
    ];
    let out = run_events(&mut handler, events);
    assert!(matches!(out.status, DriveStatus::Finished(Ok(()))));
    assert_eq!(out.changes, 2);
    assert_eq!(handler.changes, 2);
    assert_eq!(out.used, 3);
}

#[test]
fn stop_with_error_on_nth_change_propagates_that_error() {
    let mut handler = CountingHandler::keep_going();
    handler.stop_at = 2;
    handler.stop_error = Some(String::from("had enough"));
    let events = vec![WatchEvent::Changed, WatchEvent::Changed, WatchEvent::Changed];
    let out = run_events(&mut handler, events);
    match out.status {
        DriveStatus::Finished(Err(e)) => assert_eq!(e.detail, "had enough"),
        other => panic!("unexpected status: {:?}", other),
    }
    assert_eq!(out.changes, 2);
    assert_eq!(handler.changes, 2);
}

#[test]
fn shutdown_exits_cleanly_and_stops_invocations() {
    let mut handler = CountingHandler::keep_going();
    let events = vec![
        WatchEvent::Changed,
        WatchEvent::Shutdown,
        WatchEvent::Changed,
        WatchEvent::Shutdown,
        WatchEvent::Changed,
    ];
    let out = run_events(&mut handler, events);
    assert!(matches!(out.status, DriveStatus::Finished(Ok(()))));
    assert_eq!(out.used, 2);
    assert_eq!(out.changes, 1);
    assert_eq!(handler.changes, 1);
}

#[test]
fn closed_channel_exits_cleanly() {
    let mut handler = CountingHandler::keep_going();
    let events = vec![WatchEvent::Idle, WatchEvent::Closed, WatchEvent::Changed];
    let out = run_events(&mut handler, events);
    assert!(matches!(out.status, DriveStatus::Finished(Ok(()))));
    assert_eq!(out.used, 2);
    assert_eq!(out.changes, 0);
}

#[test]
fn default_policy_escalates_first_observation_error() {
    let mut handler = DefaultPolicyHandler { changes: 0 };
    let events = vec![
        WatchEvent::Trouble(WatchError::new(String::from("transient failure"))),
        WatchEvent::Changed,
    ];
    let out = run_events(&mut handler, events);
    match out.status {
        DriveStatus::Finished(Err(e)) => assert_eq!(e.detail, "transient failure"),
        other => panic!("unexpected status: {:?}", other),
    }
    assert_eq!(out.changes, 0);
    assert_eq!(out.errors, 1);
    assert_eq!(handler.changes, 0);
}

#[test]
fn resilient_handler_survives_observation_error() {
    let mut handler = CountingHandler::keep_going();
    let events = vec![
        WatchEvent::Trouble(WatchError::new(String::from("transient failure"))),
        WatchEvent::Changed,
    ];
    let out = run_events(&mut handler, events);
    assert!(matches!(out.status, DriveStatus::Exhausted));
    assert_eq!(out.errors, 1);
    assert_eq!(out.changes, 1);
    assert_eq!(handler.errors, 1);
    assert_eq!(handler.changes, 1);
}

#[test]
fn no_events_no_invocations() {
    let mut handler = CountingHandler::keep_going();
    let out = run_events(&mut handler, Vec::new());
    assert!(matches!(out.status, DriveStatus::Exhausted));
    assert_eq!(out.used, 0);
    assert_eq!(out.changes, 0);
    assert_eq!(out.errors, 0);
}
