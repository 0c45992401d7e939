use clipboard_master::chan::WaitOutcome;
use clipboard_master::master::apply_signal;
use clipboard_master::master::apply_wait;
use clipboard_master::master::merge_cleanup;
use clipboard_master::master::Phase;
use clipboard_master::master::Step;
use clipboard_master::CallbackResult;
use clipboard_master::ClipboardHandler;
use clipboard_master::Master;
use clipboard_master::WatchError;

struct Quiet;

impl ClipboardHandler for Quiet {
    fn on_clipboard_change(&mut self) -> CallbackResult {
        CallbackResult::Next
    }
}

#[test]
fn master_is_constructed_without_running() {
    let master = Master::new(Quiet).expect("construction succeeds");
    drop(master);
}

#[test]
fn signaling_after_the_watcher_is_gone_is_harmless() {
    let master = Master::new(Quiet).expect("construction succeeds");
    let first = master.shutdown_channel();
    let second = master.shutdown_channel();
    drop(master);
    first.signal();
    second.signal();
}

#[test]
fn run_without_a_display_reports_a_construction_failure() {
    let mut master = Master::new(Quiet).expect("construction succeeds");
    let report = master.run();
    assert!(!report.engaged, "construction failures never engage the loop");
    assert_eq!(report.changes, 0);
    assert_eq!(report.errors, 0);
    let error = report.result.expect_err("no display is available here");
    assert!(error.detail.starts_with("Failed to initialize clipboard"));
}

#[test]
fn freshness_compares_against_the_armed_sequence_number() {
    assert!(clipboard_master::master::fresh_event(Some(7), 7));
    assert!(clipboard_master::master::fresh_event(Some(8), 7));
    assert!(!clipboard_master::master::fresh_event(Some(6), 7));
    assert!(!clipboard_master::master::fresh_event(None, 7));
}

#[test]
fn signals_drive_the_loop_decision() {
    assert!(matches!(
        apply_signal(CallbackResult::Next, Phase::Rest),
        Step::Go(Phase::Rest)
    ));
    assert!(matches!(
        apply_signal(CallbackResult::Stop, Phase::Arm),
        Step::Exit(Ok(()))
    ));
    let e = WatchError::new(String::from("abort"));
    match apply_signal(CallbackResult::StopWithError(e), Phase::Arm) {
        Step::Exit(Err(err)) => assert_eq!(err.detail, "abort"),
        other => panic!("unexpected step: {:?}", other),
    }
}

#[test]
fn waits_drive_the_loop_decision() {
    assert!(matches!(
        apply_wait(WaitOutcome::Nothing, Phase::Poll(7)),
        Step::Go(Phase::Poll(7))
    ));
    assert!(matches!(apply_wait(WaitOutcome::Delivered, Phase::Arm), Step::Exit(Ok(()))));
    assert!(matches!(apply_wait(WaitOutcome::Closed, Phase::Arm), Step::Exit(Ok(()))));
}

#[test]
fn cleanup_error_only_fills_an_empty_outcome() {
    let cleanup_failed: Result<(), WatchError> =
        Err(WatchError::new(String::from("cleanup failed")));
    assert_eq!(merge_cleanup(Ok(()), Ok(())), Ok(()));
    assert_eq!(
        merge_cleanup(Ok(()), cleanup_failed.clone()),
        cleanup_failed
    );
    let earlier: Result<(), WatchError> = Err(WatchError::new(String::from("earlier")));
    assert_eq!(merge_cleanup(earlier.clone(), cleanup_failed), earlier);
    assert_eq!(merge_cleanup(earlier.clone(), Ok(())), earlier);
}

#[test]
fn watch_error_keeps_its_detail() {
    let e = WatchError::new(String::from("why it failed"));
    assert_eq!(e.detail, "why it failed");
}
