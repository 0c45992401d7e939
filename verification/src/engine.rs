//! The watch-loop engine.
//!
//! Every backend of the watcher repeats the same decision pattern: obtain an
//! observation from the platform, hand it to the handler where the
//! observation calls for that, and act on the handler's signal. This module
//! states that pattern once, as a model over a sequence of observations
//! ([`drive_model`]), proves its laws, and provides a verified driver
//! ([`run_events`]) that replays a finite sequence of observations against a
//! real handler exactly as the model says.

use vstd::prelude::*;

use crate::CallbackResult;
use crate::ClipboardHandler;
use crate::error::WatchError;

verus! {

/// One observation delivered to the watch loop.
#[derive(Debug)]
pub enum WatchEvent {
    /// A clipboard change was detected.
    Changed,
    /// A wait ended with nothing to report; the loop keeps waiting.
    Idle,
    /// The platform could not observe the clipboard.
    Trouble(WatchError),
    /// A shutdown token delivered its signal.
    Shutdown,
    /// Every shutdown token is gone and the channel closed.
    Closed,
}

/// How a run of the loop over finitely many observations ended.
#[derive(Debug)]
pub enum DriveStatus {
    /// The loop returned, with the result the watcher would give its caller.
    Finished(Result<(), WatchError>),
    /// The observations ran out while the loop was still waiting.
    Exhausted,
}

/// The modelled outcome of a run: its status, how many observations it
/// consumed, and how often each callback was invoked.
pub struct ModelOutcome {
    pub status: DriveStatus,
    pub used: nat,
    pub changes: nat,
    pub errors: nat,
}

/// The meaning of the watch loop over a finite sequence of observations.
///
/// `chg` and `err` are the signals the handler returns from successive
/// `on_clipboard_change` and `on_clipboard_error` invocations. The loop:
/// keeps waiting on an idle observation; exits cleanly on a shutdown signal
/// or a closed channel; invokes `on_clipboard_change` exactly once per
/// detected change; routes each observation failure through
/// `on_clipboard_error`; and acts on the returned signal, where `Next`
/// resumes waiting, `Stop` returns success, and `StopWithError(e)` returns
/// that exact error.
pub open spec fn drive_model(
    events: Seq<WatchEvent>,
    chg: Seq<CallbackResult>,
    err: Seq<CallbackResult>,
) -> ModelOutcome
    decreases events.len(),
{
    if events.len() == 0 {
        ModelOutcome { status: DriveStatus::Exhausted, used: 0, changes: 0, errors: 0 }
    } else {
        match events[0] {
            WatchEvent::Idle => {
                let rest = drive_model(events.skip(1), chg, err);
                ModelOutcome {
                    status: rest.status,
                    used: rest.used + 1,
                    changes: rest.changes,
                    errors: rest.errors,
                }
            },
            WatchEvent::Shutdown => ModelOutcome {
                status: DriveStatus::Finished(Ok(())),
                used: 1,
                changes: 0,
                errors: 0,
            },
            WatchEvent::Closed => ModelOutcome {
                status: DriveStatus::Finished(Ok(())),
                used: 1,
                changes: 0,
                errors: 0,
            },
            WatchEvent::Changed => match chg[0] {
                CallbackResult::Next => {
                    let rest = drive_model(events.skip(1), chg.skip(1), err);
                    ModelOutcome {
                        status: rest.status,
                        used: rest.used + 1,
                        changes: rest.changes + 1,
                        errors: rest.errors,
                    }
                },
                CallbackResult::Stop => ModelOutcome {
                    status: DriveStatus::Finished(Ok(())),
                    used: 1,
                    changes: 1,
                    errors: 0,
                },
                CallbackResult::StopWithError(e) => ModelOutcome {
                    status: DriveStatus::Finished(Err(e)),
                    used: 1,
                    changes: 1,
                    errors: 0,
                },
            },
            WatchEvent::Trouble(_) => match err[0] {
                CallbackResult::Next => {
                    let rest = drive_model(events.skip(1), chg, err.skip(1));
                    ModelOutcome {
                        status: rest.status,
                        used: rest.used + 1,
                        changes: rest.changes,
                        errors: rest.errors + 1,
                    }
                },
                CallbackResult::Stop => ModelOutcome {
                    status: DriveStatus::Finished(Ok(())),
                    used: 1,
                    changes: 0,
                    errors: 1,
                },
                CallbackResult::StopWithError(e) => ModelOutcome {
                    status: DriveStatus::Finished(Err(e)),
                    used: 1,
                    changes: 0,
                    errors: 1,
                },
            },
        }
    }
}

/// Whether an observation ends the loop by itself, without the handler.
pub open spec fn is_terminator(ev: WatchEvent) -> bool {
    ev is Shutdown || ev is Closed
}

/// The number of detected changes in a sequence of observations.
pub open spec fn count_changed(events: Seq<WatchEvent>) -> nat
    decreases events.len(),
{
    if events.len() == 0 {
        0
    } else {
        (if events[0] is Changed {
            1nat
        } else {
            0nat
        }) + count_changed(events.skip(1))
    }
}

/// The number of observation failures in a sequence of observations.
pub open spec fn count_trouble(events: Seq<WatchEvent>) -> nat
    decreases events.len(),
{
    if events.len() == 0 {
        0
    } else {
        (if events[0] is Trouble {
            1nat
        } else {
            0nat
        }) + count_trouble(events.skip(1))
    }
}

/// Whether every signal in a sequence asks the loop to keep going.
pub open spec fn all_next(sigs: Seq<CallbackResult>) -> bool {
    forall|i: int| 0 <= i < sigs.len() ==> (#[trigger] sigs[i]) is Next
}

proof fn lemma_counts_cons(e: WatchEvent, s: Seq<WatchEvent>)
    ensures
        count_changed(seq![e] + s) == (if e is Changed {
            1nat
        } else {
            0nat
        }) + count_changed(s),
        count_trouble(seq![e] + s) == (if e is Trouble {
            1nat
        } else {
            0nat
        }) + count_trouble(s),
{
    assert((seq![e] + s).skip(1) =~= s);
}

/// Law: the loop invokes `on_clipboard_change` exactly once per detected
/// change among the observations it consumed, and `on_clipboard_error`
/// exactly once per observation failure among them — no invocation is
/// skipped, doubled, or made for any other observation.
pub proof fn lemma_one_invocation_per_change(
    events: Seq<WatchEvent>,
    chg: Seq<CallbackResult>,
    err: Seq<CallbackResult>,
)
    ensures
        drive_model(events, chg, err).used <= events.len(),
        drive_model(events, chg, err).changes == count_changed(
            events.take(drive_model(events, chg, err).used as int),
        ),
        drive_model(events, chg, err).errors == count_trouble(
            events.take(drive_model(events, chg, err).used as int),
        ),
    decreases events.len(),
{
    let m = drive_model(events, chg, err);
    if events.len() == 0 {
        assert(events.take(0) =~= Seq::<WatchEvent>::empty());
    } else {
        let head = events[0];
        let tail = events.skip(1);
        match head {
            WatchEvent::Idle => {
                lemma_one_invocation_per_change(tail, chg, err);
                let rest = drive_model(tail, chg, err);
                assert(events.take(rest.used as int + 1) =~= seq![head] + tail.take(rest.used as int));
                lemma_counts_cons(head, tail.take(rest.used as int));
            },
            WatchEvent::Shutdown => {
                assert(events.take(1) =~= seq![head] + Seq::<WatchEvent>::empty());
                lemma_counts_cons(head, Seq::<WatchEvent>::empty());
            },
            WatchEvent::Closed => {
                assert(events.take(1) =~= seq![head] + Seq::<WatchEvent>::empty());
                lemma_counts_cons(head, Seq::<WatchEvent>::empty());
            },
            WatchEvent::Changed => {
                match chg[0] {
                    CallbackResult::Next => {
                        lemma_one_invocation_per_change(tail, chg.skip(1), err);
                        let rest = drive_model(tail, chg.skip(1), err);
                        assert(events.take(rest.used as int + 1) =~= seq![head] + tail.take(
                            rest.used as int,
                        ));
                        lemma_counts_cons(head, tail.take(rest.used as int));
                    },
                    _ => {
                        assert(events.take(1) =~= seq![head] + Seq::<WatchEvent>::empty());
                        lemma_counts_cons(head, Seq::<WatchEvent>::empty());
                    },
                }
            },
            WatchEvent::Trouble(_) => {
                match err[0] {
                    CallbackResult::Next => {
                        lemma_one_invocation_per_change(tail, chg, err.skip(1));
                        let rest = drive_model(tail, chg, err.skip(1));
                        assert(events.take(rest.used as int + 1) =~= seq![head] + tail.take(
                            rest.used as int,
                        ));
                        lemma_counts_cons(head, tail.take(rest.used as int));
                    },
                    _ => {
                        assert(events.take(1) =~= seq![head] + Seq::<WatchEvent>::empty());
                        lemma_counts_cons(head, Seq::<WatchEvent>::empty());
                    },
                }
            },
        }
    }
}

/// Law: if the handler always answers `Next`, the loop never returns on its
/// own — it consumes every observation and is still waiting — as long as no
/// shutdown is signaled, no channel closes, and no observation fails.
pub proof fn lemma_continue_never_returns(
    events: Seq<WatchEvent>,
    chg: Seq<CallbackResult>,
    err: Seq<CallbackResult>,
)
    requires
        all_next(chg),
        chg.len() >= count_changed(events),
        forall|i: int|
            0 <= i < events.len() ==> !is_terminator(#[trigger] events[i]) && !(events[i]
                is Trouble),
    ensures
        drive_model(events, chg, err).status is Exhausted,
        drive_model(events, chg, err).used == events.len(),
    decreases events.len(),
{
    if events.len() > 0 {
        let head = events[0];
        let tail = events.skip(1);
        assert(forall|i: int|
            0 <= i < tail.len() ==> !is_terminator(#[trigger] tail[i]) && !(tail[i] is Trouble))
            by {
            assert(forall|i: int| 0 <= i < tail.len() ==> tail[i] == events[i + 1]);
        }
        match head {
            WatchEvent::Idle => {
                lemma_counts_cons(head, tail);
                assert(events =~= seq![head] + tail);
                lemma_continue_never_returns(tail, chg, err);
            },
            WatchEvent::Changed => {
                lemma_counts_cons(head, tail);
                assert(events =~= seq![head] + tail);
                assert(chg[0] is Next);
                assert(all_next(chg.skip(1))) by {
                    assert(forall|i: int|
                        0 <= i < chg.skip(1).len() ==> #[trigger] chg.skip(1)[i] == chg[i + 1]);
                }
                lemma_continue_never_returns(tail, chg.skip(1), err);
            },
            _ => {
                assert(false);
            },
        }
    }
}

/// Law: a handler that answers `Next` to every change and to every
/// observation failure keeps the loop alive through anything but a shutdown
/// signal or a closed channel.
pub proof fn lemma_resilient_handler_never_returns(
    events: Seq<WatchEvent>,
    chg: Seq<CallbackResult>,
    err: Seq<CallbackResult>,
)
    requires
        all_next(chg),
        all_next(err),
        chg.len() >= count_changed(events),
        err.len() >= count_trouble(events),
        forall|i: int| 0 <= i < events.len() ==> !is_terminator(#[trigger] events[i]),
    ensures
        drive_model(events, chg, err).status is Exhausted,
        drive_model(events, chg, err).used == events.len(),
    decreases events.len(),
{
    if events.len() > 0 {
        let head = events[0];
        let tail = events.skip(1);
        assert(forall|i: int| 0 <= i < tail.len() ==> #[trigger] tail[i] == events[i + 1]);
        lemma_counts_cons(head, tail);
        assert(events =~= seq![head] + tail);
        match head {
            WatchEvent::Idle => {
                lemma_resilient_handler_never_returns(tail, chg, err);
            },
            WatchEvent::Changed => {
                assert(chg[0] is Next);
                assert(all_next(chg.skip(1))) by {
                    assert(forall|i: int|
                        0 <= i < chg.skip(1).len() ==> #[trigger] chg.skip(1)[i] == chg[i + 1]);
                }
                lemma_resilient_handler_never_returns(tail, chg.skip(1), err);
            },
            WatchEvent::Trouble(_) => {
                assert(err[0] is Next);
                assert(all_next(err.skip(1))) by {
                    assert(forall|i: int|
                        0 <= i < err.skip(1).len() ==> #[trigger] err.skip(1)[i] == err[i + 1]);
                }
                lemma_resilient_handler_never_returns(tail, chg, err.skip(1));
            },
            _ => {
                assert(false);
            },
        }
    }
}

/// Whether the observations begin with `n` detected changes, possibly
/// interleaved with idle waits, before anything else happens.
pub open spec fn leads_to_nth_change(events: Seq<WatchEvent>, n: nat) -> bool
    decreases events.len(),
{
    if n == 0 {
        true
    } else if events.len() == 0 {
        false
    } else {
        match events[0] {
            WatchEvent::Changed => leads_to_nth_change(events.skip(1), (n - 1) as nat),
            WatchEvent::Idle => leads_to_nth_change(events.skip(1), n),
            _ => false,
        }
    }
}

/// Law: if the handler answers `Next` to the first `n - 1` changes and
/// `Stop` to the `n`th, and the observations deliver `n` changes before
/// anything else, the loop returns success after exactly `n` invocations of
/// `on_clipboard_change` and none of `on_clipboard_error`.
pub proof fn lemma_stop_on_nth_change(
    events: Seq<WatchEvent>,
    chg: Seq<CallbackResult>,
    err: Seq<CallbackResult>,
    n: nat,
)
    requires
        n >= 1,
        chg.len() >= n,
        leads_to_nth_change(events, n),
        forall|i: int| 0 <= i < n - 1 ==> (#[trigger] chg[i]) is Next,
        chg[n - 1] is Stop,
    ensures
        drive_model(events, chg, err).status == DriveStatus::Finished(Ok::<(), WatchError>(())),
        drive_model(events, chg, err).changes == n,
        drive_model(events, chg, err).errors == 0,
    decreases events.len(),
{
    let head = events[0];
    let tail = events.skip(1);
    match head {
        WatchEvent::Changed => {
            if n > 1 {
                assert(chg[0] is Next);
                assert(forall|i: int|
                    0 <= i < chg.skip(1).len() ==> #[trigger] chg.skip(1)[i] == chg[i + 1]);
                lemma_stop_on_nth_change(tail, chg.skip(1), err, (n - 1) as nat);
            }
        },
        WatchEvent::Idle => {
            lemma_stop_on_nth_change(tail, chg, err, n);
        },
        _ => {
            assert(false);
        },
    }
}

/// Law: if the handler answers `Next` to the first `n - 1` changes and
/// `StopWithError(e)` to the `n`th, and the observations deliver `n` changes
/// before anything else, the loop returns exactly `Err(e)` after exactly `n`
/// invocations of `on_clipboard_change`.
pub proof fn lemma_stop_with_error_on_nth_change(
    events: Seq<WatchEvent>,
    chg: Seq<CallbackResult>,
    err: Seq<CallbackResult>,
    n: nat,
    e: WatchError,
)
    requires
        n >= 1,
        chg.len() >= n,
        leads_to_nth_change(events, n),
        forall|i: int| 0 <= i < n - 1 ==> (#[trigger] chg[i]) is Next,
        chg[n - 1] == CallbackResult::StopWithError(e),
    ensures
        drive_model(events, chg, err).status == DriveStatus::Finished(Err::<(), WatchError>(e)),
        drive_model(events, chg, err).changes == n,
        drive_model(events, chg, err).errors == 0,
    decreases events.len(),
{
    let head = events[0];
    let tail = events.skip(1);
    match head {
        WatchEvent::Changed => {
            if n > 1 {
                assert(chg[0] is Next);
                assert(forall|i: int|
                    0 <= i < chg.skip(1).len() ==> #[trigger] chg.skip(1)[i] == chg[i + 1]);
                lemma_stop_with_error_on_nth_change(tail, chg.skip(1), err, (n - 1) as nat, e);
            }
        },
        WatchEvent::Idle => {
            lemma_stop_with_error_on_nth_change(tail, chg, err, n, e);
        },
        _ => {
            assert(false);
        },
    }
}

/// Law: once a shutdown signal (or a closed channel) is delivered after `k`
/// observations none of which stopped the loop, the loop returns success
/// having consumed exactly those `k + 1` observations: `on_clipboard_change`
/// is invoked for every change before the signal and never after it.
pub proof fn lemma_shutdown_stops_promptly(
    events: Seq<WatchEvent>,
    chg: Seq<CallbackResult>,
    err: Seq<CallbackResult>,
    k: int,
)
    requires
        0 <= k < events.len(),
        is_terminator(events[k]),
        forall|i: int| 0 <= i < k ==> !is_terminator(#[trigger] events[i]),
        all_next(chg),
        all_next(err),
        chg.len() >= count_changed(events.take(k)),
        err.len() >= count_trouble(events.take(k)),
    ensures
        drive_model(events, chg, err).status == DriveStatus::Finished(Ok::<(), WatchError>(())),
        drive_model(events, chg, err).used == k + 1,
        drive_model(events, chg, err).changes == count_changed(events.take(k)),
        drive_model(events, chg, err).errors == count_trouble(events.take(k)),
    decreases events.len(),
{
    let head = events[0];
    let tail = events.skip(1);
    if k == 0 {
        assert(events.take(0) =~= Seq::<WatchEvent>::empty());
    } else {
        assert(forall|i: int| 0 <= i < tail.len() ==> tail[i] == events[i + 1]);
        assert(events.take(k) =~= seq![head] + tail.take(k - 1));
        lemma_counts_cons(head, tail.take(k - 1));
        match head {
            WatchEvent::Idle => {
                lemma_shutdown_stops_promptly(tail, chg, err, k - 1);
            },
            WatchEvent::Changed => {
                assert(chg[0] is Next);
                assert(all_next(chg.skip(1))) by {
                    assert(forall|i: int|
                        0 <= i < chg.skip(1).len() ==> #[trigger] chg.skip(1)[i] == chg[i + 1]);
                }
                lemma_shutdown_stops_promptly(tail, chg.skip(1), err, k - 1);
            },
            WatchEvent::Trouble(_) => {
                assert(err[0] is Next);
                assert(all_next(err.skip(1))) by {
                    assert(forall|i: int|
                        0 <= i < err.skip(1).len() ==> #[trigger] err.skip(1)[i] == err[i + 1]);
                }
                lemma_shutdown_stops_promptly(tail, chg, err.skip(1), k - 1);
            },
            _ => {
                assert(false);
            },
        }
    }
}

/// Law: signaling shutdown more than once is harmless. Whatever is observed
/// after the first delivered shutdown signal — further signals included —
/// does not change the outcome of the loop at all.
pub proof fn lemma_shutdown_idempotent(
    events: Seq<WatchEvent>,
    chg: Seq<CallbackResult>,
    err: Seq<CallbackResult>,
    k: int,
)
    requires
        0 <= k < events.len(),
        is_terminator(events[k]),
        forall|i: int| 0 <= i < k ==> !is_terminator(#[trigger] events[i]),
    ensures
        drive_model(events, chg, err) == drive_model(events.take(k + 1), chg, err),
    decreases events.len(),
{
    let head = events[0];
    let tail = events.skip(1);
    let cut = events.take(k + 1);
    assert(cut[0] == head);
    assert(cut.skip(1) =~= tail.take(k));
    if k == 0 {
        assert(is_terminator(head));
    } else {
        assert(forall|i: int| 0 <= i < tail.len() ==> tail[i] == events[i + 1]);
        match head {
            WatchEvent::Idle => {
                lemma_shutdown_idempotent(tail, chg, err, k - 1);
            },
            WatchEvent::Changed => {
                match chg[0] {
                    CallbackResult::Next => {
                        lemma_shutdown_idempotent(tail, chg.skip(1), err, k - 1);
                    },
                    _ => {},
                }
            },
            WatchEvent::Trouble(_) => {
                match err[0] {
                    CallbackResult::Next => {
                        lemma_shutdown_idempotent(tail, chg, err.skip(1), k - 1);
                    },
                    _ => {},
                }
            },
            _ => {
                assert(false);
            },
        }
    }
}

/// Law: if the very first observation is a failure and the handler follows
/// the default policy of escalating it, the loop returns exactly that error
/// without ever invoking `on_clipboard_change`.
pub proof fn lemma_default_policy_escalates_first_failure(
    events: Seq<WatchEvent>,
    chg: Seq<CallbackResult>,
    err: Seq<CallbackResult>,
    e: WatchError,
)
    requires
        events.len() >= 1,
        events[0] == WatchEvent::Trouble(e),
        err.len() >= 1,
        err[0] == CallbackResult::StopWithError(e),
    ensures
        drive_model(events, chg, err).status == DriveStatus::Finished(Err::<(), WatchError>(e)),
        drive_model(events, chg, err).changes == 0,
        drive_model(events, chg, err).errors == 1,
        drive_model(events, chg, err).used == 1,
{
}

/// Whether the logged observations and signals were all processed without
/// stopping the loop: the model of any continuation picks up right after
/// them, with the counts shifted by what the logs already consumed.
///
/// A real loop maintains this of its history while it keeps going; one
/// final stopping step then turns the whole history into a finished model
/// run ([`lemma_logs_step_exit`]).
pub open spec fn logs_extend_model(
    events: Seq<WatchEvent>,
    chg: Seq<CallbackResult>,
    err: Seq<CallbackResult>,
) -> bool {
    forall|more: Seq<WatchEvent>, c: Seq<CallbackResult>, e: Seq<CallbackResult>|
        #[trigger] drive_model(events + more, chg + c, err + e) == (ModelOutcome {
            status: drive_model(more, c, e).status,
            used: events.len() + drive_model(more, c, e).used,
            changes: chg.len() + drive_model(more, c, e).changes,
            errors: err.len() + drive_model(more, c, e).errors,
        })
}

/// An empty history extends the model trivially.
pub proof fn lemma_logs_empty()
    ensures
        logs_extend_model(
            Seq::<WatchEvent>::empty(),
            Seq::<CallbackResult>::empty(),
            Seq::<CallbackResult>::empty(),
        ),
{
    assert forall|more: Seq<WatchEvent>, c: Seq<CallbackResult>, e: Seq<CallbackResult>|
        #[trigger] drive_model(
            Seq::<WatchEvent>::empty() + more,
            Seq::<CallbackResult>::empty() + c,
            Seq::<CallbackResult>::empty() + e,
        ) == (ModelOutcome {
            status: drive_model(more, c, e).status,
            used: 0 + drive_model(more, c, e).used,
            changes: 0 + drive_model(more, c, e).changes,
            errors: 0 + drive_model(more, c, e).errors,
        }) by {
        assert(Seq::<WatchEvent>::empty() + more =~= more);
        assert(Seq::<CallbackResult>::empty() + c =~= c);
        assert(Seq::<CallbackResult>::empty() + e =~= e);
    }
}

/// A step the loop survives extends its history: an idle wait, a change
/// answered `Next`, or an observation failure answered `Next`.
pub proof fn lemma_logs_step_continue(
    events: Seq<WatchEvent>,
    chg: Seq<CallbackResult>,
    err: Seq<CallbackResult>,
    ev: WatchEvent,
    cs: Seq<CallbackResult>,
    es: Seq<CallbackResult>,
)
    requires
        logs_extend_model(events, chg, err),
        (ev is Idle && cs == Seq::<CallbackResult>::empty() && es == Seq::<
            CallbackResult,
        >::empty()) || (ev is Changed && cs == seq![CallbackResult::Next] && es == Seq::<
            CallbackResult,
        >::empty()) || (ev is Trouble && cs == Seq::<CallbackResult>::empty() && es
            == seq![CallbackResult::Next]),
    ensures
        logs_extend_model(events + seq![ev], chg + cs, err + es),
{
    assert forall|more: Seq<WatchEvent>, c: Seq<CallbackResult>, e: Seq<CallbackResult>|
        #[trigger] drive_model((events + seq![ev]) + more, (chg + cs) + c, (err + es) + e)
            == (ModelOutcome {
            status: drive_model(more, c, e).status,
            used: (events + seq![ev]).len() + drive_model(more, c, e).used,
            changes: (chg + cs).len() + drive_model(more, c, e).changes,
            errors: (err + es).len() + drive_model(more, c, e).errors,
        }) by {
        assert((events + seq![ev]) + more =~= events + (seq![ev] + more));
        assert((chg + cs) + c =~= chg + (cs + c));
        assert((err + es) + e =~= err + (es + e));
        let m1 = drive_model(seq![ev] + more, cs + c, es + e);
        assert(drive_model(events + (seq![ev] + more), chg + (cs + c), err + (es + e))
            == (ModelOutcome {
            status: m1.status,
            used: events.len() + m1.used,
            changes: chg.len() + m1.changes,
            errors: err.len() + m1.errors,
        }));
        assert((seq![ev] + more).len() == 1 + more.len());
        assert((seq![ev] + more)[0] == ev);
        assert((seq![ev] + more).skip(1) =~= more);
        match ev {
            WatchEvent::Idle => {
                assert(cs + c =~= c);
                assert(es + e =~= e);
            },
            WatchEvent::Changed => {
                assert((cs + c)[0] == CallbackResult::Next);
                assert((cs + c).skip(1) =~= c);
                assert(es + e =~= e);
            },
            WatchEvent::Trouble(_) => {
                assert((es + e)[0] == CallbackResult::Next);
                assert((es + e).skip(1) =~= e);
                assert(cs + c =~= c);
            },
            _ => {
                assert(false);
            },
        }
    }
}

/// A step the loop stops at turns its history into a finished model run.
pub proof fn lemma_logs_step_exit(
    events: Seq<WatchEvent>,
    chg: Seq<CallbackResult>,
    err: Seq<CallbackResult>,
    ev: WatchEvent,
    cs: Seq<CallbackResult>,
    es: Seq<CallbackResult>,
    r: Result<(), WatchError>,
)
    requires
        logs_extend_model(events, chg, err),
        drive_model(seq![ev], cs, es) == (ModelOutcome {
            status: DriveStatus::Finished(r),
            used: 1,
            changes: cs.len(),
            errors: es.len(),
        }),
    ensures
        drive_model(events + seq![ev], chg + cs, err + es) == (ModelOutcome {
            status: DriveStatus::Finished(r),
            used: events.len() + 1,
            changes: chg.len() + cs.len(),
            errors: err.len() + es.len(),
        }),
{
    let m1 = drive_model(seq![ev], cs, es);
    assert(drive_model(events + seq![ev], chg + cs, err + es) == (ModelOutcome {
        status: m1.status,
        used: events.len() + m1.used,
        changes: chg.len() + m1.changes,
        errors: err.len() + m1.errors,
    }));
}

/// How the model treats a lone shutdown signal or channel closure.
pub proof fn lemma_step_terminator(ev: WatchEvent)
    requires
        is_terminator(ev),
    ensures
        drive_model(seq![ev], Seq::<CallbackResult>::empty(), Seq::<CallbackResult>::empty())
            == (ModelOutcome {
            status: DriveStatus::Finished(Ok::<(), WatchError>(())),
            used: 1,
            changes: 0,
            errors: 0,
        }),
{
}

/// How the model treats a lone detected change, by the handler's signal.
pub proof fn lemma_step_changed(sig: CallbackResult)
    ensures
        sig is Next ==> drive_model(
            seq![WatchEvent::Changed],
            seq![sig],
            Seq::<CallbackResult>::empty(),
        ) == (ModelOutcome { status: DriveStatus::Exhausted, used: 1, changes: 1, errors: 0 }),
        sig is Stop ==> drive_model(
            seq![WatchEvent::Changed],
            seq![sig],
            Seq::<CallbackResult>::empty(),
        ) == (ModelOutcome {
            status: DriveStatus::Finished(Ok::<(), WatchError>(())),
            used: 1,
            changes: 1,
            errors: 0,
        }),
        sig matches CallbackResult::StopWithError(e) ==> drive_model(
            seq![WatchEvent::Changed],
            seq![sig],
            Seq::<CallbackResult>::empty(),
        ) == (ModelOutcome {
            status: DriveStatus::Finished(Err::<(), WatchError>(e)),
            used: 1,
            changes: 1,
            errors: 0,
        }),
{
    assert(seq![WatchEvent::Changed].skip(1) =~= Seq::<WatchEvent>::empty());
    assert(seq![sig][0] == sig);
    assert(seq![sig].skip(1) =~= Seq::<CallbackResult>::empty());
    assert(drive_model(
        Seq::<WatchEvent>::empty(),
        Seq::<CallbackResult>::empty(),
        Seq::<CallbackResult>::empty(),
    ) == (ModelOutcome { status: DriveStatus::Exhausted, used: 0, changes: 0, errors: 0 }));
}

/// How the model treats a lone observation failure, by the handler's
/// signal.
pub proof fn lemma_step_trouble(failure: WatchError, sig: CallbackResult)
    ensures
        sig is Next ==> drive_model(
            seq![WatchEvent::Trouble(failure)],
            Seq::<CallbackResult>::empty(),
            seq![sig],
        ) == (ModelOutcome { status: DriveStatus::Exhausted, used: 1, changes: 0, errors: 1 }),
        sig is Stop ==> drive_model(
            seq![WatchEvent::Trouble(failure)],
            Seq::<CallbackResult>::empty(),
            seq![sig],
        ) == (ModelOutcome {
            status: DriveStatus::Finished(Ok::<(), WatchError>(())),
            used: 1,
            changes: 0,
            errors: 1,
        }),
        sig matches CallbackResult::StopWithError(e) ==> drive_model(
            seq![WatchEvent::Trouble(failure)],
            Seq::<CallbackResult>::empty(),
            seq![sig],
        ) == (ModelOutcome {
            status: DriveStatus::Finished(Err::<(), WatchError>(e)),
            used: 1,
            changes: 0,
            errors: 1,
        }),
{
    assert(seq![WatchEvent::Trouble(failure)].skip(1) =~= Seq::<WatchEvent>::empty());
    assert(seq![sig][0] == sig);
    assert(seq![sig].skip(1) =~= Seq::<CallbackResult>::empty());
    assert(drive_model(
        Seq::<WatchEvent>::empty(),
        Seq::<CallbackResult>::empty(),
        Seq::<CallbackResult>::empty(),
    ) == (ModelOutcome { status: DriveStatus::Exhausted, used: 0, changes: 0, errors: 0 }));
}

/// What [`run_events`] reports back: the status the loop ended with, the
/// number of observations consumed and callbacks invoked, and ghost logs of
/// the signals the handler actually returned, which tie the run to
/// [`drive_model`].
pub struct DriveOutcome {
    pub status: DriveStatus,
    pub used: usize,
    pub changes: usize,
    pub errors: usize,
    pub chg_log: Ghost<Seq<CallbackResult>>,
    pub err_log: Ghost<Seq<CallbackResult>>,
}

/// Replays a finite sequence of observations against a handler, taking for
/// each observation exactly the decision the watch loop takes.
///
/// The outcome equals [`drive_model`] applied to the observations and to the
/// signals the handler returned.
pub fn run_events<H: ClipboardHandler>(handler: &mut H, events: Vec<WatchEvent>) -> (out:
    DriveOutcome)
    ensures
        out.chg_log@.len() == out.changes,
        out.err_log@.len() == out.errors,
        out.used <= events@.len(),
        out.changes + out.errors <= out.used,
        drive_model(events@, out.chg_log@, out.err_log@) == (ModelOutcome {
            status: out.status,
            used: out.used as nat,
            changes: out.changes as nat,
            errors: out.errors as nat,
        }),
    decreases events@.len(),
{
    let ghost evs = events@;
    let mut events = events;
    if events.len() == 0 {
        return DriveOutcome {
            status: DriveStatus::Exhausted,
            used: 0,
            changes: 0,
            errors: 0,
            chg_log: Ghost(Seq::empty()),
            err_log: Ghost(Seq::empty()),
        };
    }
    let ev = events.remove(0);
    proof {
        assert(events@ =~= evs.skip(1));
    }
    match ev {
        WatchEvent::Idle => {
            let rest = run_events(handler, events);
            DriveOutcome {
                status: rest.status,
                used: rest.used + 1,
                changes: rest.changes,
                errors: rest.errors,
                chg_log: rest.chg_log,
                err_log: rest.err_log,
            }
        },
        WatchEvent::Shutdown => DriveOutcome {
            status: DriveStatus::Finished(Ok(())),
            used: 1,
            changes: 0,
            errors: 0,
            chg_log: Ghost(Seq::empty()),
            err_log: Ghost(Seq::empty()),
        },
        WatchEvent::Closed => DriveOutcome {
            status: DriveStatus::Finished(Ok(())),
            used: 1,
            changes: 0,
            errors: 0,
            chg_log: Ghost(Seq::empty()),
            err_log: Ghost(Seq::empty()),
        },
        WatchEvent::Changed => {
            match handler.on_clipboard_change() {
                CallbackResult::Next => {
                    let rest = run_events(handler, events);
                    let ghost chg = seq![CallbackResult::Next] + rest.chg_log@;
                    proof {
                        assert(chg.skip(1) =~= rest.chg_log@);
                    }
                    DriveOutcome {
                        status: rest.status,
                        used: rest.used + 1,
                        changes: rest.changes + 1,
                        errors: rest.errors,
                        chg_log: Ghost(chg),
                        err_log: rest.err_log,
                    }
                },
                CallbackResult::Stop => {
                    let ghost chg = seq![CallbackResult::Stop];
                    DriveOutcome {
                        status: DriveStatus::Finished(Ok(())),
                        used: 1,
                        changes: 1,
                        errors: 0,
                        chg_log: Ghost(chg),
                        err_log: Ghost(Seq::empty()),
                    }
                },
                CallbackResult::StopWithError(e) => {
                    let ghost chg = seq![CallbackResult::StopWithError(e)];
                    DriveOutcome {
                        status: DriveStatus::Finished(Err(e)),
                        used: 1,
                        changes: 1,
                        errors: 0,
                        chg_log: Ghost(chg),
                        err_log: Ghost(Seq::empty()),
                    }
                },
            }
        },
        WatchEvent::Trouble(e) => {
            match handler.on_clipboard_error(e) {
                CallbackResult::Next => {
                    let rest = run_events(handler, events);
                    let ghost err = seq![CallbackResult::Next] + rest.err_log@;
                    proof {
                        assert(err.skip(1) =~= rest.err_log@);
                    }
                    DriveOutcome {
                        status: rest.status,
                        used: rest.used + 1,
                        changes: rest.changes,
                        errors: rest.errors + 1,
                        chg_log: rest.chg_log,
                        err_log: Ghost(err),
                    }
                },
                CallbackResult::Stop => {
                    let ghost err = seq![CallbackResult::Stop];
                    DriveOutcome {
                        status: DriveStatus::Finished(Ok(())),
                        used: 1,
                        changes: 0,
                        errors: 1,
                        chg_log: Ghost(Seq::empty()),
                        err_log: Ghost(err),
                    }
                },
                CallbackResult::StopWithError(e2) => {
                    let ghost err = seq![CallbackResult::StopWithError(e2)];
                    DriveOutcome {
                        status: DriveStatus::Finished(Err(e2)),
                        used: 1,
                        changes: 0,
                        errors: 1,
                        chg_log: Ghost(Seq::empty()),
                        err_log: Ghost(err),
                    }
                },
            }
        },
    }
}

} // verus!
