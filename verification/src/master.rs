//! The clipboard master: the X11 watcher and its shutdown tokens.
//!
//! [`Master::run`] blocks the calling thread and repeats one cycle: re-arm
//! selection-ownership notifications for the clipboard, wait for an event at
//! least as new as the registration, hand the detected change (or the
//! failure to observe one) to the handler, reset the scratch property, and
//! rest once before re-arming. Registrations are re-armed every cycle
//! because window and client lifecycle events can silently drop them.
//!
//! Each decision the loop takes stands in a verified function with an exact
//! contract ([`apply_signal`], [`apply_wait`], [`fresh_event`],
//! [`merge_cleanup`]), the calls into the X libraries stand behind the
//! trusted wrappers of this crate, and the run as a whole is tied to the
//! loop model: [`Master::run`] returns, beside its result, ghost histories
//! of the observations consumed and the signals the handler returned, and
//! its contract states that [`crate::engine::drive_model`] of those
//! histories ends with exactly the returned result.

use vstd::prelude::*;

use std::sync::mpsc::Receiver;
use std::sync::mpsc::SyncSender;

use crate::CallbackResult;
use crate::ClipboardHandler;
use crate::chan;
use crate::chan::WaitOutcome;
use crate::engine;
use crate::engine::DriveStatus;
use crate::engine::ModelOutcome;
use crate::engine::WatchEvent;
use crate::engine::drive_model;
use crate::engine::logs_extend_model;
use crate::error::WatchError;
use crate::x11;

verus! {

/// Shutdown channel.
///
/// Dropping it — or calling [`Shutdown::signal`], which is the same —
/// requests shutdown, to gracefully close the clipboard listener as soon as
/// possible: within one sleep interval of the watcher.
pub struct Shutdown {
    sender: SyncSender<()>,
}

impl Shutdown {
    /// The sender this token signals through, for contracts.
    pub closed spec fn sender_view(&self) -> SyncSender<()> {
        self.sender
    }

    /// Signals shutdown by consuming the token: its drop hook delivers the
    /// signal.
    ///
    /// Delivery blocks until the watcher takes the signal, and does nothing
    /// once the watcher is gone. Signaling twice, or from several tokens,
    /// is harmless: the watcher exits on the first delivered signal and the
    /// rest go nowhere.
    pub fn signal(self) {
    }
}

impl Drop for Shutdown {
    /// Relies on SyncSender::send, through [`chan::send_signal`]: a token
    /// going out of scope delivers one shutdown signal, and the send's
    /// failure once the watcher is gone is ignored.
    #[verifier::external_body]
    fn drop(&mut self)
        opens_invariants none
        no_unwind
    {
        let _delivered = chan::send_signal(&self.sender);
    }
}

/// Where the watch loop stands between two steps.
#[derive(Debug)]
pub enum Phase {
    /// Register selection-ownership interest anew.
    Arm,
    /// Wait for an event at least as new as the recorded sequence number.
    Poll(u64),
    /// Delete the scratch property to reset state for the next cycle.
    Cleanup,
    /// Wait once for shutdown before re-arming, so an idle watcher can be
    /// cancelled.
    Rest,
}

/// What one step of the watch loop decided.
#[derive(Debug)]
pub enum Step {
    /// Go on in the given phase.
    Go(Phase),
    /// Leave the loop with this result.
    Exit(Result<(), WatchError>),
}

/// Acts on a handler's signal: `Next` proceeds to the given phase, `Stop`
/// leaves the loop cleanly, and `StopWithError` leaves it with exactly the
/// error the handler supplied.
pub fn apply_signal(sig: CallbackResult, next: Phase) -> (s: Step)
    ensures
        sig is Next ==> s == Step::Go(next),
        sig is Stop ==> s == Step::Exit(Ok::<(), WatchError>(())),
        sig matches CallbackResult::StopWithError(e) ==> s == Step::Exit(
            Err::<(), WatchError>(e),
        ),
{
    match sig {
        CallbackResult::Next => Step::Go(next),
        CallbackResult::Stop => Step::Exit(Ok(())),
        CallbackResult::StopWithError(e) => Step::Exit(Err(e)),
    }
}

/// Acts on the outcome of a wait on the shutdown channel: a delivered
/// signal or a closed channel leaves the loop cleanly, a lapsed wait
/// proceeds to the given phase.
pub fn apply_wait(w: WaitOutcome, next: Phase) -> (s: Step)
    ensures
        w is Delivered ==> s == Step::Exit(Ok::<(), WatchError>(())),
        w is Nothing ==> s == Step::Go(next),
        w is Closed ==> s == Step::Exit(Ok::<(), WatchError>(())),
{
    match w {
        WaitOutcome::Delivered => Step::Exit(Ok(())),
        WaitOutcome::Nothing => Step::Go(next),
        WaitOutcome::Closed => Step::Exit(Ok(())),
    }
}

/// Decides whether a queued event reports a change: it must be at least as
/// new as the sequence number recorded when the registration was armed.
pub fn fresh_event(queued: Option<u64>, armed: u64) -> (fresh: bool)
    ensures
        fresh == (queued matches Some(got) && got >= armed),
{
    match queued {
        Some(got) => got >= armed,
        None => false,
    }
}

/// The final result of a run: a teardown failure is reported only when no
/// earlier error already determined the outcome, and an earlier error is
/// never displaced.
pub open spec fn merged(
    result: Result<(), WatchError>,
    cleanup: Result<(), WatchError>,
) -> Result<(), WatchError> {
    if result is Err {
        result
    } else {
        cleanup
    }
}

/// Folds a teardown failure into the final result, as [`merged`] says.
pub fn merge_cleanup(result: Result<(), WatchError>, cleanup: Result<(), WatchError>) -> (r: Result<
    (),
    WatchError,
>)
    ensures
        r == merged(result, cleanup),
        result matches Err(e) ==> r == Err::<(), WatchError>(e),
        result is Ok ==> r == cleanup,
{
    match result {
        Err(e) => Err(e),
        Ok(()) => cleanup,
    }
}

/// Routes an observation failure through the handler and acts on its
/// signal; also reports, as a ghost value, which signal the handler
/// returned.
fn error_step<H: ClipboardHandler>(handler: &mut H, error: WatchError, next: Phase) -> (out: (
    Step,
    Ghost<CallbackResult>,
))
    ensures
        out.1@ is Next ==> out.0 == Step::Go(next),
        out.1@ is Stop ==> out.0 == Step::Exit(Ok::<(), WatchError>(())),
        out.1@ matches CallbackResult::StopWithError(e) ==> out.0 == Step::Exit(
            Err::<(), WatchError>(e),
        ),
{
    let sig = handler.on_clipboard_error(error);
    let ghost gsig = sig;
    (apply_signal(sig, next), Ghost(gsig))
}

/// What [`Master::run`] reports: the result for the caller, observable
/// callback counts, and ghost histories that tie the run to the loop model
/// of [`crate::engine`].
pub struct RunReport {
    /// The result the run ends with.
    pub result: Result<(), WatchError>,
    /// Whether the backend was set up at all: `false` when construction
    /// failed before the loop started, in which case no callback was ever
    /// invoked.
    pub engaged: bool,
    /// How often `on_clipboard_change` was invoked.
    pub changes: u64,
    /// How often `on_clipboard_error` was invoked.
    pub errors: u64,
    /// The observations the loop consumed, in order.
    pub events: Ghost<Seq<WatchEvent>>,
    /// The signals `on_clipboard_change` returned, in order.
    pub chg_log: Ghost<Seq<CallbackResult>>,
    /// The signals `on_clipboard_error` returned, in order.
    pub err_log: Ghost<Seq<CallbackResult>>,
    /// The loop's own result, before teardown.
    pub loop_result: Ghost<Result<(), WatchError>>,
    /// The teardown's result.
    pub cleanup: Ghost<Result<(), WatchError>>,
    /// Whether the iteration budget lapsed while the loop was still
    /// waiting; never in any real session.
    pub lapsed: Ghost<bool>,
}

/// Clipboard master.
///
/// Tracks changes of the clipboard and invokes the handler's callbacks.
/// Exactly one `run` may execute at a time; the watcher owns its platform
/// resources for the whole run.
pub struct Master<H> {
    handler: H,
    sender: SyncSender<()>,
    recv: Receiver<()>,
}

impl<H: ClipboardHandler> Master<H> {
    /// The handler this watcher owns, for contracts.
    pub closed spec fn handler_view(&self) -> H {
        self.handler
    }

    /// The sender of this watcher's shutdown channel, for contracts.
    pub closed spec fn sender_view(&self) -> SyncSender<()> {
        self.sender
    }

    /// Creates a new instance owning the given handler. Nothing runs until
    /// [`Master::run`].
    pub fn new(handler: H) -> (r: Result<Master<H>, WatchError>)
        ensures
            r is Ok,
            r matches Ok(m) ==> m.handler_view() == handler,
    {
        let (sender, recv) = chan::rendezvous_channel();
        Ok(Master { handler, sender, recv })
    }

    /// Creates a shutdown channel bound to this watcher: the token signals
    /// through this watcher's own sender.
    ///
    /// Any number of tokens may be created; each can signal independently
    /// from any thread.
    pub fn shutdown_channel(&self) -> (r: Shutdown)
        ensures
            r.sender_view() == self.sender_view(),
    {
        Shutdown { sender: chan::clone_sender(&self.sender) }
    }

    /// Starts the master: blocks until the handler signals stop, shutdown
    /// is requested, or an observation error is escalated.
    ///
    /// Construction failures — no usable display, no XFIXES 5.0 — make the
    /// run end unengaged: the result is the error, and the empty histories
    /// say that no callback was invoked. An engaged run takes, for every
    /// observation, exactly the decision of [`drive_model`]: the model of
    /// the reported histories ends as `Finished` with the loop's result,
    /// with one `on_clipboard_change` invocation per detected change and
    /// one `on_clipboard_error` invocation per observation failure.
    /// Teardown deletes the scratch property unconditionally, and its
    /// failure is folded into the final result as [`merged`] says.
    ///
    /// Verus asks every loop to terminate, so the loop carries an iteration
    /// budget; it is far beyond what any real session can spend, and when
    /// it lapses — reported as `lapsed`, with the model still waiting — the
    /// loop ends as on a delivered shutdown signal.
    pub fn run(&mut self) -> (out: RunReport)
        ensures
            out.chg_log@.len() == out.changes,
            out.err_log@.len() == out.errors,
            !out.engaged ==> out.result is Err && out.events@ == Seq::<WatchEvent>::empty()
                && out.changes == 0 && out.errors == 0,
            out.engaged && !out.lapsed@ ==> drive_model(out.events@, out.chg_log@, out.err_log@)
                == (ModelOutcome {
                status: DriveStatus::Finished(out.loop_result@),
                used: out.events@.len(),
                changes: out.changes as nat,
                errors: out.errors as nat,
            }),
            out.engaged && out.lapsed@ ==> drive_model(out.events@, out.chg_log@, out.err_log@)
                == (ModelOutcome {
                status: DriveStatus::Exhausted,
                used: out.events@.len(),
                changes: out.changes as nat,
                errors: out.errors as nat,
            }) && out.loop_result@ == Ok::<(), WatchError>(()),
            out.engaged ==> out.result == merged(out.loop_result@, out.cleanup@),
    {
        let clipboard = match x11::open_clipboard() {
            Ok(clipboard) => clipboard,
            Err(e) => {
                return unengaged_report(e);
            },
        };
        if let Err(e) = x11::negotiate_xfixes(&clipboard) {
            return unengaged_report(e);
        }
        let mut phase = Phase::Arm;
        let mut outcome: Result<(), WatchError> = Ok(());
        let mut changes: u64 = 0;
        let mut errors: u64 = 0;
        let ghost mut events: Seq<WatchEvent> = Seq::empty();
        let ghost mut chg_log: Seq<CallbackResult> = Seq::empty();
        let ghost mut err_log: Seq<CallbackResult> = Seq::empty();
        let ghost mut finished: bool = false;
        let mut budget: u64 = u64::MAX;
        proof {
            engine::lemma_logs_empty();
        }
        loop
            invariant_except_break
                logs_extend_model(events, chg_log, err_log),
                chg_log.len() == changes,
                err_log.len() == errors,
                events.len() == u64::MAX - budget,
                chg_log.len() + err_log.len() <= events.len(),
                !finished,
                outcome == Ok::<(), WatchError>(()),
            ensures
                chg_log.len() == changes,
                err_log.len() == errors,
                finished ==> drive_model(events, chg_log, err_log) == (ModelOutcome {
                    status: DriveStatus::Finished(outcome),
                    used: events.len(),
                    changes: changes as nat,
                    errors: errors as nat,
                }),
                !finished ==> logs_extend_model(events, chg_log, err_log) && outcome == Ok::<
                    (),
                    WatchError,
                >(()),
            decreases budget,
        {
            if budget == 0 {
                break;
            }
            budget = budget - 1;
            let ghost pre_events = events;
            let ghost pre_chg = chg_log;
            let ghost pre_err = err_log;
            let step = match phase {
                Phase::Arm => {
                    let armed = match x11::root_window(&clipboard) {
                        Some(root) => {
                            match x11::clear_selections(&clipboard, root) {
                                Ok(()) => x11::watch_clipboard_selection(&clipboard, root),
                                Err(e) => Err(e),
                            }
                        },
                        None => Err(
                            WatchError::new(String::from_str("Screen is not available")),
                        ),
                    };
                    match armed {
                        Ok(armed_seq) => {
                            proof {
                                events = events + seq![WatchEvent::Idle];
                                engine::lemma_logs_step_continue(
                                    pre_events,
                                    pre_chg,
                                    pre_err,
                                    WatchEvent::Idle,
                                    Seq::empty(),
                                    Seq::empty(),
                                );
                            }
                            Step::Go(Phase::Poll(armed_seq))
                        },
                        Err(e) => {
                            let ghost failure = e;
                            let (step, gsig) = error_step(&mut self.handler, e, Phase::Arm);
                            errors = errors + 1;
                            proof {
                                events = events + seq![WatchEvent::Trouble(failure)];
                                err_log = err_log + seq![gsig@];
                                trouble_step_model(pre_events, pre_chg, pre_err, failure, gsig@);
                            }
                            step
                        },
                    }
                },
                Phase::Poll(armed_seq) => {
                    match x11::poll_event(&clipboard) {
                        Ok(queued) => {
                            if fresh_event(queued, armed_seq) {
                                let sig = self.handler.on_clipboard_change();
                                let ghost gsig = sig;
                                changes = changes + 1;
                                let step = apply_signal(sig, Phase::Cleanup);
                                proof {
                                    events = events + seq![WatchEvent::Changed];
                                    chg_log = chg_log + seq![gsig];
                                    change_step_model(pre_events, pre_chg, pre_err, gsig);
                                }
                                step
                            } else {
                                let interval = self.handler.sleep_interval();
                                let w = chan::wait_for_signal(&self.recv, interval);
                                let ghost gw = w;
                                let step = apply_wait(w, Phase::Poll(armed_seq));
                                proof {
                                    wait_step_model(pre_events, pre_chg, pre_err, gw);
                                    events = events + seq![wait_event(gw)];
                                }
                                step
                            }
                        },
                        Err(e) => {
                            let ghost failure = e;
                            let (step, gsig) = error_step(&mut self.handler, e, Phase::Cleanup);
                            errors = errors + 1;
                            proof {
                                events = events + seq![WatchEvent::Trouble(failure)];
                                err_log = err_log + seq![gsig@];
                                trouble_step_model(pre_events, pre_chg, pre_err, failure, gsig@);
                            }
                            step
                        },
                    }
                },
                Phase::Cleanup => {
                    match x11::delete_scratch_property(&clipboard) {
                        Ok(()) => {
                            proof {
                                events = events + seq![WatchEvent::Idle];
                                engine::lemma_logs_step_continue(
                                    pre_events,
                                    pre_chg,
                                    pre_err,
                                    WatchEvent::Idle,
                                    Seq::empty(),
                                    Seq::empty(),
                                );
                            }
                            Step::Go(Phase::Rest)
                        },
                        Err(e) => {
                            let ghost failure = e;
                            let (step, gsig) = error_step(&mut self.handler, e, Phase::Rest);
                            errors = errors + 1;
                            proof {
                                events = events + seq![WatchEvent::Trouble(failure)];
                                err_log = err_log + seq![gsig@];
                                trouble_step_model(pre_events, pre_chg, pre_err, failure, gsig@);
                            }
                            step
                        },
                    }
                },
                Phase::Rest => {
                    let interval = self.handler.sleep_interval();
                    let w = chan::wait_for_signal(&self.recv, interval);
                    let ghost gw = w;
                    let step = apply_wait(w, Phase::Arm);
                    proof {
                        wait_step_model(pre_events, pre_chg, pre_err, gw);
                        events = events + seq![wait_event(gw)];
                    }
                    step
                },
            };
            match step {
                Step::Go(next) => {
                    phase = next;
                },
                Step::Exit(r) => {
                    outcome = r;
                    proof {
                        finished = true;
                    }
                    break;
                },
            }
        }
        let ghost lapsed = !finished;
        proof {
            if !finished {
                lapse_model(events, chg_log, err_log);
            }
        }
        let ghost gloop = outcome;
        let cleanup = x11::delete_scratch_property(&clipboard);
        let ghost gcleanup = cleanup;
        let result = merge_cleanup(outcome, cleanup);
        RunReport {
            result,
            engaged: true,
            changes,
            errors,
            events: Ghost(events),
            chg_log: Ghost(chg_log),
            err_log: Ghost(err_log),
            loop_result: Ghost(gloop),
            cleanup: Ghost(gcleanup),
            lapsed: Ghost(lapsed),
        }
    }
}

/// The report of a run whose backend could not be set up: the error goes to
/// the caller, and no callback was invoked.
fn unengaged_report(e: WatchError) -> (out: RunReport)
    ensures
        out.result == Err::<(), WatchError>(e),
        !out.engaged,
        out.changes == 0 && out.errors == 0,
        out.events@ == Seq::<WatchEvent>::empty(),
        out.chg_log@ == Seq::<CallbackResult>::empty(),
        out.err_log@ == Seq::<CallbackResult>::empty(),
{
    RunReport {
        result: Err(e),
        engaged: false,
        changes: 0,
        errors: 0,
        events: Ghost(Seq::empty()),
        chg_log: Ghost(Seq::empty()),
        err_log: Ghost(Seq::empty()),
        loop_result: Ghost(Ok(())),
        cleanup: Ghost(Ok(())),
        lapsed: Ghost(false),
    }
}

/// Extends a run's history by one detected change answered with `sig`.
proof fn change_step_model(
    events: Seq<WatchEvent>,
    chg: Seq<CallbackResult>,
    err: Seq<CallbackResult>,
    sig: CallbackResult,
)
    requires
        logs_extend_model(events, chg, err),
    ensures
        sig is Next ==> logs_extend_model(events + seq![WatchEvent::Changed], chg + seq![sig], err),
        sig is Stop ==> drive_model(events + seq![WatchEvent::Changed], chg + seq![sig], err)
            == (ModelOutcome {
            status: DriveStatus::Finished(Ok::<(), WatchError>(())),
            used: events.len() + 1,
            changes: chg.len() + 1,
            errors: err.len(),
        }),
        sig matches CallbackResult::StopWithError(e) ==> drive_model(
            events + seq![WatchEvent::Changed],
            chg + seq![sig],
            err,
        ) == (ModelOutcome {
            status: DriveStatus::Finished(Err::<(), WatchError>(e)),
            used: events.len() + 1,
            changes: chg.len() + 1,
            errors: err.len(),
        }),
{
    engine::lemma_step_changed(sig);
    assert(err + Seq::<CallbackResult>::empty() =~= err);
    match sig {
        CallbackResult::Next => {
            engine::lemma_logs_step_continue(
                events,
                chg,
                err,
                WatchEvent::Changed,
                seq![sig],
                Seq::empty(),
            );
        },
        CallbackResult::Stop => {
            engine::lemma_logs_step_exit(
                events,
                chg,
                err,
                WatchEvent::Changed,
                seq![sig],
                Seq::empty(),
                Ok(()),
            );
        },
        CallbackResult::StopWithError(e) => {
            engine::lemma_logs_step_exit(
                events,
                chg,
                err,
                WatchEvent::Changed,
                seq![sig],
                Seq::empty(),
                Err(e),
            );
        },
    }
}

/// Extends a run's history by one observation failure answered with `sig`.
proof fn trouble_step_model(
    events: Seq<WatchEvent>,
    chg: Seq<CallbackResult>,
    err: Seq<CallbackResult>,
    failure: WatchError,
    sig: CallbackResult,
)
    requires
        logs_extend_model(events, chg, err),
    ensures
        sig is Next ==> logs_extend_model(
            events + seq![WatchEvent::Trouble(failure)],
            chg,
            err + seq![sig],
        ),
        sig is Stop ==> drive_model(
            events + seq![WatchEvent::Trouble(failure)],
            chg,
            err + seq![sig],
        ) == (ModelOutcome {
            status: DriveStatus::Finished(Ok::<(), WatchError>(())),
            used: events.len() + 1,
            changes: chg.len(),
            errors: err.len() + 1,
        }),
        sig matches CallbackResult::StopWithError(e) ==> drive_model(
            events + seq![WatchEvent::Trouble(failure)],
            chg,
            err + seq![sig],
        ) == (ModelOutcome {
            status: DriveStatus::Finished(Err::<(), WatchError>(e)),
            used: events.len() + 1,
            changes: chg.len(),
            errors: err.len() + 1,
        }),
{
    engine::lemma_step_trouble(failure, sig);
    assert(chg + Seq::<CallbackResult>::empty() =~= chg);
    match sig {
        CallbackResult::Next => {
            engine::lemma_logs_step_continue(
                events,
                chg,
                err,
                WatchEvent::Trouble(failure),
                Seq::empty(),
                seq![sig],
            );
        },
        CallbackResult::Stop => {
            engine::lemma_logs_step_exit(
                events,
                chg,
                err,
                WatchEvent::Trouble(failure),
                Seq::empty(),
                seq![sig],
                Ok(()),
            );
        },
        CallbackResult::StopWithError(e) => {
            engine::lemma_logs_step_exit(
                events,
                chg,
                err,
                WatchEvent::Trouble(failure),
                Seq::empty(),
                seq![sig],
                Err(e),
            );
        },
    }
}

/// The observation a wait on the shutdown channel amounts to: a lapsed
/// wait is an idle observation, a delivered signal and a closed channel
/// end the loop.
pub open spec fn wait_event(w: WaitOutcome) -> WatchEvent {
    match w {
        WaitOutcome::Nothing => WatchEvent::Idle,
        WaitOutcome::Delivered => WatchEvent::Shutdown,
        WaitOutcome::Closed => WatchEvent::Closed,
    }
}

/// Extends a run's history by the outcome of a wait on the shutdown
/// channel.
proof fn wait_step_model(
    events: Seq<WatchEvent>,
    chg: Seq<CallbackResult>,
    err: Seq<CallbackResult>,
    w: WaitOutcome,
)
    requires
        logs_extend_model(events, chg, err),
    ensures
        w is Nothing ==> logs_extend_model(events + seq![wait_event(w)], chg, err),
        !(w is Nothing) ==> drive_model(events + seq![wait_event(w)], chg, err) == (ModelOutcome {
            status: DriveStatus::Finished(Ok::<(), WatchError>(())),
            used: events.len() + 1,
            changes: chg.len(),
            errors: err.len(),
        }),
{
    assert(chg + Seq::<CallbackResult>::empty() =~= chg);
    assert(err + Seq::<CallbackResult>::empty() =~= err);
    match w {
        WaitOutcome::Nothing => {
            engine::lemma_logs_step_continue(
                events,
                chg,
                err,
                WatchEvent::Idle,
                Seq::empty(),
                Seq::empty(),
            );
        },
        WaitOutcome::Delivered => {
            engine::lemma_step_terminator(WatchEvent::Shutdown);
            engine::lemma_logs_step_exit(
                events,
                chg,
                err,
                WatchEvent::Shutdown,
                Seq::empty(),
                Seq::empty(),
                Ok(()),
            );
        },
        WaitOutcome::Closed => {
            engine::lemma_step_terminator(WatchEvent::Closed);
            engine::lemma_logs_step_exit(
                events,
                chg,
                err,
                WatchEvent::Closed,
                Seq::empty(),
                Seq::empty(),
                Ok(()),
            );
        },
    }
}

/// A history that only ever continued is, as a whole run, a model that
/// consumed everything and was still waiting.
proof fn lapse_model(events: Seq<WatchEvent>, chg: Seq<CallbackResult>, err: Seq<CallbackResult>)
    requires
        logs_extend_model(events, chg, err),
    ensures
        drive_model(events, chg, err) == (ModelOutcome {
            status: DriveStatus::Exhausted,
            used: events.len(),
            changes: chg.len(),
            errors: err.len(),
        }),
{
    assert(events + Seq::<WatchEvent>::empty() =~= events);
    assert(chg + Seq::<CallbackResult>::empty() =~= chg);
    assert(err + Seq::<CallbackResult>::empty() =~= err);
    let m0 = drive_model(
        Seq::<WatchEvent>::empty(),
        Seq::<CallbackResult>::empty(),
        Seq::<CallbackResult>::empty(),
    );
    assert(m0 == (ModelOutcome { status: DriveStatus::Exhausted, used: 0, changes: 0, errors: 0 }));
    assert(drive_model(
        events + Seq::<WatchEvent>::empty(),
        chg + Seq::<CallbackResult>::empty(),
        err + Seq::<CallbackResult>::empty(),
    ) == (ModelOutcome {
        status: m0.status,
        used: events.len() + m0.used,
        changes: chg.len() + m0.changes,
        errors: err.len() + m0.errors,
    }));
}

} // verus!
