//! Trusted wrappers around the shutdown channel.
//!
//! The watcher and its shutdown tokens share a rendezvous channel: a
//! synchronous channel of capacity zero, so that a pending signal wakes a
//! blocked watcher exactly once. Whether and when a signal arrives depends
//! entirely on the other threads, so the wrappers promise nothing beyond the
//! possible outcomes.

use vstd::prelude::*;

use std::sync::mpsc::Receiver;
use std::sync::mpsc::RecvTimeoutError;
use std::sync::mpsc::SyncSender;

verus! {

#[verifier::external_type_specification]
#[verifier::external_body]
#[verifier::reject_recursive_types(T)]
pub struct ExSyncSender<T>(SyncSender<T>);

#[verifier::external_type_specification]
#[verifier::external_body]
#[verifier::reject_recursive_types(T)]
pub struct ExReceiver<T>(Receiver<T>);

/// The outcome of asking the shutdown channel for a signal.
#[derive(Debug)]
pub enum WaitOutcome {
    /// A shutdown signal was delivered.
    Delivered,
    /// No signal arrived before the wait ended.
    Nothing,
    /// Every sender is gone; no signal can ever arrive.
    Closed,
}

/// Relies on std::sync::mpsc::sync_channel: with a bound of zero it is a
/// rendezvous channel, whose sends block until a receiver takes the value.
#[verifier::external_body]
pub(crate) fn rendezvous_channel() -> (SyncSender<()>, Receiver<()>) {
    std::sync::mpsc::sync_channel(0)
}

/// Relies on SyncSender::clone: another sender for the same channel. In
/// specifications the clone equals its original, so a token made from it
/// provably signals through the same channel.
#[verifier::external_body]
pub(crate) fn clone_sender(sender: &SyncSender<()>) -> (r: SyncSender<()>)
    ensures
        r == *sender,
{
    sender.clone()
}

/// Relies on SyncSender::send: blocks until a receiver takes the signal, and
/// reports failure once the receiver is gone. Which of the two happens
/// depends on the receiving thread, so nothing more is promised.
#[verifier::external_body]
pub(crate) fn send_signal(sender: &SyncSender<()>) -> bool {
    sender.send(()).is_ok()
}

/// Relies on Receiver::recv_timeout: returns a delivered signal, reports
/// that the wait timed out, or reports that every sender is gone. Which of
/// the three happens depends on the sending threads and on time, so nothing
/// more is promised.
#[verifier::external_body]
pub(crate) fn wait_for_signal(recv: &Receiver<()>, timeout_ms: u64) -> WaitOutcome {
    match recv.recv_timeout(core::time::Duration::from_millis(timeout_ms)) {
        Ok(()) => WaitOutcome::Delivered,
        Err(RecvTimeoutError::Timeout) => WaitOutcome::Nothing,
        Err(RecvTimeoutError::Disconnected) => WaitOutcome::Closed,
    }
}

} // verus!
