//! Clipboard master
//!
//! Tracks updates of the system clipboard: a long-running watcher blocks
//! until the clipboard changes, invokes a user-supplied handler, and supports
//! cooperative shutdown from another thread.
//!
//! The decisions the watch loop takes are modelled and proved in [`engine`];
//! the X11 backend in [`master`] drives that logic with real observations.

use vstd::prelude::*;

pub mod chan;
pub mod cli;
pub mod engine;
pub mod error;
pub mod handler;
pub mod magnet;
pub mod master;
pub mod poll;
pub mod trim;
mod x11;

pub use error::WatchError;
pub use master::Master;
pub use master::Shutdown;

verus! {

/// Possible return values of a handler callback.
#[derive(Debug)]
pub enum CallbackResult {
    /// Wait for the next clipboard change.
    Next,
    /// Stop handling changes; the watcher returns success.
    Stop,
    /// Stop and propagate the given error to the watcher's caller.
    StopWithError(WatchError),
}

/// Describes a clipboard handler.
///
/// The watcher exclusively borrows the handler while it runs and calls it
/// from the watcher's own thread only.
pub trait ClipboardHandler {
    /// Called once per detected clipboard change.
    fn on_clipboard_change(&mut self) -> CallbackResult;

    /// Called when the watcher cannot observe the clipboard.
    ///
    /// The default policy escalates the error, so failures are fail-closed
    /// unless a handler overrides this and returns [`CallbackResult::Next`].
    fn on_clipboard_error(&mut self, error: WatchError) -> (r: CallbackResult)
        default_ensures
            r == CallbackResult::StopWithError(error),
    {
        CallbackResult::StopWithError(error)
    }

    /// Sleep interval, in milliseconds, for polling implementations.
    ///
    /// It also bounds the shutdown latency of those implementations.
    fn sleep_interval(&self) -> (r: u64)
        default_ensures
            r == 500,
    {
        500
    }
}

} // verus!
