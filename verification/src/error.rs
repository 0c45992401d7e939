use vstd::prelude::*;

verus! {

/// Error surfaced by the watcher: a failure to observe the clipboard, a
/// failure to set the backend up, or an error a handler chose to propagate.
#[derive(Debug, Clone, PartialEq, Eq)]
pub struct WatchError {
    /// Human-readable description of the failure.
    pub detail: String,
}

impl WatchError {
    /// Wraps a description of a failure.
    pub fn new(detail: String) -> (r: WatchError)
        ensures
            r.detail == detail,
    {
        WatchError { detail }
    }
}

} // verus!
