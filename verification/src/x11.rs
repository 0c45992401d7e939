//! Trusted wrappers around the X11 clipboard connection.
//!
//! The watcher observes selection-ownership changes through the XFIXES
//! extension on the connection that `x11_clipboard` opens. Every call into
//! those crates stands here, each behind a wrapper that converts the
//! outcome to plain values of this library.

use vstd::prelude::*;

use crate::error::WatchError;
use x11rb::connection::Connection;
use x11rb::protocol::xfixes;
use x11rb::protocol::xproto::ConnectionExt;

verus! {

#[verifier::external_type_specification]
#[verifier::external_body]
pub struct ExClipboard(x11_clipboard::Clipboard);

/// Relies on x11_clipboard::Clipboard::new: connects to the X display and
/// interns the atoms the watcher needs; fails when no display is usable.
#[verifier::external_body]
pub(crate) fn open_clipboard() -> Result<x11_clipboard::Clipboard, WatchError> {
    match x11_clipboard::Clipboard::new() {
        Ok(clipboard) => Ok(clipboard),
        Err(e) => Err(WatchError::new(format!("Failed to initialize clipboard: {:?}", e))),
    }
}

/// Relies on x11rb's xfixes::query_version: asks the server for the XFIXES
/// extension, version 5.0, on the clipboard's own connection.
#[verifier::external_body]
pub(crate) fn negotiate_xfixes(clip: &x11_clipboard::Clipboard) -> Result<(), WatchError> {
    match xfixes::query_version(&clip.getter.connection, 5, 0) {
        Ok(_) => Ok(()),
        Err(e) => Err(WatchError::new(format!("{:?}", e))),
    }
}

/// Relies on x11rb's Connection::setup: the root window of the screen the
/// clipboard connection was opened on, if that screen exists.
#[verifier::external_body]
pub(crate) fn root_window(clip: &x11_clipboard::Clipboard) -> Option<u32> {
    let screens = &clip.getter.connection.setup().roots;
    match screens.get(clip.getter.screen) {
        Some(screen) => Some(screen.root),
        None => None,
    }
}

/// Relies on x11rb's xfixes::select_selection_input with an empty event
/// mask: clears any previous selection-ownership registration for the
/// primary and clipboard selections on the root window.
#[verifier::external_body]
pub(crate) fn clear_selections(clip: &x11_clipboard::Clipboard, root: u32) -> Result<
    (),
    WatchError,
> {
    let conn = &clip.getter.connection;
    let none = xfixes::SelectionEventMask::default();
    let first = xfixes::select_selection_input(conn, root, clip.getter.atoms.primary, none);
    match first.and(xfixes::select_selection_input(conn, root, clip.getter.atoms.clipboard, none)) {
        Ok(_) => Ok(()),
        Err(e) => Err(WatchError::new(format!("{:?}", e))),
    }
}

/// Relies on x11rb's xfixes::select_selection_input, Connection::flush and
/// VoidCookie::check: registers for owner-change, client-close and
/// window-destroy events on the clipboard selection, flushes the request,
/// confirms it succeeded, and returns its sequence number.
#[verifier::external_body]
pub(crate) fn watch_clipboard_selection(clip: &x11_clipboard::Clipboard, root: u32) -> Result<
    u64,
    WatchError,
> {
    let conn = &clip.getter.connection;
    let mask = xfixes::SelectionEventMask::SET_SELECTION_OWNER
        | xfixes::SelectionEventMask::SELECTION_CLIENT_CLOSE
        | xfixes::SelectionEventMask::SELECTION_WINDOW_DESTROY;
    let cookie = xfixes::select_selection_input(conn, root, clip.getter.atoms.clipboard, mask);
    match (cookie, conn.flush()) {
        (Ok(cookie), Ok(())) => match (cookie.sequence_number(), cookie.check()) {
            (seq, Ok(())) => Ok(seq),
            (_, Err(e)) => Err(WatchError::new(format!("{:?}", e))),
        },
        (Err(e), _) => Err(WatchError::new(format!("{:?}", e))),
        (_, Err(e)) => Err(WatchError::new(format!("{:?}", e))),
    }
}

/// Relies on x11rb's Connection::poll_for_event_with_sequence: the next
/// queued event's sequence number without blocking, `None` when the queue is
/// empty. What arrives depends on the X server, so nothing more is promised.
#[verifier::external_body]
pub(crate) fn poll_event(clip: &x11_clipboard::Clipboard) -> Result<Option<u64>, WatchError> {
    match clip.getter.connection.poll_for_event_with_sequence() {
        Ok(Some((_, seq))) => Ok(Some(seq)),
        Ok(None) => Ok(None),
        Err(e) => Err(WatchError::new(format!("Failed to load clipboard: {:?}", e))),
    }
}

/// Relies on x11rb's delete_property and VoidCookie::check: deletes the
/// clipboard's scratch property on its window and confirms the deletion.
#[verifier::external_body]
pub(crate) fn delete_scratch_property(clip: &x11_clipboard::Clipboard) -> Result<(), WatchError> {
    let getter = &clip.getter;
    match getter.connection.delete_property(getter.window, getter.atoms.property) {
        Ok(cookie) => match cookie.check() {
            Ok(()) => Ok(()),
            Err(e) => Err(WatchError::new(format!("{:?}", e))),
        },
        Err(e) => Err(WatchError::new(format!("{:?}", e))),
    }
}

} // verus!
