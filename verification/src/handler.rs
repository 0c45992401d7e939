//! The command-line clipboard handler's decision logic.
//!
//! On every clipboard change the handler fetches the text and decides what
//! to do with it: hand a magnet URI to a torrent client, write a trimmed
//! copy back, or leave the clipboard alone. Fetching and writing the text
//! and launching the client are the caller's business; the decision is made
//! here.

use vstd::prelude::*;

use crate::cli::Parser;
use crate::magnet;
use crate::trim;

verus! {

/// What to do with the clipboard content just fetched.
#[derive(Debug)]
pub enum ContentAction {
    /// Hand the content, a magnet URI, to the torrent client.
    LaunchMagnet,
    /// Write this trimmed text back to the clipboard.
    Replace(String),
    /// Leave the clipboard alone.
    Keep,
}

/// The command-line handler: decides what to do with clipboard content
/// according to the parsed flags.
pub struct Handler {
    pub args: Parser,
}

impl Handler {
    /// Decides what to do with the clipboard content of a detected change.
    ///
    /// A magnet URI is handed on only when the magnet flag is set; otherwise
    /// the content is trimmed, and written back only when trimming changed
    /// it.
    pub fn plan_change(&self, content: &String) -> (a: ContentAction)
        ensures
            a is LaunchMagnet <==> (self.args.flags.magnet && magnet::is_magnet(content@)),
            a is Replace <==> (!(self.args.flags.magnet && magnet::is_magnet(content@))
                && trim::trimmed(content@) != content@),
            a matches ContentAction::Replace(t) ==> t@ == trim::trimmed(content@),
            a is Keep <==> (!(self.args.flags.magnet && magnet::is_magnet(content@))
                && trim::trimmed(content@) == content@),
    {
        if self.args.flags.magnet && magnet::is_applicable(content.as_str()) {
            ContentAction::LaunchMagnet
        } else {
            match trim::lines(content) {
                Some(t) => ContentAction::Replace(t),
                None => ContentAction::Keep,
            }
        }
    }
}

} // verus!
