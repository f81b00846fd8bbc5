//! The running log of messages shown to the player.

use vstd::prelude::*;

verus! {

/// An append-only list of game messages.
#[derive(Debug)]
pub struct GameLog {
    pub entries: Vec<String>,
}

impl GameLog {
    /// An empty log.
    pub fn new() -> (r: GameLog)
        ensures
            r.entries@.len() == 0,
    {
        GameLog { entries: Vec::new() }
    }

    /// Append one message.
    pub fn push(&mut self, msg: String)
        ensures
            final(self).entries@ == old(self).entries@.push(msg),
    {
        self.entries.push(msg);
    }
}

} // verus!
