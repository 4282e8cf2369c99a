//! Workspace helpers: the scratchpad, a window summoned and dismissed by
//! command.

use crate::types::Xid;
use vstd::prelude::*;

verus! {

/// A scratchpad: a command that spawns a window on demand, together with
/// the window it currently owns and whether it is shown
#[derive(Debug, Clone)]
pub struct Scratchpad {
    /// The command that spawns the scratchpad window
    pub command: String,
    /// The window the scratchpad currently owns, once it has spawned
    pub client: Option<Xid>,
    /// Is the scratchpad currently shown?
    pub active: bool,
}

impl Scratchpad {
    /// Create a new [`Scratchpad`] for the given command, not yet
    /// spawned and not shown
    pub fn new(command: String) -> (r: Self)
        ensures
            r.command == command,
            r.client is None,
            !r.active,
    {
        Self { command, client: None, active: false }
    }
}

} // verus!
