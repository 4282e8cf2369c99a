//! The stacking order manager: which windows are raised above or lowered
//! below others.

use crate::types::Xid;
use std::collections::HashMap;
use vstd::prelude::*;

verus! {

broadcast use vstd::std_specs::hash::group_hash_axioms;

/// The stacking layer of a window relative to its peers
#[derive(Debug, Clone, Copy, PartialEq, Eq, Structural)]
pub enum StackLayer {
    /// Window is below its peers
    Below,
    /// Window stacks normally
    Normal,
    /// Window is above its peers
    Above,
}

/// The stacking layer classes the manager sorts windows into
#[derive(Debug, Clone, Copy, PartialEq, Eq, Structural)]
pub enum StackClass {
    /// A desktop window, lowest of all
    Desktop,
    /// A window kept below the normal layer
    Below,
    /// A window kept above the normal layer
    Above,
    /// A dock or panel
    Dock,
    /// A notification window, above everything
    Notification,
}

/// Tracks, per window, its stacking class and explicit above/below
/// relationships to other windows
#[derive(Debug)]
pub struct StackManager {
    /// Each window's stacking class
    pub window_layers: HashMap<Xid, StackClass>,
    /// Windows to be stacked directly above another window
    pub above_other: HashMap<Xid, Xid>,
    /// Windows to be stacked directly below another window
    pub below_other: HashMap<Xid, Xid>,
}

impl StackManager {
    /// Create a new, empty [`StackManager`]
    pub fn new() -> (r: Self)
        ensures
            r.window_layers@ == Map::<Xid, StackClass>::empty(),
            r.above_other@ == Map::<Xid, Xid>::empty(),
            r.below_other@ == Map::<Xid, Xid>::empty(),
    {
        Self {
            window_layers: HashMap::new(),
            above_other: HashMap::new(),
            below_other: HashMap::new(),
        }
    }

    /// The windows stacked directly above another window
    pub fn above_other(&self) -> (r: &HashMap<Xid, Xid>)
        ensures
            r@ == self.above_other@,
    {
        &self.above_other
    }

    /// The windows stacked directly below another window
    pub fn below_other(&self) -> (r: &HashMap<Xid, Xid>)
        ensures
            r@ == self.below_other@,
    {
        &self.below_other
    }
}

} // verus!
