//! Plain-data descriptions of the display server's events, as the event
//! loop hands them to the core.

use crate::geometry::{Dimension, Point, Rectangle};
use crate::types::Xid;
use vstd::prelude::*;

verus! {

/// The payload of a client message, in one of the three wire formats
#[derive(Debug, Clone, Copy)]
pub enum ClientMessageData {
    /// Twenty bytes
    U8([u8; 20]),
    /// Ten sixteen-bit words
    U16([u16; 10]),
    /// Five thirty-two-bit words
    U32([u32; 5]),
}

impl ClientMessageData {
    /// Is the data in byte format?
    pub fn is_u8(&self) -> (r: bool)
        ensures
            r == (self is U8),
    {
        matches!(self, Self::U8(_))
    }

    /// Is the data in sixteen-bit format?
    pub fn is_u16(&self) -> (r: bool)
        ensures
            r == (self is U16),
    {
        matches!(self, Self::U16(_))
    }

    /// Is the data in thirty-two-bit format?
    pub fn is_u32(&self) -> (r: bool)
        ensures
            r == (self is U32),
    {
        matches!(self, Self::U32(_))
    }
}

/// A client changed, or asked to change, its position or size
#[derive(Debug, Clone, Copy)]
pub struct ConfigureEvent {
    /// The window the event concerns
    pub id: Xid,
    /// The geometry involved
    pub geom: Rectangle,
    /// Is the window the root window?
    pub is_root: bool,
}

/// The pointer entered or left a window
#[derive(Debug, Clone, Copy)]
pub struct PointerEvent {
    /// The window the pointer crossed into or out of
    pub id: Xid,
    /// The pointer's position relative to the root
    pub abs: Point,
    /// The pointer's position relative to the window
    pub rel: Point,
}

/// A window was reparented
#[derive(Debug, Clone, Copy)]
pub struct ReparentEvent {
    /// The event window
    pub event: Xid,
    /// The new parent window
    pub parent: Xid,
    /// The reparented child
    pub child: Xid,
    /// Whether the child bypasses the window manager
    pub over_red: bool,
}

/// A window property changed
#[derive(Debug, Clone, Copy)]
pub struct PropertyEvent {
    /// The window whose property changed
    pub id: Xid,
    /// The property that changed
    pub atom: Xid,
    /// The server time of the change
    pub time: u32,
    /// Whether the property was deleted
    pub deleted: bool,
}

/// A key combination was pressed
#[derive(Debug, Clone, Copy)]
pub struct KeypressEvent {
    /// The modifier state at the time
    pub mask: u16,
    /// The keycode pressed
    pub keycode: u8,
}

/// A window gained or lost focus
#[derive(Debug, Clone, Copy, PartialEq, Eq, Structural)]
pub enum FocusEvent {
    /// The window came into focus
    Gain,
    /// The window lost focus
    Lose,
}

/// Something on the display changed
#[derive(Debug, Clone, Copy)]
pub enum DisplayEvent {
    /// An area of a window needs to be redrawn
    Expose(Rectangle),
    /// A window's focus changed
    Focus(FocusEvent),
    /// A window's dimensions changed
    Resize(Dimension),
}

} // verus!
