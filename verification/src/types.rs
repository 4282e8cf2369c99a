//! Shared base types: identifiers, the identity capability that the
//! selection ring requires of its elements, and the small enums used by the
//! geometry kernel and the tiling tree.

use vstd::prelude::*;
use vstd::string::StringSliceAdditionalSpecFns;

verus! {

/// Identifier of a window (or of any other selectable entity)
pub type Xid = u32;

/// Index into an ordered collection
pub type Idx = usize;

/// Capability of exposing a stable identity, required of every element held
/// in a selection ring.
pub trait Identify: Sized {
    /// The identity, as a specification-level value
    spec fn id_spec(&self) -> Xid;

    /// Return the element's identity
    fn id(&self) -> (r: Xid)
        ensures
            r == self.id_spec(),
    ;
}

impl Identify for u32 {
    open spec fn id_spec(&self) -> Xid {
        *self
    }

    fn id(&self) -> (r: Xid)
        ensures
            r == self.id_spec(),
    {
        *self
    }
}

impl Identify for &str {
    open spec fn id_spec(&self) -> Xid {
        if self.spec_bytes().len() > u32::MAX {
            u32::MAX
        } else {
            self.spec_bytes().len() as Xid
        }
    }

    fn id(&self) -> (r: Xid)
        ensures
            r == self.id_spec(),
    {
        let bytes = self.as_bytes();
        let n = bytes.len();
        if n > u32::MAX as usize {
            u32::MAX
        } else {
            n as Xid
        }
    }
}

impl Identify for i32 {
    open spec fn id_spec(&self) -> Xid {
        *self as u32
    }

    fn id(&self) -> (r: Xid)
        ensures
            r == self.id_spec(),
    {
        #[verifier::truncate]
        (*self as u32)
    }
}

// ============================ Direction =============================

/// A compass direction, used to ask for the window on a given side
#[derive(Debug, Clone, Copy, PartialEq, Eq, Structural)]
pub enum Direction {
    /// North or above relative to something else
    North,
    /// South or below relative to something else
    South,
    /// East or right relative to something else
    East,
    /// West or left relative to something else
    West,
}

// ============================ Tightness =============================

/// Strictness of the test deciding whether a window lies on a given
/// [`Direction`] side of another window
#[derive(Debug, Clone, Copy, PartialEq, Eq, Structural)]
pub enum Tightness {
    /// Permissive: touching or overlapping along the primary axis is allowed
    Low,
    /// Strict: the candidate must lie strictly past the facing edge
    High,
}

// ========================= Edges and corners ========================

/// An edge of the screen or of a window
#[derive(Debug, Clone, Copy, PartialEq, Eq, Structural)]
pub enum Edge {
    /// The left edge
    Left,
    /// The right edge
    Right,
    /// The top edge
    Top,
    /// The bottom edge
    Bottom,
}

/// A corner of a window
#[derive(Debug, Clone, Copy, PartialEq, Eq, Structural)]
pub enum Corner {
    /// The top-left corner
    TopLeft,
    /// The top-right corner
    TopRight,
    /// The bottom-left corner
    BottomLeft,
    /// The bottom-right corner
    BottomRight,
}

/// Action of a mouse moving an edge or a corner of a window
#[derive(Debug, Clone, Copy, PartialEq, Eq, Structural)]
pub enum DragType {
    /// A moving (edge) drag
    Edge(Edge),
    /// A resizing (corner) drag
    Corner(Corner),
}

impl DragType {
    /// Is the drag moving a top [`Corner`] or [`Edge`]?
    pub fn is_top_drag(self) -> (r: bool)
        ensures
            r <==> (self == DragType::Edge(Edge::Top) || self == DragType::Corner(Corner::TopLeft)
                || self == DragType::Corner(Corner::TopRight)),
    {
        match self {
            DragType::Edge(e) => matches!(e, Edge::Top),
            DragType::Corner(c) => matches!(c, Corner::TopLeft | Corner::TopRight),
        }
    }

    /// Is the drag moving a right [`Corner`] or [`Edge`]?
    pub fn is_right_drag(self) -> (r: bool)
        ensures
            r <==> (self == DragType::Edge(Edge::Right)
                || self == DragType::Corner(Corner::TopRight)
                || self == DragType::Corner(Corner::BottomRight)),
    {
        match self {
            DragType::Edge(e) => matches!(e, Edge::Right),
            DragType::Corner(c) => matches!(c, Corner::TopRight | Corner::BottomRight),
        }
    }
}

// ======================== Tree configuration ========================

/// Insertion scheme used when no explicit preselection exists
#[derive(Debug, Clone, Copy, PartialEq, Eq, Structural)]
pub enum AutomaticScheme {
    /// Split along whichever axis of the target leaf's rectangle is longer
    LongestSide,
    /// Alternate the split axis with each insertion depth
    Alternate,
    /// Rotate the split axis at each insertion, producing a spiral
    Spiral,
}

/// Which child a newly inserted window becomes under its split
#[derive(Debug, Clone, Copy, PartialEq, Eq, Structural)]
pub enum ChildPolarity {
    /// First child
    First,
    /// Second child
    Second,
}

// ========================== Motion recorder =========================

/// Bookkeeping for a window that records pointer motion
#[derive(Debug, Clone, Copy, PartialEq, Eq, Structural)]
pub struct MotionRecorder {
    /// Identifier of the recording window
    pub id: Xid,
    /// Sequence number of the last recorded motion
    pub sequence: u16,
    /// Is recording enabled?
    pub enabled: bool,
}

impl MotionRecorder {
    /// Create a new [`MotionRecorder`]
    pub fn new(id: Xid) -> (r: Self)
        ensures
            r == (MotionRecorder { id, sequence: 0u16, enabled: false }),
    {
        Self { id, sequence: 0, enabled: false }
    }
}

} // verus!
