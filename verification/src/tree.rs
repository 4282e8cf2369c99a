//! The binary-split tiling tree: each node is either a leaf holding one
//! managed window or a split with exactly two children, a split axis and a
//! ratio. Inserting a window turns a leaf into a split, removing one
//! promotes its sibling, and the layout pass partitions a desktop's
//! rectangle among the leaves.

use crate::geometry::{Dimension, Point, Ratio, Rectangle};
use crate::types::{AutomaticScheme, ChildPolarity, Direction, Tightness, Xid};
use vstd::arithmetic::div_mod::{
    lemma_div_is_ordered,
    lemma_div_multiples_vanish,
    lemma_div_pos_is_pos,
};
use vstd::prelude::*;

verus! {

// ============================ Split types ===========================

/// The axis of a split: a horizontal split stacks its children on top of
/// each other, a vertical split puts them side by side
#[derive(Debug, Clone, Copy, PartialEq, Eq, Structural)]
pub enum SplitType {
    /// The split line runs from East to West: children stacked
    Horizontal,
    /// The split line runs from North to South: children side by side
    Vertical,
}

impl SplitType {
    /// The other axis
    pub open spec fn other_spec(self) -> SplitType {
        match self {
            SplitType::Horizontal => SplitType::Vertical,
            SplitType::Vertical => SplitType::Horizontal,
        }
    }

    /// Rotate to the other axis
    pub fn other(self) -> (r: Self)
        ensures
            r == self.other_spec(),
    {
        match self {
            SplitType::Horizontal => SplitType::Vertical,
            SplitType::Vertical => SplitType::Horizontal,
        }
    }
}

/// How the next split of a node is chosen
#[derive(Debug, Clone, Copy, PartialEq, Eq, Structural)]
pub enum SplitMode {
    /// Splitting is chosen by the automatic scheme
    Automatic,
    /// Splitting was chosen by hand, through a preselection
    Manual,
}

/// Minimum size a node may be laid out at
#[derive(Debug, Clone, Copy, PartialEq, Eq, Structural)]
pub struct Constraint {
    /// Minimum width
    pub min_width: u16,
    /// Minimum height
    pub min_height: u16,
}

// ============================== Presel ==============================

/// A preselection: the user's choice of where and how the next window
/// will split a leaf, kept until the insertion consumes it
#[derive(Debug, Clone, Copy, PartialEq, Eq, Structural)]
pub struct Presel {
    /// Ratio of the preselected split
    pub split_ratio: Ratio,
    /// Side of the leaf the new window will take
    pub split_dir: Direction,
    /// Window that shows the preselection overlay, if any
    pub feedback: Option<Xid>,
}

impl Presel {
    /// Create a new [`Presel`] on the East side with the given ratio
    pub fn new(ratio: Ratio) -> (r: Self)
        ensures
            r == (Presel { split_ratio: ratio, split_dir: Direction::East, feedback: None }),
    {
        Self { split_ratio: ratio, split_dir: Direction::East, feedback: None }
    }
}

// ============================ Settings ==============================

/// The read-only configuration the tree consumes: gaps, default split,
/// insertion scheme and navigation strictness
#[derive(Debug, Clone, Copy, PartialEq, Eq, Structural)]
pub struct LayoutSettings {
    /// Pixels left free between tiled leaves
    pub window_gap: u32,
    /// Border width around each window
    pub border_width: u32,
    /// Ratio given to the first child of a new split when no preselection
    /// says otherwise
    pub split_ratio: Ratio,
    /// How a split axis is chosen without a preselection
    pub automatic_scheme: AutomaticScheme,
    /// Which child a new window becomes without a preselection
    pub initial_polarity: ChildPolarity,
    /// Hand a removed leaf's share back by re-adjusting the promoted
    /// sibling's ratio
    pub removal_adjustment: bool,
    /// Strictness of directional navigation
    pub directional_focus_tightness: Tightness,
}

// =============================== Node ===============================

/// Children of a node: none for a leaf, exactly two for a split
pub enum NodeKind {
    /// A leaf owns one managed window and has no children
    Leaf,
    /// A split partitions its rectangle between exactly two children
    Split(Box<Node>, Box<Node>),
}

/// One node of the tiling tree
pub struct Node {
    /// The managed window for a leaf; unused for a split
    pub id: Xid,
    /// The axis along which this node is or would be split
    pub split_type: SplitType,
    /// Fraction of the rectangle given to the first child
    pub split_ratio: Ratio,
    /// A pending user-chosen split, consumed by the next insertion
    pub presel: Option<Presel>,
    /// The area this node currently covers
    pub rectangle: Rectangle,
    /// Minimum size this node may be laid out at
    pub constraints: Constraint,
    /// Is the node vacant?
    pub vacant: bool,
    /// Is the node hidden?
    pub hidden: bool,
    /// Is the node sticky?
    pub sticky: bool,
    /// Is the node private?
    pub private: bool,
    /// Is the node locked?
    pub locked: bool,
    /// Is the node marked?
    pub marked: bool,
    /// Leaf or split
    pub kind: NodeKind,
}

impl Node {
    /// Is this node a leaf?
    pub open spec fn is_leaf(&self) -> bool {
        self.kind is Leaf
    }

    /// Is this node a leaf holding the given window?
    pub open spec fn is_leaf_of(&self, id: Xid) -> bool {
        self.kind is Leaf && self.id == id
    }

    /// The windows of all leaves below this node, left to right
    pub open spec fn leaf_ids(self) -> Seq<Xid>
        decreases self,
    {
        match self.kind {
            NodeKind::Leaf => seq![self.id],
            NodeKind::Split(a, b) => a.leaf_ids() + b.leaf_ids(),
        }
    }

    /// The windows and rectangles of all leaves below this node
    pub open spec fn leaves_spec(self) -> Seq<(Xid, Rectangle)>
        decreases self,
    {
        match self.kind {
            NodeKind::Leaf => seq![(self.id, self.rectangle)],
            NodeKind::Split(a, b) => a.leaves_spec() + b.leaves_spec(),
        }
    }

    /// Height of the tree below and including this node
    pub open spec fn height(self) -> nat
        decreases self,
    {
        match self.kind {
            NodeKind::Leaf => 1,
            NodeKind::Split(a, b) => 1 + if a.height() >= b.height() {
                a.height()
            } else {
                b.height()
            },
        }
    }

    /// Every split ratio below this node, preselections included, is a
    /// proper fraction
    pub open spec fn ratios_ok(self) -> bool
        decreases self,
    {
        &&& (self.kind is Split ==> self.split_ratio.is_proper())
        &&& match self.presel {
            Some(p) => p.split_ratio.is_proper(),
            None => true,
        }
        &&& match self.kind {
            NodeKind::Leaf => true,
            NodeKind::Split(a, b) => a.ratios_ok() && b.ratios_ok(),
        }
    }

    /// Create a new leaf for the given window covering the given area
    pub fn new_leaf(id: Xid, rectangle: Rectangle) -> (r: Self)
        ensures
            r == Self::fresh_leaf(id, rectangle, SplitType::Vertical),
            r.is_leaf_of(id),
            r.rectangle == rectangle,
            r.presel is None,
            r.leaf_ids() == seq![id],
            r.split_ratio == (Ratio { numerator: 1i32, denominator: 2i32 }),
            r.split_type == SplitType::Vertical,
            r.ratios_ok(),
    {
        let r = Self {
            id,
            split_type: SplitType::Vertical,
            split_ratio: Ratio { numerator: 1, denominator: 2 },
            presel: None,
            rectangle,
            constraints: Constraint { min_width: 0, min_height: 0 },
            vacant: false,
            hidden: false,
            sticky: false,
            private: false,
            locked: false,
            marked: false,
            kind: NodeKind::Leaf,
        };
        proof {
            assert(r.leaf_ids() =~= seq![id]);
        }
        r
    }

    /// Change the split axis of the node
    pub fn set_type(&mut self, split_type: SplitType)
        ensures
            *final(self) == (Node { split_type, ..*old(self) }),
    {
        self.split_type = split_type;
    }

    /// Set a preselection on the node
    pub fn set_presel(&mut self, presel: Presel)
        ensures
            *final(self) == (Node { presel: Some(presel), ..*old(self) }),
    {
        self.presel = Some(presel);
    }

    /// The split axis a preselection direction implies: East and West cut
    /// along a vertical boundary, North and South along a horizontal one
    pub open spec fn axis_of_direction(d: Direction) -> SplitType {
        match d {
            Direction::East | Direction::West => SplitType::Vertical,
            Direction::North | Direction::South => SplitType::Horizontal,
        }
    }

    /// Does the new window take the first child slot for this
    /// preselection direction? West and North place it before the old
    /// content, East and South after it.
    pub open spec fn new_first_for_direction(d: Direction) -> bool {
        match d {
            Direction::West | Direction::North => true,
            Direction::East | Direction::South => false,
        }
    }

    /// The split axis the automatic scheme chooses for a leaf at the
    /// given depth: the leaf's longer side, the depth's parity, or the
    /// axis the leaf would rotate to
    pub open spec fn auto_axis(leaf: Node, s: LayoutSettings, depth: nat) -> SplitType {
        match s.automatic_scheme {
            AutomaticScheme::LongestSide => if leaf.rectangle.w() >= leaf.rectangle.h() {
                SplitType::Vertical
            } else {
                SplitType::Horizontal
            },
            AutomaticScheme::Alternate => if depth % 2 == 0 {
                SplitType::Vertical
            } else {
                SplitType::Horizontal
            },
            AutomaticScheme::Spiral => leaf.split_type.other_spec(),
        }
    }

    /// A fresh leaf for a newly inserted window, sharing the target
    /// leaf's area until the next layout pass
    pub open spec fn fresh_leaf(id: Xid, rectangle: Rectangle, axis: SplitType) -> Node {
        Node {
            id,
            split_type: axis,
            split_ratio: Ratio { numerator: 1, denominator: 2 },
            presel: None,
            rectangle,
            constraints: Constraint { min_width: 0, min_height: 0 },
            vacant: false,
            hidden: false,
            sticky: false,
            private: false,
            locked: false,
            marked: false,
            kind: NodeKind::Leaf,
        }
    }

    /// The split node that inserting `new_id` turns the target leaf
    /// into: axis, ratio and child order come from the leaf's
    /// preselection when it has one, and from the automatic scheme and
    /// configured polarity otherwise; the old content becomes one child
    /// and the new window the other
    pub open spec fn split_of_leaf(leaf: Node, new_id: Xid, s: LayoutSettings, depth: nat) -> Node {
        let axis = match leaf.presel {
            Some(p) => Self::axis_of_direction(p.split_dir),
            None => Self::auto_axis(leaf, s, depth),
        };
        let ratio = match leaf.presel {
            Some(p) => p.split_ratio,
            None => s.split_ratio,
        };
        let new_first = match leaf.presel {
            Some(p) => Self::new_first_for_direction(p.split_dir),
            None => s.initial_polarity == ChildPolarity::First,
        };
        let old_child = Node { presel: None, split_type: axis, ..leaf };
        let new_child = Self::fresh_leaf(new_id, leaf.rectangle, axis);
        let first = if new_first {
            new_child
        } else {
            old_child
        };
        let second = if new_first {
            old_child
        } else {
            new_child
        };
        Node {
            id: 0,
            split_type: axis,
            split_ratio: ratio,
            presel: None,
            rectangle: leaf.rectangle,
            constraints: leaf.constraints,
            vacant: false,
            hidden: false,
            sticky: false,
            private: false,
            locked: false,
            marked: false,
            kind: NodeKind::Split(Box::new(first), Box::new(second)),
        }
    }

    /// The tree after inserting a sibling for the target leaf: the leaf
    /// becomes the split that [`Node::split_of_leaf`] describes, every
    /// other node stands unchanged
    pub open spec fn spec_insert(self, target: Xid, new_id: Xid, s: LayoutSettings, depth: nat) -> Node
        decreases self,
    {
        match self.kind {
            NodeKind::Leaf => if self.id == target {
                Self::split_of_leaf(self, new_id, s, depth)
            } else {
                self
            },
            NodeKind::Split(a, b) => Node {
                kind: NodeKind::Split(
                    Box::new(a.spec_insert(target, new_id, s, depth + 1)),
                    Box::new(b.spec_insert(target, new_id, s, depth + 1)),
                ),
                ..self
            },
        }
    }

    /// Insert a sibling window next to the target leaf, which becomes a
    /// split; the preselection on the target, when there is one, decides
    /// the split's axis, ratio and child order, and is consumed
    pub fn insert_sibling(self, target: Xid, new_id: Xid, s: &LayoutSettings, depth: u32) -> (r:
        Node)
        requires
            depth + self.height() <= u32::MAX,
        ensures
            r == self.spec_insert(target, new_id, *s, depth as nat),
        decreases self,
    {
        match self.kind {
            NodeKind::Leaf => {
                if self.id == target {
                    let axis = match self.presel {
                        Some(p) => {
                            match p.split_dir {
                                Direction::East | Direction::West => SplitType::Vertical,
                                Direction::North | Direction::South => SplitType::Horizontal,
                            }
                        },
                        None => {
                            match s.automatic_scheme {
                                AutomaticScheme::LongestSide => {
                                    if self.rectangle.dimension.width
                                        >= self.rectangle.dimension.height {
                                        SplitType::Vertical
                                    } else {
                                        SplitType::Horizontal
                                    }
                                },
                                AutomaticScheme::Alternate => {
                                    if depth % 2 == 0 {
                                        SplitType::Vertical
                                    } else {
                                        SplitType::Horizontal
                                    }
                                },
                                AutomaticScheme::Spiral => self.split_type.other(),
                            }
                        },
                    };
                    let ratio = match self.presel {
                        Some(p) => p.split_ratio,
                        None => s.split_ratio,
                    };
                    let new_first = match self.presel {
                        Some(p) => {
                            match p.split_dir {
                                Direction::West | Direction::North => true,
                                Direction::East | Direction::South => false,
                            }
                        },
                        None => matches!(s.initial_polarity, ChildPolarity::First),
                    };
                    let rectangle = self.rectangle;
                    let constraints = self.constraints;
                    let old_child = Node { presel: None, split_type: axis, ..self };
                    let mut new_child = Node::new_leaf(new_id, rectangle);
                    new_child.split_type = axis;
                    proof {
                        assert(new_child == Self::fresh_leaf(new_id, rectangle, axis));
                    }
                    let (first, second) = if new_first {
                        (new_child, old_child)
                    } else {
                        (old_child, new_child)
                    };
                    Node {
                        id: 0,
                        split_type: axis,
                        split_ratio: ratio,
                        presel: None,
                        rectangle,
                        constraints,
                        vacant: false,
                        hidden: false,
                        sticky: false,
                        private: false,
                        locked: false,
                        marked: false,
                        kind: NodeKind::Split(Box::new(first), Box::new(second)),
                    }
                } else {
                    self
                }
            },
            NodeKind::Split(a, b) => {
                let na = (*a).insert_sibling(target, new_id, s, depth + 1);
                let nb = (*b).insert_sibling(target, new_id, s, depth + 1);
                Node { kind: NodeKind::Split(Box::new(na), Box::new(nb)), ..self }
            },
        }
    }

    // ============================= Layout ============================

    /// How a split partitions a rectangle between its two children: the
    /// gap (capped at the available extent) is left free between them,
    /// the first child takes the ratio's share of the rest, rounded
    /// down, and the second child takes what remains
    pub open spec fn split_rects_spec(rect: Rectangle, st: SplitType, ratio: Ratio, gap: u32) -> (
        Rectangle,
        Rectangle,
    ) {
        match st {
            SplitType::Vertical => {
                let w = rect.w();
                let eg = if gap <= w {
                    gap as int
                } else {
                    w
                };
                let total = w - eg;
                let w1 = ratio.share_of(total);
                let w2 = total - w1;
                (
                    Rectangle {
                        point: rect.point,
                        dimension: Dimension {
                            width: w1 as u32,
                            height: rect.dimension.height,
                        },
                    },
                    Rectangle {
                        point: Point { x: (rect.x1() + w1 + eg) as i32, y: rect.point.y },
                        dimension: Dimension {
                            width: w2 as u32,
                            height: rect.dimension.height,
                        },
                    },
                )
            },
            SplitType::Horizontal => {
                let h = rect.h();
                let eg = if gap <= h {
                    gap as int
                } else {
                    h
                };
                let total = h - eg;
                let h1 = ratio.share_of(total);
                let h2 = total - h1;
                (
                    Rectangle {
                        point: rect.point,
                        dimension: Dimension {
                            width: rect.dimension.width,
                            height: h1 as u32,
                        },
                    },
                    Rectangle {
                        point: Point { x: rect.point.x, y: (rect.y1() + h1 + eg) as i32 },
                        dimension: Dimension {
                            width: rect.dimension.width,
                            height: h2 as u32,
                        },
                    },
                )
            },
        }
    }

    /// A proper ratio's share of a non-negative whole lies between zero
    /// and the whole
    pub proof fn lemma_share_bounds(ratio: Ratio, whole: int)
        requires
            ratio.is_proper(),
            0 <= whole,
        ensures
            0 <= ratio.share_of(whole) <= whole,
    {
        let num = ratio.numerator as int;
        let den = ratio.denominator as int;
        assert(whole * num >= 0) by (nonlinear_arith)
            requires
                whole >= 0 && num > 0,
        ;
        assert(whole * num <= whole * den) by (nonlinear_arith)
            requires
                whole >= 0 && num <= den,
        ;
        lemma_div_pos_is_pos(whole * num, den);
        lemma_div_is_ordered(whole * num, whole * den, den);
        lemma_div_multiples_vanish(whole, den);
        assert(whole * den / den == whole);
    }

    /// Partition a rectangle between the two children of a split
    pub fn split_rect(rect: Rectangle, st: SplitType, ratio: Ratio, gap: u32) -> (r: (
        Rectangle,
        Rectangle,
    ))
        requires
            ratio.is_proper(),
            rect.in_bounds(),
        ensures
            r == Self::split_rects_spec(rect, st, ratio, gap),
            r.0.in_bounds(),
            r.1.in_bounds(),
    {
        proof {
            match st {
                SplitType::Vertical => {
                    let w = rect.w();
                    let eg = if gap <= w {
                        gap as int
                    } else {
                        w
                    };
                    Self::lemma_share_bounds(ratio, w - eg);
                },
                SplitType::Horizontal => {
                    let h = rect.h();
                    let eg = if gap <= h {
                        gap as int
                    } else {
                        h
                    };
                    Self::lemma_share_bounds(ratio, h - eg);
                },
            }
        }
        match st {
            SplitType::Vertical => {
                let w = rect.dimension.width as i64;
                let g = gap as i64;
                let eg = if g <= w {
                    g
                } else {
                    w
                };
                let total = w - eg;
                proof {
                    assert(0 <= total as int * (ratio.numerator as int) < 0x8000_0000_0000_0000)
                        by (nonlinear_arith)
                        requires
                            0 <= total <= 0xffff_ffffi64 && 0 < ratio.numerator < 0x8000_0000i64,
                    ;
                }
                let w1 = total * ratio.numerator as i64 / ratio.denominator as i64;
                let w2 = total - w1;
                (
                    Rectangle {
                        point: rect.point,
                        dimension: Dimension { width: w1 as u32, height: rect.dimension.height },
                    },
                    Rectangle {
                        point: Point {
                            x: (rect.point.x as i64 + w1 + eg) as i32,
                            y: rect.point.y,
                        },
                        dimension: Dimension { width: w2 as u32, height: rect.dimension.height },
                    },
                )
            },
            SplitType::Horizontal => {
                let h = rect.dimension.height as i64;
                let g = gap as i64;
                let eg = if g <= h {
                    g
                } else {
                    h
                };
                let total = h - eg;
                proof {
                    assert(0 <= total as int * (ratio.numerator as int) < 0x8000_0000_0000_0000)
                        by (nonlinear_arith)
                        requires
                            0 <= total <= 0xffff_ffffi64 && 0 < ratio.numerator < 0x8000_0000i64,
                    ;
                }
                let h1 = total * ratio.numerator as i64 / ratio.denominator as i64;
                let h2 = total - h1;
                (
                    Rectangle {
                        point: rect.point,
                        dimension: Dimension { width: rect.dimension.width, height: h1 as u32 },
                    },
                    Rectangle {
                        point: Point {
                            x: rect.point.x,
                            y: (rect.point.y as i64 + h1 + eg) as i32,
                        },
                        dimension: Dimension { width: rect.dimension.width, height: h2 as u32 },
                    },
                )
            },
        }
    }

    /// The tree with every rectangle recomputed: a split's area is
    /// partitioned between its children by its axis and ratio with the
    /// window gap between them, and a leaf keeps the area it is handed
    pub open spec fn spec_layout(self, rect: Rectangle, gap: u32) -> Node
        decreases self,
    {
        match self.kind {
            NodeKind::Leaf => Node { rectangle: rect, ..self },
            NodeKind::Split(a, b) => {
                let rects = Self::split_rects_spec(rect, self.split_type, self.split_ratio, gap);
                Node {
                    rectangle: rect,
                    kind: NodeKind::Split(
                        Box::new(a.spec_layout(rects.0, gap)),
                        Box::new(b.spec_layout(rects.1, gap)),
                    ),
                    ..self
                }
            },
        }
    }

    /// Recompute every rectangle below this node inside the given area
    pub fn arrange(self, rect: Rectangle, gap: u32) -> (r: Node)
        requires
            self.ratios_ok(),
            rect.in_bounds(),
        ensures
            r == self.spec_layout(rect, gap),
        decreases self,
    {
        match self.kind {
            NodeKind::Leaf => Node { rectangle: rect, ..self },
            NodeKind::Split(a, b) => {
                let rects = Self::split_rect(rect, self.split_type, self.split_ratio, gap);
                let na = (*a).arrange(rects.0, gap);
                let nb = (*b).arrange(rects.1, gap);
                Node {
                    rectangle: rect,
                    kind: NodeKind::Split(Box::new(na), Box::new(nb)),
                    ..self
                }
            },
        }
    }

    /// The effective minimum size of every node, bottom-up: along a
    /// split's axis the children's minima add, across it the larger one
    /// wins
    pub open spec fn spec_propagate_constraints(self) -> Node
        decreases self,
    {
        match self.kind {
            NodeKind::Leaf => self,
            NodeKind::Split(a, b) => {
                let na = a.spec_propagate_constraints();
                let nb = b.spec_propagate_constraints();
                let cw = match self.split_type {
                    SplitType::Vertical => Self::sat_add_u16(
                        na.constraints.min_width,
                        nb.constraints.min_width,
                    ),
                    SplitType::Horizontal => Self::max_u16(
                        na.constraints.min_width,
                        nb.constraints.min_width,
                    ),
                };
                let ch = match self.split_type {
                    SplitType::Vertical => Self::max_u16(
                        na.constraints.min_height,
                        nb.constraints.min_height,
                    ),
                    SplitType::Horizontal => Self::sat_add_u16(
                        na.constraints.min_height,
                        nb.constraints.min_height,
                    ),
                };
                Node {
                    constraints: Constraint { min_width: cw, min_height: ch },
                    kind: NodeKind::Split(Box::new(na), Box::new(nb)),
                    ..self
                }
            },
        }
    }

    /// Saturating sum of two minima
    pub open spec fn sat_add_u16(a: u16, b: u16) -> u16 {
        if a + b <= u16::MAX {
            (a + b) as u16
        } else {
            u16::MAX
        }
    }

    /// The larger of two minima
    pub open spec fn max_u16(a: u16, b: u16) -> u16 {
        if a >= b {
            a
        } else {
            b
        }
    }

    /// Recompute the effective minimum sizes below this node, bottom-up
    pub fn propagate_constraints(self) -> (r: Node)
        ensures
            r == self.spec_propagate_constraints(),
        decreases self,
    {
        match self.kind {
            NodeKind::Leaf => self,
            NodeKind::Split(a, b) => {
                let na = (*a).propagate_constraints();
                let nb = (*b).propagate_constraints();
                let (aw, ah) = (na.constraints.min_width, na.constraints.min_height);
                let (bw, bh) = (nb.constraints.min_width, nb.constraints.min_height);
                let cw = match self.split_type {
                    SplitType::Vertical => if aw as u32 + bw as u32 <= u16::MAX as u32 {
                        aw + bw
                    } else {
                        u16::MAX
                    },
                    SplitType::Horizontal => if aw >= bw {
                        aw
                    } else {
                        bw
                    },
                };
                let ch = match self.split_type {
                    SplitType::Vertical => if ah >= bh {
                        ah
                    } else {
                        bh
                    },
                    SplitType::Horizontal => if ah as u32 + bh as u32 <= u16::MAX as u32 {
                        ah + bh
                    } else {
                        u16::MAX
                    },
                };
                Node {
                    constraints: Constraint { min_width: cw, min_height: ch },
                    kind: NodeKind::Split(Box::new(na), Box::new(nb)),
                    ..self
                }
            },
        }
    }

    // ============================= Removal ===========================

    /// The node that replaces a collapsed split: its surviving child,
    /// with the split's ratio handed down when removal adjustment is on
    pub open spec fn promote(sibling: Node, parent: Node, adjustment: bool) -> Node {
        if adjustment && sibling.kind is Split {
            Node { split_ratio: parent.split_ratio, ..sibling }
        } else {
            sibling
        }
    }

    /// The tree after removing the target leaf from somewhere below this
    /// node: the leaf's parent split collapses and the sibling is
    /// promoted in its place. A lone leaf at the root is handled by
    /// [`Tree::remove_window`].
    pub open spec fn spec_remove_in(self, target: Xid, adjustment: bool) -> Node
        decreases self,
    {
        match self.kind {
            NodeKind::Leaf => self,
            NodeKind::Split(a, b) => {
                if a.is_leaf_of(target) {
                    Self::promote(*b, self, adjustment)
                } else if b.is_leaf_of(target) {
                    Self::promote(*a, self, adjustment)
                } else {
                    Node {
                        kind: NodeKind::Split(
                            Box::new(a.spec_remove_in(target, adjustment)),
                            Box::new(b.spec_remove_in(target, adjustment)),
                        ),
                        ..self
                    }
                }
            },
        }
    }

    /// Remove the target leaf below this node, collapsing its parent
    /// split and promoting the sibling
    pub fn remove_leaf(self, target: Xid, adjustment: bool) -> (r: Node)
        ensures
            r == self.spec_remove_in(target, adjustment),
        decreases self,
    {
        match self.kind {
            NodeKind::Leaf => self,
            NodeKind::Split(a, b) => {
                let a_is_target = match a.kind {
                    NodeKind::Leaf => a.id == target,
                    NodeKind::Split(_, _) => false,
                };
                if a_is_target {
                    let sib = *b;
                    if adjustment && matches!(sib.kind, NodeKind::Split(_, _)) {
                        Node { split_ratio: self.split_ratio, ..sib }
                    } else {
                        sib
                    }
                } else {
                    let b_is_target = match b.kind {
                        NodeKind::Leaf => b.id == target,
                        NodeKind::Split(_, _) => false,
                    };
                    if b_is_target {
                        let sib = *a;
                        if adjustment && matches!(sib.kind, NodeKind::Split(_, _)) {
                            Node { split_ratio: self.split_ratio, ..sib }
                        } else {
                            sib
                        }
                    } else {
                        let na = (*a).remove_leaf(target, adjustment);
                        let nb = (*b).remove_leaf(target, adjustment);
                        Node { kind: NodeKind::Split(Box::new(na), Box::new(nb)), ..self }
                    }
                }
            },
        }
    }

    /// Collect the windows and rectangles of all leaves, left to right
    pub fn leaves(&self) -> (r: Vec<(Xid, Rectangle)>)
        ensures
            r@ == self.leaves_spec(),
        decreases self,
    {
        let mut out: Vec<(Xid, Rectangle)> = Vec::new();
        self.collect_leaves(&mut out);
        proof {
            assert(out@ =~= Seq::<(Xid, Rectangle)>::empty() + self.leaves_spec());
        }
        out
    }

    /// Append the leaves below this node to the given vector
    fn collect_leaves(&self, out: &mut Vec<(Xid, Rectangle)>)
        ensures
            final(out)@ == old(out)@ + self.leaves_spec(),
        decreases self,
    {
        match &self.kind {
            NodeKind::Leaf => {
                out.push((self.id, self.rectangle));
                proof {
                    assert(final(out)@ =~= old(out)@ + self.leaves_spec());
                }
            },
            NodeKind::Split(a, b) => {
                a.collect_leaves(out);
                b.collect_leaves(out);
                proof {
                    assert(final(out)@ =~= old(out)@ + self.leaves_spec());
                }
            },
        }
    }

    // ======================= Directional focus =======================

    /// Rank two rectangles for candidate ordering; the arithmetic is done
    /// wide, so any pair of rectangles can be ranked
    fn rank_rects(a: Rectangle, b: Rectangle) -> (r: i128)
        ensures
            r == a.rect_cmp_spec(b),
    {
        if a.point.y as i64 >= b.point.y as i64 + b.dimension.height as i64 {
            1
        } else if b.point.y as i64 >= a.point.y as i64 + a.dimension.height as i64 {
            -1
        } else if a.point.x as i64 >= b.point.x as i64 + b.dimension.width as i64 {
            1
        } else if b.point.x as i64 >= a.point.x as i64 + a.dimension.width as i64 {
            -1
        } else {
            proof {
                assert(0 <= (a.dimension.width as int) * (a.dimension.height as int)
                    < 0x10000000000000000) by (nonlinear_arith)
                    requires
                        0 <= a.dimension.width < 0x100000000 && 0 <= a.dimension.height
                            < 0x100000000,
                ;
                assert(0 <= (b.dimension.width as int) * (b.dimension.height as int)
                    < 0x10000000000000000) by (nonlinear_arith)
                    requires
                        0 <= b.dimension.width < 0x100000000 && 0 <= b.dimension.height
                            < 0x100000000,
                ;
            }
            b.dimension.width as i128 * b.dimension.height as i128 - a.dimension.width as i128
                * a.dimension.height as i128
        }
    }

    /// Distance of the facing edges for the tie-break; the arithmetic is
    /// done wide, so any pair of rectangles can be measured
    fn edge_distance(a: Rectangle, rect: Rectangle, direction: Direction) -> (r: i64)
        ensures
            r == a.boundary_distance_spec(rect, direction),
    {
        let r1_max_x = a.point.x as i64 + a.dimension.width as i64 - 1;
        let r1_max_y = a.point.y as i64 + a.dimension.height as i64 - 1;
        let r2_max_x = rect.point.x as i64 + rect.dimension.width as i64 - 1;
        let r2_max_y = rect.point.y as i64 + rect.dimension.height as i64 - 1;
        match direction {
            Direction::North => {
                if r2_max_y > a.point.y as i64 {
                    r2_max_y - a.point.y as i64
                } else {
                    a.point.y as i64 - r2_max_y
                }
            },
            Direction::West => {
                if r2_max_x > a.point.x as i64 {
                    r2_max_x - a.point.x as i64
                } else {
                    a.point.x as i64 - r2_max_x
                }
            },
            Direction::South => {
                if (rect.point.y as i64) < r1_max_y {
                    r1_max_y - rect.point.y as i64
                } else {
                    rect.point.y as i64 - r1_max_y
                }
            },
            Direction::East => {
                if (rect.point.x as i64) < r1_max_x {
                    r1_max_x - rect.point.x as i64
                } else {
                    rect.point.x as i64 - r1_max_x
                }
            },
        }
    }

    /// Is `cand` a directional candidate seen from `cur`?
    pub open spec fn is_candidate(
        cur: Rectangle,
        cand: Rectangle,
        dir: Direction,
        t: Tightness,
    ) -> bool {
        cur.on_dir_side_spec(cand, dir, t)
    }

    /// Does candidate `a` rank ahead of candidate `b`: first by
    /// [`Rectangle::rect_cmp_spec`], then by the distance of the facing
    /// edges as the tie-break
    pub open spec fn better_candidate(
        cur: Rectangle,
        dir: Direction,
        a: Rectangle,
        b: Rectangle,
    ) -> bool {
        let c = a.rect_cmp_spec(b);
        if c != 0 {
            c < 0
        } else {
            cur.boundary_distance_spec(a, dir) < cur.boundary_distance_spec(b, dir)
        }
    }

    /// The leaf the scan settles on: walking the leaves left to right,
    /// a candidate replaces the best seen so far when it ranks ahead of it
    pub open spec fn scan_best(
        cur: Rectangle,
        dir: Direction,
        t: Tightness,
        current: Xid,
        lv: Seq<(Xid, Rectangle)>,
        i: int,
        acc: Option<(Xid, Rectangle)>,
    ) -> Option<(Xid, Rectangle)>
        decreases lv.len() - i,
    {
        if i < 0 || i >= lv.len() {
            acc
        } else {
            let id = lv[i].0;
            let rect = lv[i].1;
            let take = id != current && Self::is_candidate(cur, rect, dir, t) && (acc is None
                || Self::better_candidate(cur, dir, rect, acc.unwrap().1));
            let acc2 = if take {
                Some((id, rect))
            } else {
                acc
            };
            Self::scan_best(cur, dir, t, current, lv, i + 1, acc2)
        }
    }

    /// Whatever the scan settles on is a candidate drawn from the leaves
    pub proof fn lemma_scan_best_candidate(
        cur: Rectangle,
        dir: Direction,
        t: Tightness,
        current: Xid,
        lv: Seq<(Xid, Rectangle)>,
        i: int,
        acc: Option<(Xid, Rectangle)>,
    )
        requires
            match acc {
                Some(p) => lv.contains(p) && p.0 != current && Self::is_candidate(
                    cur,
                    p.1,
                    dir,
                    t,
                ),
                None => true,
            },
        ensures
            match Self::scan_best(cur, dir, t, current, lv, i, acc) {
                Some(p) => lv.contains(p) && p.0 != current && Self::is_candidate(
                    cur,
                    p.1,
                    dir,
                    t,
                ),
                None => true,
            },
        decreases lv.len() - i,
    {
        if 0 <= i < lv.len() {
            let id = lv[i].0;
            let rect = lv[i].1;
            let take = id != current && Self::is_candidate(cur, rect, dir, t) && (acc is None
                || Self::better_candidate(cur, dir, rect, acc.unwrap().1));
            let acc2 = if take {
                Some((id, rect))
            } else {
                acc
            };
            if take {
                assert(lv[i] == (id, rect));
                assert(lv.contains((id, rect)));
            }
            Self::lemma_scan_best_candidate(cur, dir, t, current, lv, i + 1, acc2);
        }
    }

    /// Find the leaf on the `dir` side of the leaf holding `current`:
    /// the tree's leaves are enumerated, filtered by the directional
    /// predicate at the given tightness, and ranked by rectangle order
    /// with edge distance as the tie-break
    pub fn neighbor(&self, current: Xid, dir: Direction, tightness: Tightness) -> (r: Option<
        Xid,
    >)
        ensures
            ({
                let lv = self.leaves_spec();
                match r {
                    Some(nid) => exists|cr: Rectangle|
                        {
                            &&& #[trigger] Self::first_rect_spec(lv, current) == Some(cr)
                            &&& Self::scan_best(cr, dir, tightness, current, lv, 0, None) matches
                                Some(p) && p.0 == nid && lv.contains(p) && p.0 != current
                                && Self::is_candidate(cr, p.1, dir, tightness)
                        },
                    None => match Self::first_rect_spec(lv, current) {
                        Some(cr) => Self::scan_best(cr, dir, tightness, current, lv, 0, None)
                            is None,
                        None => true,
                    },
                }
            }),
    {
        let leaves = self.leaves();
        let ghost lv = self.leaves_spec();
        // locate the current leaf's rectangle
        let mut i: usize = 0;
        let mut cur: Option<Rectangle> = None;
        while i < leaves.len() && cur.is_none()
            invariant
                i <= lv.len(),
                leaves@ == lv,
                lv == self.leaves_spec(),
                cur == if Self::first_rect_spec(lv.subrange(0, i as int), current) is Some {
                    Self::first_rect_spec(lv.subrange(0, i as int), current)
                } else {
                    None::<Rectangle>
                },
            decreases lv.len() - i,
        {
            proof {
                Self::lemma_first_rect_step(lv, current, i as int);
            }
            if leaves[i].0 == current {
                cur = Some(leaves[i].1);
            }
            i = i + 1;
        }
        proof {
            if i as int == lv.len() {
                assert(lv.subrange(0, lv.len() as int) =~= lv);
            } else {
                Self::lemma_first_rect_found(lv, current, i as int);
            }
        }
        let cur_rect = match cur {
            Some(c) => c,
            None => {
                return None;
            },
        };
        proof {
            assert(Self::first_rect_spec(lv, current) == Some(cur_rect));
        }
        // scan for the best candidate
        let mut best: Option<(Xid, Rectangle)> = None;
        let mut k: usize = 0;
        while k < leaves.len()
            invariant
                k <= lv.len(),
                leaves@ == lv,
                lv == self.leaves_spec(),
                Self::scan_best(cur_rect, dir, tightness, current, lv, k as int, best)
                    == Self::scan_best(cur_rect, dir, tightness, current, lv, 0, None),
                match best {
                    Some(p) => lv.contains(p),
                    None => true,
                },
            decreases lv.len() - k,
        {
            let id = leaves[k].0;
            let rect = leaves[k].1;
            let take = if id != current && cur_rect.on_dir_side(rect, dir, tightness) {
                match &best {
                    None => true,
                    Some(p) => {
                        let c = Self::rank_rects(rect, p.1);
                        if c != 0 {
                            c < 0
                        } else {
                            Self::edge_distance(cur_rect, rect, dir) < Self::edge_distance(
                                cur_rect,
                                p.1,
                                dir,
                            )
                        }
                    },
                }
            } else {
                false
            };
            if take {
                best = Some((id, rect));
                proof {
                    assert(lv[k as int] == (id, rect));
                    assert(lv.contains((id, rect)));
                }
            }
            k = k + 1;
        }
        proof {
            Self::lemma_scan_best_candidate(cur_rect, dir, tightness, current, lv, 0, None);
        }
        match best {
            Some(p) => Some(p.0),
            None => None,
        }
    }

    /// The rectangle of the first leaf entry holding the given window
    pub open spec fn first_rect_spec(lv: Seq<(Xid, Rectangle)>, id: Xid) -> Option<Rectangle>
        decreases lv.len(),
    {
        if lv.len() == 0 {
            None
        } else if lv[0].0 == id {
            Some(lv[0].1)
        } else {
            Self::first_rect_spec(lv.drop_first(), id)
        }
    }

    /// Scanning one entry further extends the searched prefix
    proof fn lemma_first_rect_step(lv: Seq<(Xid, Rectangle)>, id: Xid, i: int)
        requires
            0 <= i < lv.len(),
            Self::first_rect_spec(lv.subrange(0, i), id) is None,
        ensures
            Self::first_rect_spec(lv.subrange(0, i + 1), id) == if lv[i].0 == id {
                Some(lv[i].1)
            } else {
                None::<Rectangle>
            },
        decreases i,
    {
        let pre = lv.subrange(0, i);
        let pre1 = lv.subrange(0, i + 1);
        if i == 0 {
            if lv[0].0 == id {
                assert(pre1[0] == lv[0]);
            } else {
                assert(pre1[0] == lv[0]);
                assert(pre1.drop_first() =~= Seq::<(Xid, Rectangle)>::empty());
            }
        } else {
            assert(pre[0] == lv[0]);
            assert(pre1[0] == lv[0]);
            if lv[0].0 == id {
            } else {
                assert(pre.drop_first() =~= lv.drop_first().subrange(0, i - 1));
                assert(pre1.drop_first() =~= lv.drop_first().subrange(0, i));
                Self::lemma_first_rect_step(lv.drop_first(), id, i - 1);
                assert(lv.drop_first()[i - 1] == lv[i]);
            }
        }
    }

    /// A full-prefix search that stopped at `i` found the entry there
    proof fn lemma_first_rect_found(lv: Seq<(Xid, Rectangle)>, id: Xid, i: int)
        requires
            0 <= i <= lv.len(),
            Self::first_rect_spec(lv.subrange(0, i), id) is Some,
        ensures
            Self::first_rect_spec(lv, id) == Self::first_rect_spec(lv.subrange(0, i), id),
        decreases i,
    {
        let pre = lv.subrange(0, i);
        if i == 0 {
        } else {
            assert(pre[0] == lv[0]);
            if lv[0].0 == id {
            } else {
                assert(pre.drop_first() =~= lv.drop_first().subrange(0, i - 1));
                Self::lemma_first_rect_found(lv.drop_first(), id, i - 1);
            }
        }
    }


    // ============================== Laws =============================

    /// Inserting a window keeps every split ratio proper, as long as the
    /// configured default ratio is proper: a preselected ratio is proper
    /// by the node invariant, and both children of the new split carry
    /// proper ratios of their own
    pub proof fn lemma_insert_ratios_ok(
        self,
        target: Xid,
        new_id: Xid,
        s: LayoutSettings,
        depth: nat,
    )
        requires
            self.ratios_ok(),
            s.split_ratio.is_proper(),
        ensures
            self.spec_insert(target, new_id, s, depth).ratios_ok(),
        decreases self,
    {
        match self.kind {
            NodeKind::Leaf => {
                if self.id == target {
                    let sp = Self::split_of_leaf(self, new_id, s, depth);
                    match sp.kind {
                        NodeKind::Split(a, b) => {
                            assert(a.ratios_ok());
                            assert(b.ratios_ok());
                        },
                        NodeKind::Leaf => {},
                    }
                }
            },
            NodeKind::Split(a, b) => {
                a.lemma_insert_ratios_ok(target, new_id, s, depth + 1);
                b.lemma_insert_ratios_ok(target, new_id, s, depth + 1);
            },
        }
    }

    /// Removing a window keeps every split ratio proper: the promoted
    /// sibling keeps its own ratio, or inherits the collapsed parent's
    pub proof fn lemma_remove_ratios_ok(self, target: Xid, adjustment: bool)
        requires
            self.ratios_ok(),
        ensures
            self.spec_remove_in(target, adjustment).ratios_ok(),
        decreases self,
    {
        match self.kind {
            NodeKind::Leaf => {},
            NodeKind::Split(a, b) => {
                if a.is_leaf_of(target) {
                    let pb = Self::promote(*b, self, adjustment);
                    match b.kind {
                        NodeKind::Split(b1, b2) => {
                            assert(b.ratios_ok());
                            reveal_with_fuel(Node::ratios_ok, 3);
                            assert(b1.ratios_ok() && b2.ratios_ok());
                            assert(pb.ratios_ok());
                        },
                        NodeKind::Leaf => {
                            assert(pb.ratios_ok());
                        },
                    }
                } else if b.is_leaf_of(target) {
                    let pa = Self::promote(*a, self, adjustment);
                    match a.kind {
                        NodeKind::Split(a1, a2) => {
                            assert(a.ratios_ok());
                            reveal_with_fuel(Node::ratios_ok, 3);
                            assert(a1.ratios_ok() && a2.ratios_ok());
                            assert(pa.ratios_ok());
                        },
                        NodeKind::Leaf => {
                            assert(pa.ratios_ok());
                        },
                    }
                } else {
                    a.lemma_remove_ratios_ok(target, adjustment);
                    b.lemma_remove_ratios_ok(target, adjustment);
                }
            },
        }
    }

    /// The layout pass changes rectangles only, so it keeps every split
    /// ratio proper
    pub proof fn lemma_layout_ratios_ok(self, rect: Rectangle, gap: u32)
        requires
            self.ratios_ok(),
        ensures
            self.spec_layout(rect, gap).ratios_ok(),
        decreases self,
    {
        match self.kind {
            NodeKind::Leaf => {},
            NodeKind::Split(a, b) => {
                let rects = Self::split_rects_spec(rect, self.split_type, self.split_ratio, gap);
                a.lemma_layout_ratios_ok(rects.0, gap);
                b.lemma_layout_ratios_ok(rects.1, gap);
            },
        }
    }

    /// Is the tree consistently tiled for the given gap: below every
    /// split, the two children cover exactly the rectangles its axis,
    /// ratio and the gap assign them
    pub open spec fn tiled(self, gap: u32) -> bool
        decreases self,
    {
        match self.kind {
            NodeKind::Leaf => true,
            NodeKind::Split(a, b) => {
                let rects = Self::split_rects_spec(
                    self.rectangle,
                    self.split_type,
                    self.split_ratio,
                    gap,
                );
                &&& a.rectangle == rects.0
                &&& b.rectangle == rects.1
                &&& a.tiled(gap)
                &&& b.tiled(gap)
            },
        }
    }

    /// The layout pass tiles the tree: afterwards the root covers
    /// exactly the rectangle it was handed, and below every split the
    /// children partition their parent's rectangle by its axis and ratio
    /// with the window gap left free between them
    pub proof fn lemma_layout_tiles(self, rect: Rectangle, gap: u32)
        ensures
            self.spec_layout(rect, gap).rectangle == rect,
            self.spec_layout(rect, gap).tiled(gap),
        decreases self,
    {
        match self.kind {
            NodeKind::Leaf => {},
            NodeKind::Split(a, b) => {
                let rects = Self::split_rects_spec(rect, self.split_type, self.split_ratio, gap);
                a.lemma_layout_tiles(rects.0, gap);
                b.lemma_layout_tiles(rects.1, gap);
            },
        }
    }

}

// =============================== Tree ===============================

/// A desktop's tiling tree: empty, or rooted in a [`Node`]
pub struct Tree {
    /// The root node, absent while no window is managed
    pub root: Option<Box<Node>>,
}

impl Tree {
    /// The windows and rectangles of all leaves, left to right
    pub open spec fn leaves_view(self) -> Seq<(Xid, Rectangle)> {
        match self.root {
            Some(r) => r.leaves_spec(),
            None => Seq::empty(),
        }
    }

    /// The windows of all leaves, left to right
    pub open spec fn leaf_ids_view(self) -> Seq<Xid> {
        match self.root {
            Some(r) => r.leaf_ids(),
            None => Seq::empty(),
        }
    }

    /// Every split ratio in the tree is a proper fraction
    pub open spec fn ratios_ok(self) -> bool {
        match self.root {
            Some(r) => r.ratios_ok(),
            None => true,
        }
    }

    /// Create an empty [`Tree`]
    pub fn new() -> (r: Self)
        ensures
            r.root is None,
            r.leaves_view() == Seq::<(Xid, Rectangle)>::empty(),
    {
        Self { root: None }
    }

    /// Insert a window: into an empty tree it becomes the root leaf, and
    /// otherwise it becomes the sibling of the target leaf, which turns
    /// into the split that [`Node::split_of_leaf`] describes
    pub fn insert_window(&mut self, target: Xid, new_id: Xid, s: &LayoutSettings)
        requires
            match old(self).root {
                Some(r) => r.height() <= u32::MAX,
                None => true,
            },
        ensures
            final(self).root == match old(self).root {
                None => Some(
                    Box::new(
                        Node::fresh_leaf(
                            new_id,
                            Rectangle {
                                point: Point { x: 0, y: 0 },
                                dimension: Dimension { width: 0, height: 0 },
                            },
                            SplitType::Vertical,
                        ),
                    ),
                ),
                Some(r) => Some(Box::new(r.spec_insert(target, new_id, *s, 0))),
            },
            old(self).ratios_ok() && s.split_ratio.is_proper() ==> final(self).ratios_ok(),
    {
        let root = self.root.take();
        match root {
            None => {
                self.root = Some(Box::new(Node::new_leaf(new_id, Rectangle::zeroed())));
            },
            Some(r) => {
                proof {
                    if old(self).ratios_ok() && s.split_ratio.is_proper() {
                        r.lemma_insert_ratios_ok(target, new_id, *s, 0);
                    }
                }
                let nr = (*r).insert_sibling(target, new_id, s, 0);
                self.root = Some(Box::new(nr));
            },
        }
    }

    /// Remove a window's leaf: a lone root leaf empties the tree, and
    /// any other leaf's parent split collapses into the promoted sibling
    pub fn remove_window(&mut self, target: Xid, adjustment: bool)
        ensures
            final(self).root == match old(self).root {
                None => None::<Box<Node>>,
                Some(r) => if r.is_leaf_of(target) {
                    None::<Box<Node>>
                } else {
                    Some(Box::new(r.spec_remove_in(target, adjustment)))
                },
            },
            old(self).ratios_ok() ==> final(self).ratios_ok(),
    {
        let root = self.root.take();
        match root {
            None => {},
            Some(r) => {
                let root_is_target = match r.kind {
                    NodeKind::Leaf => r.id == target,
                    NodeKind::Split(_, _) => false,
                };
                if root_is_target {
                    self.root = None;
                } else {
                    proof {
                        if old(self).ratios_ok() {
                            r.lemma_remove_ratios_ok(target, adjustment);
                        }
                    }
                    let nr = (*r).remove_leaf(target, adjustment);
                    self.root = Some(Box::new(nr));
                }
            },
        }
    }

    /// Recompute every rectangle: the root covers the desktop's rectangle
    /// inset by the padding, and splits partition it downward with the
    /// window gap between siblings
    pub fn arrange(&mut self, rect: Rectangle, s: &LayoutSettings)
        requires
            old(self).ratios_ok(),
            rect.in_bounds(),
        ensures
            final(self).root == match old(self).root {
                None => None::<Box<Node>>,
                Some(r) => Some(Box::new(r.spec_layout(rect, s.window_gap))),
            },
            final(self).ratios_ok(),
            match final(self).root {
                Some(r) => r.rectangle == rect && r.tiled(s.window_gap),
                None => true,
            },
    {
        let root = self.root.take();
        match root {
            None => {},
            Some(r) => {
                proof {
                    r.lemma_layout_ratios_ok(rect, s.window_gap);
                    r.lemma_layout_tiles(rect, s.window_gap);
                }
                let nr = (*r).arrange(rect, s.window_gap);
                self.root = Some(Box::new(nr));
            },
        }
    }

    /// Collect the windows and rectangles of all leaves, left to right
    pub fn leaves(&self) -> (r: Vec<(Xid, Rectangle)>)
        ensures
            r@ == self.leaves_view(),
    {
        match &self.root {
            Some(r) => r.leaves(),
            None => Vec::new(),
        }
    }

    /// Find the window on the `dir` side of the window `current`
    pub fn neighbor(&self, current: Xid, dir: Direction, tightness: Tightness) -> (r: Option<
        Xid,
    >)
        ensures
            match self.root {
                Some(rt) => r == match Node::first_rect_spec(rt.leaves_spec(), current) {
                    Some(cr) => match Node::scan_best(
                        cr,
                        dir,
                        tightness,
                        current,
                        rt.leaves_spec(),
                        0,
                        None,
                    ) {
                        Some(p) => Some(p.0),
                        None => None::<Xid>,
                    },
                    None => None::<Xid>,
                },
                None => r is None,
            },
    {
        match &self.root {
            Some(rt) => rt.neighbor(current, dir, tightness),
            None => None,
        }
    }
}

} // verus!
