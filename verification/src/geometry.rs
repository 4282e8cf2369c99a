//! Value types for screen geometry — points, dimensions, paddings,
//! rectangles — together with the pure arithmetic and the directional
//! spatial predicates the tiling tree relies on.

use crate::types::{Corner, Direction, Tightness};
use vstd::prelude::*;

verus! {

/// Absolute value of an integer, used for edge distances
pub open spec fn abs_int(a: int) -> int {
    if a >= 0 {
        a
    } else {
        -a
    }
}

// =============================== Ratio ==============================

/// A ratio `numerator / denominator`, used for split fractions.
#[derive(Debug, Clone, Copy, PartialEq, Eq, Structural)]
pub struct Ratio {
    /// The numerator of the [`Ratio`]
    pub numerator: i32,
    /// The denominator of the [`Ratio`]
    pub denominator: i32,
}

impl Ratio {
    /// Create a new [`Ratio`]
    pub fn new(numerator: i32, denominator: i32) -> (r: Self)
        ensures
            r.numerator == numerator,
            r.denominator == denominator,
    {
        Self { numerator, denominator }
    }

    /// A proper fraction in (0, 1): the only split ratios the tree accepts.
    pub open spec fn is_proper(self) -> bool {
        0 < self.numerator < self.denominator
    }

    /// The first share of `whole` under this ratio, rounded down.
    pub open spec fn share_of(self, whole: int) -> int {
        whole * self.numerator / self.denominator as int
    }
}

// ============================== Padding =============================

/// Padding around a window, one amount per side.
#[derive(Debug, Default, Clone, Copy, PartialEq, Eq, Structural)]
pub struct Padding {
    /// Padding on the top
    pub top: u32,
    /// Padding on the right
    pub right: u32,
    /// Padding on the bottom
    pub bottom: u32,
    /// Padding on the left
    pub left: u32,
}

/// Extents of a window's decoration, structurally the same as a [`Padding`]
pub type Extents = Padding;

impl Padding {
    /// Create a new [`Padding`]
    pub fn new(top: u32, right: u32, bottom: u32, left: u32) -> (r: Self)
        ensures
            r == (Padding { top, right, bottom, left }),
    {
        Self { top, right, bottom, left }
    }

    /// A [`Padding`] of zero on every side
    pub fn empty() -> (r: Self)
        ensures
            r == (Padding { top: 0u32, right: 0u32, bottom: 0u32, left: 0u32 }),
    {
        Self { top: 0, right: 0, bottom: 0, left: 0 }
    }
}

// =============================== Point ==============================

/// A point on the screen. As part of a [`Rectangle`] it is the top-left
/// corner.
#[derive(Debug, Default, Clone, Copy, PartialEq, Eq, Structural)]
pub struct Point {
    /// X-coordinate
    pub x: i32,
    /// Y-coordinate
    pub y: i32,
}

impl Point {
    /// Create a new [`Point`]
    pub fn new(x: i32, y: i32) -> (r: Self)
        ensures
            r == (Point { x, y }),
    {
        Self { x, y }
    }

    /// Return the `x` and `y` coordinates as a tuple
    pub fn as_tuple(self) -> (r: (i32, i32))
        ensures
            r.0 == self.x,
            r.1 == self.y,
    {
        (self.x, self.y)
    }

    /// Check if the [`Point`] is `(0, 0)`
    pub fn is_zero(self) -> (r: bool)
        ensures
            r <==> (self.x == 0 && self.y == 0),
    {
        self.x == 0 && self.y == 0
    }

    /// Check if the [`Point`] is contained within the given [`Rectangle`]
    pub fn is_inside(self, rect: Rectangle) -> (r: bool)
        ensures
            r == rect.contains_pt(self.x as int, self.y as int),
    {
        rect.is_inside(self)
    }

    /// The given [`Rectangle`]'s top-left corner translated to its center
    pub fn from_center_of_rect(rect: Rectangle) -> (r: Self)
        requires
            rect.point.x + rect.dimension.width as int / 2 <= i32::MAX,
            rect.point.y + rect.dimension.height as int / 2 <= i32::MAX,
        ensures
            r.x == rect.point.x + rect.dimension.width as int / 2,
            r.y == rect.point.y + rect.dimension.height as int / 2,
    {
        let center = rect.dimension.center();
        Self { x: rect.point.x + center.x, y: rect.point.y + center.y }
    }

    /// The [`Point`] at the center of the given [`Dimension`]
    pub fn from_center_of_dim(dim: Dimension) -> (r: Self)
        ensures
            r.x == dim.width as int / 2,
            r.y == dim.height as int / 2,
    {
        dim.center()
    }

    /// This [`Point`] relative to the given [`Point`] as origin
    pub fn relative(self, p: Self) -> (r: Self)
        requires
            i32::MIN <= self.x - p.x <= i32::MAX,
            i32::MIN <= self.y - p.y <= i32::MAX,
        ensures
            r.x == self.x - p.x,
            r.y == self.y - p.y,
    {
        Self { x: self.x - p.x, y: self.y - p.y }
    }
}

// ============================= Dimension ============================

/// A width and a height: the size of a [`Rectangle`]
#[derive(Debug, Clone, Copy, PartialEq, Eq, Structural)]
pub struct Dimension {
    /// The width of the [`Rectangle`]
    pub width: u32,
    /// The height of the [`Rectangle`]
    pub height: u32,
}

impl Dimension {
    /// Create a new [`Dimension`]
    pub fn new(width: u32, height: u32) -> (r: Self)
        ensures
            r == (Dimension { width, height }),
    {
        Self { width, height }
    }

    /// Return the `width` and `height` as a tuple
    pub fn as_tuple(self) -> (r: (u32, u32))
        ensures
            r.0 == self.width,
            r.1 == self.height,
    {
        (self.width, self.height)
    }

    /// Check if the [`Dimension`] is `(0, 0)`
    pub fn is_zero(self) -> (r: bool)
        ensures
            r <==> (self.width == 0 && self.height == 0),
    {
        self.width == 0 && self.height == 0
    }

    /// The [`Point`] at the center of this [`Dimension`]
    pub fn center(self) -> (r: Point)
        ensures
            r.x == self.width as int / 2,
            r.y == self.height as int / 2,
    {
        Point { x: (self.width / 2) as i32, y: (self.height / 2) as i32 }
    }

    /// The [`Corner`] of this [`Dimension`] nearest to the given [`Point`]
    pub fn nearest_corner(self, p: Point) -> (r: Corner)
        ensures
            ({
                let cx = self.width as int / 2;
                let cy = self.height as int / 2;
                r == if p.x >= cx && p.y >= cy {
                    Corner::BottomRight
                } else if p.x >= cx {
                    Corner::TopRight
                } else if p.y >= cy {
                    Corner::BottomLeft
                } else {
                    Corner::TopLeft
                }
            }),
    {
        let center = self.center();
        if p.x >= center.x && p.y >= center.y {
            Corner::BottomRight
        } else if p.x >= center.x {
            Corner::TopRight
        } else if p.y >= center.y {
            Corner::BottomLeft
        } else {
            Corner::TopLeft
        }
    }

    /// Grow this [`Dimension`] by a [`Padding`] on every side
    pub fn outset(self, padding: Padding) -> (r: Self)
        requires
            self.width + padding.left + padding.right <= u32::MAX,
            self.height + padding.top + padding.bottom <= u32::MAX,
        ensures
            r.width == self.width + padding.left + padding.right,
            r.height == self.height + padding.top + padding.bottom,
    {
        Self {
            width: self.width + padding.left + padding.right,
            height: self.height + padding.top + padding.bottom,
        }
    }

    /// Shrink this [`Dimension`] by a [`Padding`] on every side
    pub fn inset(self, padding: Padding) -> (r: Self)
        requires
            self.width >= padding.left + padding.right,
            self.height >= padding.top + padding.bottom,
        ensures
            r.width == self.width - padding.left - padding.right,
            r.height == self.height - padding.top - padding.bottom,
    {
        Self {
            width: self.width - padding.left - padding.right,
            height: self.height - padding.top - padding.bottom,
        }
    }
}

// ============================= Rectangle ============================

/// An axis-aligned area of the screen: top-left corner plus size
#[derive(Debug, Clone, Copy, PartialEq, Eq, Structural)]
pub struct Rectangle {
    /// The top-left corner of the rectangle
    pub point: Point,
    /// The width and height of the rectangle
    pub dimension: Dimension,
}

impl Rectangle {
    /// Left edge coordinate
    pub open spec fn x1(self) -> int {
        self.point.x as int
    }

    /// Top edge coordinate
    pub open spec fn y1(self) -> int {
        self.point.y as int
    }

    /// Width as an integer
    pub open spec fn w(self) -> int {
        self.dimension.width as int
    }

    /// Height as an integer
    pub open spec fn h(self) -> int {
        self.dimension.height as int
    }

    /// Coordinate one past the right edge
    pub open spec fn x2(self) -> int {
        self.x1() + self.w()
    }

    /// Coordinate one past the bottom edge
    pub open spec fn y2(self) -> int {
        self.y1() + self.h()
    }

    /// Largest x-coordinate still inside the rectangle
    pub open spec fn xmax(self) -> int {
        self.x1() + self.w() - 1
    }

    /// Largest y-coordinate still inside the rectangle
    pub open spec fn ymax(self) -> int {
        self.y1() + self.h() - 1
    }

    /// Area of the rectangle
    pub open spec fn area_spec(self) -> int {
        self.w() * self.h()
    }

    /// The rectangle's far corner fits the coordinate type
    pub open spec fn in_bounds(self) -> bool {
        self.x2() <= i32::MAX && self.y2() <= i32::MAX
    }

    /// The rectangle's area fits the comparison arithmetic
    pub open spec fn area_bounded(self) -> bool {
        self.area_spec() <= i32::MAX
    }

    /// Inclusive bounds test: is `(px, py)` within the rectangle, where both
    /// the left/top and the right/bottom edges count as inside?
    pub open spec fn contains_pt(self, px: int, py: int) -> bool {
        &&& self.x1() <= px <= self.x2()
        &&& self.y1() <= py <= self.y2()
    }

    /// Create a new [`Rectangle`]
    pub fn new(x: i32, y: i32, width: u32, height: u32) -> (r: Self)
        ensures
            r == (Rectangle { point: Point { x, y }, dimension: Dimension { width, height } }),
    {
        Self { point: Point { x, y }, dimension: Dimension { width, height } }
    }

    /// Create a zeroed [`Rectangle`]
    pub fn zeroed() -> (r: Self)
        ensures
            r == (Rectangle {
                point: Point { x: 0i32, y: 0i32 },
                dimension: Dimension { width: 0u32, height: 0u32 },
            }),
            r.x1() == 0 && r.y1() == 0 && r.w() == 0 && r.h() == 0,
    {
        Self { point: Point { x: 0, y: 0 }, dimension: Dimension { width: 0, height: 0 } }
    }

    /// Check if the [`Rectangle`]'s dimensions are zero
    pub fn is_zero(&self) -> (r: bool)
        ensures
            r <==> (self.w() == 0 && self.h() == 0),
    {
        self.dimension.is_zero()
    }

    /// Return the area of the [`Rectangle`]
    pub fn area(&self) -> (r: u32)
        requires
            self.area_spec() <= u32::MAX,
        ensures
            r == self.area_spec(),
    {
        self.dimension.width * self.dimension.height
    }

    /// Check whether two [`Rectangle`]s are equal in corner and size
    pub fn equivalent(self, other: Self) -> (r: bool)
        ensures
            r <==> self == other,
    {
        self.point.x == other.point.x && self.point.y == other.point.y
            && self.dimension.width == other.dimension.width
            && self.dimension.height == other.dimension.height
    }

    /// Return the top-right [`Point`]
    pub fn top_right(&self) -> (r: Point)
        requires
            self.x2() <= i32::MAX,
        ensures
            r.x == self.x2(),
            r.y == self.y1(),
    {
        Point { x: (self.point.x as i64 + self.dimension.width as i64) as i32, y: self.point.y }
    }

    /// Return the bottom-left [`Point`]
    pub fn bottom_left(&self) -> (r: Point)
        requires
            self.y2() <= i32::MAX,
        ensures
            r.x == self.x1(),
            r.y == self.y2(),
    {
        Point { x: self.point.x, y: (self.point.y as i64 + self.dimension.height as i64) as i32 }
    }

    /// Return the bottom-right [`Point`]
    pub fn bottom_right(&self) -> (r: Point)
        requires
            self.x2() <= i32::MAX,
            self.y2() <= i32::MAX,
        ensures
            r.x == self.x2(),
            r.y == self.y2(),
    {
        Point {
            x: (self.point.x as i64 + self.dimension.width as i64) as i32,
            y: (self.point.y as i64 + self.dimension.height as i64) as i32,
        }
    }

    /// Test whether the given [`Point`] is contained within the
    /// [`Rectangle`], edges included
    pub fn is_inside(&self, point: Point) -> (r: bool)
        ensures
            r == self.contains_pt(point.x as int, point.y as int),
    {
        let px = point.x as i64;
        let py = point.y as i64;
        px >= self.point.x as i64 && px <= self.point.x as i64 + self.dimension.width as i64
            && py >= self.point.y as i64 && py <= self.point.y as i64
            + self.dimension.height as i64
    }

    /// Test whether the given [`Rectangle`] is contained within this one:
    /// both its top-left and its bottom-right corner lie inside
    pub fn contains(&self, rect: Self) -> (r: bool)
        ensures
            r <==> (self.contains_pt(rect.x1(), rect.y1()) && self.contains_pt(
                rect.x2(),
                rect.y2(),
            )),
    {
        let inside_tl = self.is_inside(rect.point);
        let x2 = rect.point.x as i64 + rect.dimension.width as i64;
        let y2 = rect.point.y as i64 + rect.dimension.height as i64;
        let inside_br = x2 >= self.point.x as i64 && x2 <= self.point.x as i64
            + self.dimension.width as i64 && y2 >= self.point.y as i64 && y2 <= self.point.y
            as i64 + self.dimension.height as i64;
        inside_tl && inside_br
    }

    /// Cheap overlap test: does either rectangle's top-left corner lie
    /// inside the other?
    pub fn occludes(&self, rect: Self) -> (r: bool)
        ensures
            r <==> (self.contains_pt(rect.x1(), rect.y1()) || rect.contains_pt(
                self.x1(),
                self.y1(),
            )),
    {
        self.is_inside(rect.point) || rect.is_inside(self.point)
    }

    /// Distance between the facing edges of the two rectangles along the
    /// axis implied by `direction`: North/South measure the y-axis,
    /// East/West the x-axis, each from the relevant maximal corner.
    pub open spec fn boundary_distance_spec(self, rect: Self, direction: Direction) -> int {
        match direction {
            Direction::North => abs_int(rect.ymax() - self.y1()),
            Direction::West => abs_int(rect.xmax() - self.x1()),
            Direction::South => abs_int(self.ymax() - rect.y1()),
            Direction::East => abs_int(self.xmax() - rect.x1()),
        }
    }

    /// Get the distance between this [`Rectangle`]'s edge facing
    /// `direction` and the opposite edge of the other [`Rectangle`]
    pub fn boundary_distance(&self, rect: Self, direction: Direction) -> (r: u32)
        requires
            self.boundary_distance_spec(rect, direction) <= u32::MAX,
        ensures
            r == self.boundary_distance_spec(rect, direction),
    {
        let r1_max_x = self.point.x as i64 + self.dimension.width as i64 - 1;
        let r1_max_y = self.point.y as i64 + self.dimension.height as i64 - 1;
        let r2_max_x = rect.point.x as i64 + rect.dimension.width as i64 - 1;
        let r2_max_y = rect.point.y as i64 + rect.dimension.height as i64 - 1;

        let d: i64 = match direction {
            Direction::North => {
                if r2_max_y > self.point.y as i64 {
                    r2_max_y - self.point.y as i64
                } else {
                    self.point.y as i64 - r2_max_y
                }
            },
            Direction::West => {
                if r2_max_x > self.point.x as i64 {
                    r2_max_x - self.point.x as i64
                } else {
                    self.point.x as i64 - r2_max_x
                }
            },
            Direction::South => {
                if (rect.point.y as i64) < r1_max_y {
                    r1_max_y - rect.point.y as i64
                } else {
                    rect.point.y as i64 - r1_max_y
                }
            },
            Direction::East => {
                if (rect.point.x as i64) < r1_max_x {
                    r1_max_x - rect.point.x as i64
                } else {
                    rect.point.x as i64 - r1_max_x
                }
            },
        };
        d as u32
    }

    /// First stage of the directional test: reject candidates on the wrong
    /// side of the primary axis. `Low` only rejects a candidate strictly
    /// beyond this rectangle's far edge; `High` demands the candidate's
    /// near edge lie strictly past this rectangle's corresponding edge.
    pub open spec fn dir_axis_admits(
        self,
        rect: Self,
        direction: Direction,
        tightness: Tightness,
    ) -> bool {
        match tightness {
            Tightness::Low => match direction {
                Direction::North => !(rect.y1() > self.ymax()),
                Direction::West => !(rect.x1() > self.xmax()),
                Direction::South => !(rect.ymax() < self.y1()),
                Direction::East => !(rect.xmax() < self.x1()),
            },
            Tightness::High => match direction {
                Direction::North => rect.y1() < self.y1(),
                Direction::West => rect.x1() < self.x1(),
                Direction::South => rect.ymax() > self.ymax(),
                Direction::East => rect.xmax() > self.xmax(),
            },
        }
    }

    /// Second stage of the directional test: the candidate's span along the
    /// perpendicular axis must overlap, contain, or be contained in this
    /// rectangle's span.
    pub open spec fn perp_spans_overlap(self, rect: Self, direction: Direction) -> bool {
        match direction {
            Direction::North | Direction::South => {
                ||| self.x1() <= rect.x1() <= self.xmax()
                ||| self.x1() <= rect.xmax() <= self.xmax()
                ||| rect.x1() < self.x1() < rect.xmax()
            },
            Direction::West | Direction::East => {
                ||| self.y1() <= rect.y1() <= self.ymax()
                ||| self.y1() <= rect.ymax() <= self.ymax()
                ||| rect.y1() < self.y1() < rect.ymax()
            },
        }
    }

    /// Is the other [`Rectangle`] positioned on the `direction` side of
    /// this one? Both stages of the test must pass.
    pub open spec fn on_dir_side_spec(
        self,
        rect: Self,
        direction: Direction,
        tightness: Tightness,
    ) -> bool {
        self.dir_axis_admits(rect, direction, tightness) && self.perp_spans_overlap(
            rect,
            direction,
        )
    }

    /// Is the given [`Rectangle`] on the [`Direction`] side of this one?
    pub fn on_dir_side(&self, rect: Self, direction: Direction, tightness: Tightness) -> (r:
        bool)
        ensures
            r == self.on_dir_side_spec(rect, direction, tightness),
    {
        let r1_x = self.point.x as i64;
        let r1_y = self.point.y as i64;
        let r1_max_x = r1_x + self.dimension.width as i64 - 1;
        let r1_max_y = r1_y + self.dimension.height as i64 - 1;
        let r2_x = rect.point.x as i64;
        let r2_y = rect.point.y as i64;
        let r2_max_x = r2_x + rect.dimension.width as i64 - 1;
        let r2_max_y = r2_y + rect.dimension.height as i64 - 1;

        let admitted = match tightness {
            Tightness::Low => match direction {
                Direction::North => !(r2_y > r1_max_y),
                Direction::West => !(r2_x > r1_max_x),
                Direction::South => !(r2_max_y < r1_y),
                Direction::East => !(r2_max_x < r1_x),
            },
            Tightness::High => match direction {
                Direction::North => r2_y < r1_y,
                Direction::West => r2_x < r1_x,
                Direction::South => r2_max_y > r1_max_y,
                Direction::East => r2_max_x > r1_max_x,
            },
        };
        if !admitted {
            return false;
        }
        match direction {
            Direction::North | Direction::South => {
                (r2_x >= r1_x && r2_x <= r1_max_x) || (r2_max_x >= r1_x && r2_max_x <= r1_max_x)
                    || (r1_x > r2_x && r1_x < r2_max_x)
            },
            Direction::West | Direction::East => {
                (r2_y >= r1_y && r2_y <= r1_max_y) || (r2_max_y >= r1_y && r2_max_y <= r1_max_y)
                    || (r1_y > r2_y && r1_y < r2_max_y)
            },
        }
    }

    /// Ordering key used to rank directional candidates: rectangles fully
    /// below/above/right/left compare by position, otherwise by area
    /// difference.
    pub open spec fn rect_cmp_spec(self, rect: Self) -> int {
        if self.y1() >= rect.y2() {
            1
        } else if rect.y1() >= self.y2() {
            -1
        } else if self.x1() >= rect.x2() {
            1
        } else if rect.x1() >= self.x2() {
            -1
        } else {
            rect.area_spec() - self.area_spec()
        }
    }

    /// Compare two [`Rectangle`]s for directional candidate ranking
    pub fn rect_cmp(&self, rect: Self) -> (r: i32)
        requires
            self.area_spec() <= i32::MAX,
            rect.area_spec() <= i32::MAX,
        ensures
            r == self.rect_cmp_spec(rect),
    {
        if self.point.y as i64 >= rect.point.y as i64 + rect.dimension.height as i64 {
            1
        } else if rect.point.y as i64 >= self.point.y as i64 + self.dimension.height as i64 {
            -1
        } else if self.point.x as i64 >= rect.point.x as i64 + rect.dimension.width as i64 {
            1
        } else if rect.point.x as i64 >= self.point.x as i64 + self.dimension.width as i64 {
            -1
        } else {
            let a1 = rect.dimension.width as i64 * rect.dimension.height as i64;
            let a2 = self.dimension.width as i64 * self.dimension.height as i64;
            (a1 - a2) as i32
        }
    }

    /// Split the [`Rectangle`] at the given width offset into a left and a
    /// right part that tile it exactly
    pub fn split_at_width(&self, width: u32) -> (r: (Self, Self))
        requires
            width <= self.dimension.width,
            self.x1() + width <= i32::MAX,
        ensures
            r.0.x1() == self.x1() && r.0.y1() == self.y1(),
            r.0.w() == width && r.0.h() == self.h(),
            r.1.x1() == self.x1() + width && r.1.y1() == self.y1(),
            r.1.w() == self.w() - width && r.1.h() == self.h(),
    {
        (
            Self {
                point: self.point,
                dimension: Dimension { width, height: self.dimension.height },
            },
            Self {
                point: Point { x: (self.point.x as i64 + width as i64) as i32, y: self.point.y },
                dimension: Dimension {
                    width: self.dimension.width - width,
                    height: self.dimension.height,
                },
            },
        )
    }

    /// Grow the [`Rectangle`] outward by the given [`Padding`]: the corner
    /// moves up and left, the size grows on every side
    pub fn outset(self, padding: Padding) -> (r: Self)
        requires
            i32::MIN <= self.x1() - padding.left,
            i32::MIN <= self.y1() - padding.top,
            self.w() + padding.left + padding.right <= u32::MAX,
            self.h() + padding.top + padding.bottom <= u32::MAX,
        ensures
            r.x1() == self.x1() - padding.left,
            r.y1() == self.y1() - padding.top,
            r.w() == self.w() + padding.left + padding.right,
            r.h() == self.h() + padding.top + padding.bottom,
    {
        Self {
            point: Point {
                x: (self.point.x as i64 - padding.left as i64) as i32,
                y: (self.point.y as i64 - padding.top as i64) as i32,
            },
            dimension: Dimension {
                width: self.dimension.width + padding.left + padding.right,
                height: self.dimension.height + padding.top + padding.bottom,
            },
        }
    }

    /// Inset the [`Rectangle`] by the given [`Padding`]: the corner moves
    /// down and right, the size shrinks on every side
    pub fn inset(self, padding: Padding) -> (r: Self)
        requires
            self.x1() + padding.left <= i32::MAX,
            self.y1() + padding.top <= i32::MAX,
            self.w() >= padding.left + padding.right,
            self.h() >= padding.top + padding.bottom,
        ensures
            r.x1() == self.x1() + padding.left,
            r.y1() == self.y1() + padding.top,
            r.w() == self.w() - padding.left - padding.right,
            r.h() == self.h() - padding.top - padding.bottom,
    {
        Self {
            point: Point {
                x: (self.point.x as i64 + padding.left as i64) as i32,
                y: (self.point.y as i64 + padding.top as i64) as i32,
            },
            dimension: Dimension {
                width: self.dimension.width - padding.left - padding.right,
                height: self.dimension.height - padding.top - padding.bottom,
            },
        }
    }
}

/// The strict directional predicate implies the permissive one: for every
/// pair of rectangles and every direction, a candidate admitted at
/// [`Tightness::High`] is admitted at [`Tightness::Low`] as well.
pub proof fn lemma_tightness_monotonic(r1: Rectangle, r2: Rectangle, direction: Direction)
    ensures
        r1.on_dir_side_spec(r2, direction, Tightness::High) ==> r1.on_dir_side_spec(
            r2,
            direction,
            Tightness::Low,
        ),
{
}

} // verus!
