use lwm::geometry::{Dimension, Padding, Point, Ratio, Rectangle};
use lwm::types::{Corner, Direction, Tightness};

#[test]
fn point_and_dimension_basics() {
    let p = Point::new(3, -4);
    assert_eq!(p.as_tuple(), (3, -4));
    assert!(!p.is_zero());
    assert!(Point::new(0, 0).is_zero());

    let d = Dimension::new(640, 480);
    assert_eq!(d.as_tuple(), (640, 480));
    assert!(!d.is_zero());
    assert!(Dimension::new(0, 0).is_zero());
    assert_eq!(d.center(), Point::new(320, 240));
    assert_eq!(Point::from_center_of_dim(d), Point::new(320, 240));
}

#[test]
fn point_relative_and_center_of_rect() {
    let r = Rectangle::new(10, 20, 100, 60);
    assert_eq!(Point::from_center_of_rect(r), Point::new(60, 50));
    assert_eq!(Point::new(7, 9).relative(Point::new(2, 4)), Point::new(5, 5));
}

#[test]
fn nearest_corner_quadrants() {
    let d = Dimension::new(100, 100);
    assert_eq!(d.nearest_corner(Point::new(80, 80)), Corner::BottomRight);
    assert_eq!(d.nearest_corner(Point::new(80, 10)), Corner::TopRight);
    assert_eq!(d.nearest_corner(Point::new(10, 80)), Corner::BottomLeft);
    assert_eq!(d.nearest_corner(Point::new(10, 10)), Corner::TopLeft);
}

#[test]
fn rectangle_corners_and_area() {
    let r = Rectangle::new(10, 20, 30, 40);
    assert_eq!(r.top_right(), Point::new(40, 20));
    assert_eq!(r.bottom_left(), Point::new(10, 60));
    assert_eq!(r.bottom_right(), Point::new(40, 60));
    assert_eq!(r.area(), 1200);
    assert!(!r.is_zero());
    assert!(Rectangle::zeroed().is_zero());
    assert!(r.equivalent(Rectangle::new(10, 20, 30, 40)));
    assert!(!r.equivalent(Rectangle::new(10, 20, 30, 41)));
}

#[test]
fn inclusive_containment() {
    let r = Rectangle::new(0, 0, 10, 10);
    // the far edge counts as inside
    assert!(r.is_inside(Point::new(10, 10)));
    assert!(r.is_inside(Point::new(0, 0)));
    assert!(!r.is_inside(Point::new(11, 5)));
    assert!(Point::new(5, 5).is_inside(r));

    assert!(r.contains(Rectangle::new(2, 2, 5, 5)));
    assert!(!r.contains(Rectangle::new(2, 2, 20, 5)));

    assert!(r.occludes(Rectangle::new(5, 5, 100, 100)));
    assert!(Rectangle::new(5, 5, 100, 100).occludes(r));
    assert!(!r.occludes(Rectangle::new(50, 50, 10, 10)));
}

#[test]
fn boundary_distances() {
    let a = Rectangle::new(0, 0, 100, 100);
    let b = Rectangle::new(150, 0, 100, 100);
    // East: from a's right edge (99) to b's left edge (150)
    assert_eq!(a.boundary_distance(b, Direction::East), 51);
    // West: from a's left edge (0) to b's right edge (249)
    assert_eq!(a.boundary_distance(b, Direction::West), 249);
    let c = Rectangle::new(0, 130, 100, 50);
    assert_eq!(a.boundary_distance(c, Direction::South), 31);
    assert_eq!(a.boundary_distance(c, Direction::North), 179);
}

#[test]
fn directional_sides() {
    let a = Rectangle::new(100, 100, 100, 100);
    let east = Rectangle::new(250, 120, 50, 50);
    let west = Rectangle::new(0, 120, 50, 50);
    let north = Rectangle::new(120, 0, 50, 50);
    let south = Rectangle::new(120, 250, 50, 50);

    assert!(a.on_dir_side(east, Direction::East, Tightness::High));
    assert!(a.on_dir_side(west, Direction::West, Tightness::High));
    assert!(a.on_dir_side(north, Direction::North, Tightness::High));
    assert!(a.on_dir_side(south, Direction::South, Tightness::High));

    assert!(!a.on_dir_side(east, Direction::West, Tightness::Low));
    assert!(!a.on_dir_side(west, Direction::East, Tightness::Low));

    // no overlap on the perpendicular axis: not a candidate
    let far = Rectangle::new(250, 400, 50, 50);
    assert!(!a.on_dir_side(far, Direction::East, Tightness::Low));
}

#[test]
fn tightness_high_implies_low() {
    // an overlapping candidate passes at Low but not at High
    let a = Rectangle::new(100, 100, 100, 100);
    let overlapping = Rectangle::new(120, 120, 50, 50);
    assert!(a.on_dir_side(overlapping, Direction::East, Tightness::Low));
    assert!(!a.on_dir_side(overlapping, Direction::East, Tightness::High));

    // anything accepted at High is accepted at Low
    let rects = [
        Rectangle::new(250, 120, 50, 50),
        Rectangle::new(0, 120, 50, 50),
        Rectangle::new(120, 0, 50, 50),
        Rectangle::new(120, 250, 50, 50),
        Rectangle::new(120, 120, 50, 50),
        Rectangle::new(100, 100, 100, 100),
    ];
    let dirs = [
        Direction::North,
        Direction::South,
        Direction::East,
        Direction::West,
    ];
    for r in rects.iter() {
        for d in dirs.iter() {
            if a.on_dir_side(*r, *d, Tightness::High) {
                assert!(a.on_dir_side(*r, *d, Tightness::Low));
            }
        }
    }
}

#[test]
fn rect_ordering() {
    let a = Rectangle::new(0, 0, 100, 100);
    let below = Rectangle::new(0, 200, 100, 100);
    // a is fully above `below`
    assert_eq!(a.rect_cmp(below), -1);
    assert_eq!(below.rect_cmp(a), 1);
    let right = Rectangle::new(200, 0, 100, 100);
    assert_eq!(a.rect_cmp(right), -1);
    assert_eq!(right.rect_cmp(a), 1);
    // overlapping rectangles compare by area difference
    let small = Rectangle::new(10, 10, 50, 50);
    assert_eq!(a.rect_cmp(small), 2500 - 10000);
    assert_eq!(small.rect_cmp(a), 10000 - 2500);
}

#[test]
fn splitting_at_width() {
    let r = Rectangle::new(10, 20, 100, 60);
    let (left, right) = r.split_at_width(30);
    assert_eq!(left, Rectangle::new(10, 20, 30, 60));
    assert_eq!(right, Rectangle::new(40, 20, 70, 60));
}

#[test]
fn padding_arithmetic() {
    let r = Rectangle::new(50, 50, 100, 100);
    let pad = Padding::new(1, 2, 3, 4);
    let grown = r.outset(pad);
    assert_eq!(grown, Rectangle::new(46, 49, 106, 104));
    let back = grown.inset(pad);
    assert_eq!(back, r);

    let d = Dimension::new(100, 100);
    assert_eq!(d.outset(pad), Dimension::new(106, 104));
    assert_eq!(d.inset(pad), Dimension::new(94, 96));

    assert_eq!(Padding::empty(), Padding::new(0, 0, 0, 0));
}

#[test]
fn ratio_fields() {
    let r = Ratio::new(2, 3);
    assert_eq!(r.numerator, 2);
    assert_eq!(r.denominator, 3);
}
