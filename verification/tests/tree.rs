use lwm::geometry::{Ratio, Rectangle};
use lwm::tree::{LayoutSettings, Node, NodeKind, Presel, SplitType, Tree};
use lwm::types::{AutomaticScheme, ChildPolarity, Direction, Tightness};

fn settings() -> LayoutSettings {
    LayoutSettings {
        window_gap: 0,
        border_width: 0,
        split_ratio: Ratio::new(1, 2),
        automatic_scheme: AutomaticScheme::LongestSide,
        initial_polarity: ChildPolarity::First,
        removal_adjustment: false,
        directional_focus_tightness: Tightness::Low,
    }
}

fn leaf_list(tree: &Tree) -> Vec<(u32, Rectangle)> {
    tree.leaves()
}

#[test]
fn preselected_split_tiles_the_leaf() {
    // a single leaf covering the full desktop rectangle
    let desktop = Rectangle::new(0, 0, 800, 600);
    let mut leaf = Node::new_leaf(1, desktop);
    leaf.set_presel(Presel::new(Ratio::new(1, 2)));

    let s = LayoutSettings { window_gap: 10, ..settings() };
    let split = leaf.insert_sibling(1, 2, &s, 0);
    let arranged = split.arrange(desktop, s.window_gap);

    let leaves = arranged.leaves();
    assert_eq!(leaves.len(), 2);
    // East preselection: the old content keeps the first (left) half
    assert_eq!(leaves[0], (1, Rectangle::new(0, 0, 395, 600)));
    assert_eq!(leaves[1], (2, Rectangle::new(405, 0, 395, 600)));
    // the two children tile the original rectangle minus the window gap
    assert_eq!(
        leaves[0].1.dimension.width + s.window_gap + leaves[1].1.dimension.width,
        desktop.dimension.width
    );

    // without a gap each child takes exactly half the width
    let arranged0 = {
        let mut leaf = Node::new_leaf(1, desktop);
        leaf.set_presel(Presel::new(Ratio::new(1, 2)));
        let split = leaf.insert_sibling(1, 2, &settings(), 0);
        split.arrange(desktop, 0)
    };
    let leaves0 = arranged0.leaves();
    assert_eq!(leaves0[0].1, Rectangle::new(0, 0, 400, 600));
    assert_eq!(leaves0[1].1, Rectangle::new(400, 0, 400, 600));
}

#[test]
fn presel_direction_picks_the_side() {
    let desktop = Rectangle::new(0, 0, 100, 100);
    let mut leaf = Node::new_leaf(1, desktop);
    leaf.set_presel(Presel {
        split_ratio: Ratio::new(1, 2),
        split_dir: Direction::West,
        feedback: None,
    });
    let split = leaf.insert_sibling(1, 2, &settings(), 0);
    let arranged = split.arrange(desktop, 0);
    let leaves = arranged.leaves();
    // West: the new window takes the first (left) slot
    assert_eq!(leaves[0].0, 2);
    assert_eq!(leaves[1].0, 1);

    let mut leaf = Node::new_leaf(1, desktop);
    leaf.set_presel(Presel {
        split_ratio: Ratio::new(1, 3),
        split_dir: Direction::South,
        feedback: None,
    });
    let split = leaf.insert_sibling(1, 2, &settings(), 0);
    let arranged = split.arrange(desktop, 0);
    let leaves = arranged.leaves();
    // South: a horizontal split, old content on top with a third of the height
    assert_eq!(leaves[0], (1, Rectangle::new(0, 0, 100, 33)));
    assert_eq!(leaves[1], (2, Rectangle::new(0, 33, 100, 67)));
}

#[test]
fn longest_side_scheme_splits_the_longer_axis() {
    let wide = Rectangle::new(0, 0, 800, 400);
    let leaf = Node::new_leaf(1, wide);
    let split = leaf.insert_sibling(1, 2, &settings(), 0);
    assert_eq!(split.split_type, SplitType::Vertical);

    let tall = Rectangle::new(0, 0, 400, 800);
    let leaf = Node::new_leaf(1, tall);
    let split = leaf.insert_sibling(1, 2, &settings(), 0);
    assert_eq!(split.split_type, SplitType::Horizontal);
}

#[test]
fn alternate_scheme_flips_with_depth() {
    let s = LayoutSettings {
        automatic_scheme: AutomaticScheme::Alternate,
        initial_polarity: ChildPolarity::Second,
        ..settings()
    };
    let mut tree = Tree::new();
    tree.insert_window(0, 1, &s);
    // the root leaf is at depth zero: vertical
    tree.insert_window(1, 2, &s);
    let root = tree.root.as_ref().unwrap();
    assert_eq!(root.split_type, SplitType::Vertical);
    // inserting next to leaf 2, now at depth one: horizontal
    tree.insert_window(2, 3, &s);
    let root = tree.root.as_ref().unwrap();
    match &root.kind {
        NodeKind::Split(_, second) => assert_eq!(second.split_type, SplitType::Horizontal),
        NodeKind::Leaf => unreachable!(),
    }
}

#[test]
fn removing_a_leaf_promotes_the_sibling() {
    let s = settings();
    let desktop = Rectangle::new(0, 0, 800, 600);
    let mut tree = Tree::new();
    tree.insert_window(0, 1, &s);
    tree.insert_window(1, 2, &s);
    tree.insert_window(2, 3, &s);
    tree.arrange(desktop, &s);
    assert_eq!(tree.leaves().len(), 3);

    tree.remove_window(3, false);
    tree.arrange(desktop, &s);
    let leaves = leaf_list(&tree);
    assert_eq!(leaves.len(), 2);
    assert!(leaves.iter().all(|l| l.0 != 3));

    tree.remove_window(1, false);
    let leaves = leaf_list(&tree);
    assert_eq!(leaves.len(), 1);
    assert_eq!(leaves[0].0, 2);

    // removing the last leaf empties the tree
    tree.remove_window(2, false);
    assert!(tree.root.is_none());
    assert_eq!(tree.leaves().len(), 0);
}

#[test]
fn arrange_partitions_the_desktop() {
    let s = LayoutSettings { initial_polarity: ChildPolarity::Second, ..settings() };
    let desktop = Rectangle::new(0, 0, 800, 600);
    let mut tree = Tree::new();
    tree.insert_window(0, 1, &s);
    tree.arrange(desktop, &s);
    assert_eq!(tree.leaves(), vec![(1, desktop)]);

    tree.insert_window(1, 2, &s);
    tree.arrange(desktop, &s);
    let leaves = tree.leaves();
    assert_eq!(leaves[0], (1, Rectangle::new(0, 0, 400, 600)));
    assert_eq!(leaves[1], (2, Rectangle::new(400, 0, 400, 600)));
}

#[test]
fn neighbor_follows_direction() {
    let s = LayoutSettings { initial_polarity: ChildPolarity::Second, ..settings() };
    let desktop = Rectangle::new(0, 0, 800, 600);
    let mut tree = Tree::new();
    tree.insert_window(0, 1, &s);
    tree.insert_window(1, 2, &s);
    tree.arrange(desktop, &s);

    assert_eq!(tree.neighbor(1, Direction::East, Tightness::Low), Some(2));
    assert_eq!(tree.neighbor(2, Direction::West, Tightness::Low), Some(1));
    assert_eq!(tree.neighbor(1, Direction::West, Tightness::Low), None);
    assert_eq!(tree.neighbor(1, Direction::North, Tightness::High), None);
    // an unknown window has no neighbors
    assert_eq!(tree.neighbor(9, Direction::East, Tightness::Low), None);
}

#[test]
fn constraints_propagate_bottom_up() {
    let s = settings();
    let desktop = Rectangle::new(0, 0, 800, 600);
    let mut a = Node::new_leaf(1, desktop);
    a.constraints.min_width = 100;
    a.constraints.min_height = 50;
    let mut split = a.insert_sibling(1, 2, &s, 0);
    match &mut split.kind {
        NodeKind::Split(first, _) => {
            first.constraints.min_width = 60;
            first.constraints.min_height = 80;
        }
        NodeKind::Leaf => unreachable!(),
    }
    // the split is vertical: widths add, heights take the larger
    let split = split.propagate_constraints();
    assert_eq!(split.constraints.min_width, 160);
    assert_eq!(split.constraints.min_height, 80);
}
