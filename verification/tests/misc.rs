use lwm::change::Toggle;
use lwm::cycle::{Direction, InsertPoint, Ring, Selector};
use lwm::stack::StackManager;
use lwm::types::{Corner, DragType, Edge, MotionRecorder};
use lwm::workspace::Scratchpad;

#[test]
fn toggle_evaluation() {
    assert!(Toggle::On.eval(false));
    assert!(Toggle::On.eval(true));
    assert!(!Toggle::Off.eval(false));
    assert!(!Toggle::Off.eval(true));
    // Invert resolves against the current value at the moment of evaluation
    assert!(Toggle::Invert.eval(false));
    assert!(!Toggle::Invert.eval(true));
    assert_eq!(Toggle::from_bool(true), Toggle::On);
    assert_eq!(Toggle::from_bool(false), Toggle::Off);
}

#[test]
fn drag_types() {
    assert!(DragType::Edge(Edge::Top).is_top_drag());
    assert!(DragType::Corner(Corner::TopRight).is_top_drag());
    assert!(!DragType::Edge(Edge::Bottom).is_top_drag());
    assert!(DragType::Edge(Edge::Right).is_right_drag());
    assert!(DragType::Corner(Corner::BottomRight).is_right_drag());
    assert!(!DragType::Corner(Corner::BottomLeft).is_right_drag());
}

#[test]
fn motion_recorder_starts_disabled() {
    let rec = MotionRecorder::new(42);
    assert_eq!(rec.id, 42);
    assert_eq!(rec.sequence, 0);
    assert!(!rec.enabled);
}

#[test]
fn scratchpad_starts_inactive() {
    let pad = Scratchpad::new("term".to_owned());
    assert_eq!(pad.command, "term");
    assert_eq!(pad.client, None);
    assert!(!pad.active);
}

#[test]
fn stack_manager_starts_empty() {
    let sm = StackManager::new();
    assert!(sm.above_other().is_empty());
    assert!(sm.below_other().is_empty());
    assert!(sm.window_layers.is_empty());
}

#[test]
fn unwind_history_records_previous_focus() {
    let mut ring = Ring::new(vec![10_u32, 20_u32, 30_u32], true);
    assert_eq!(ring.focused(), Some(&30));
    assert_eq!(ring.stack(), &Vec::<u32>::new());

    ring.focus_for(&Selector::Index(0));
    assert_eq!(ring.stack(), &vec![30]);
    ring.focus_for(&Selector::Index(1));
    assert_eq!(ring.stack(), &vec![30, 10]);

    // removing the focused element unwinds to the most recent identity
    assert_eq!(ring.remove_for(&Selector::Focused), Some(20));
    assert_eq!(ring.focused(), Some(&10));
    assert_eq!(ring.stack(), &vec![30]);
}

#[test]
fn refocusing_keeps_one_history_entry_per_identity() {
    let mut ring = Ring::new(vec![1_u32, 2_u32, 3_u32], true);
    ring.focus_for(&Selector::Index(0));
    ring.focus_for(&Selector::Index(2));
    ring.focus_for(&Selector::Index(0));
    // 3 was re-recorded at the back, 1 appears once
    assert_eq!(ring.stack(), &vec![1, 3]);
}

#[test]
fn history_is_bounded() {
    let elements: Vec<u32> = (0..20).collect();
    let mut ring = Ring::new(elements, true);
    for i in 0..20 {
        ring.focus_for(&Selector::Index(i));
    }
    assert_eq!(ring.stack().len(), 16);
}

#[test]
fn insert_then_remove_restores_ring() {
    let mut ring = Ring::new(vec![1_u32, 2_u32, 3_u32], true);
    assert_eq!(ring.focused_index(), 2);

    ring.insert_at(&InsertPoint::AfterIndex(0), 9);
    assert_eq!(ring.as_vec(), vec![1, 9, 2, 3]);
    assert_eq!(ring.focused_index(), 1);

    assert_eq!(ring.remove_for(&Selector::Index(1)), Some(9));
    assert_eq!(ring.as_vec(), vec![1, 2, 3]);
    assert_eq!(ring.focused_index(), 2);
    assert_eq!(ring.focused(), Some(&3));
}

#[test]
fn rotation_round_trip() {
    let mut ring = Ring::new(vec![1_i32, 2_i32, 3_i32, 4_i32], false);
    let before = ring.as_vec();
    let focus_before = ring.focused_index();
    ring.rotate(Direction::Forward);
    ring.rotate(Direction::Backward);
    assert_eq!(ring.as_vec(), before);
    assert_eq!(ring.focused_index(), focus_before);
}

#[test]
fn stack_after_focus_puts_focus_last() {
    let mut ring = Ring::new(vec![5_u32, 6_u32, 7_u32], true);
    ring.focus_for(&Selector::Index(0));
    ring.focus_for(&Selector::Index(1));
    // history is [7, 5], focus is 6
    assert_eq!(ring.stack_after_focus(), vec![7, 5, 6]);

    // an identity already in the history moves to the back
    ring.focus_for(&Selector::Index(2));
    // history is [7, 5, 6], focus is 7
    assert_eq!(ring.stack_after_focus(), vec![5, 6, 7]);
}

#[test]
fn will_wrap_and_next() {
    let ring = Ring::new(vec![1_i32, 2_i32, 3_i32], false);
    assert!(ring.will_wrap_from(2, Direction::Forward));
    assert!(!ring.will_wrap_from(1, Direction::Forward));
    assert!(ring.will_wrap_from(0, Direction::Backward));
    assert_eq!(ring.next_index(Direction::Forward), 0);
    assert_eq!(ring.next_index(Direction::Backward), 1);
    assert_eq!(ring.next_element(Direction::Forward), Some(&1));

    assert_eq!(Direction::Forward.reverse(), Direction::Backward);
    assert_eq!(Direction::Backward.reverse(), Direction::Forward);
}

#[test]
fn swapping_elements() {
    let mut ring = Ring::new(vec![1_i32, 2_i32, 3_i32], false);
    ring.swap(&Selector::First, &Selector::Last);
    assert_eq!(ring.as_vec(), vec![3, 2, 1]);
    // the index map follows the swap
    assert_eq!(ring.id_to_index(3), Some(0));
    assert_eq!(ring.id_to_index(1), Some(2));
    // a selector that resolves to nothing swaps nothing
    ring.swap(&Selector::Index(9), &Selector::First);
    assert_eq!(ring.as_vec(), vec![3, 2, 1]);
}

#[test]
fn queries_on_an_empty_ring() {
    let mut ring: Ring<i32> = Ring::new(vec![], false);
    assert!(ring.is_empty());
    assert_eq!(ring.len(), 0);
    assert_eq!(ring.focused(), None);
    assert_eq!(ring.get_for(&Selector::First), None);
    assert_eq!(ring.get_for(&Selector::Last), None);
    assert_eq!(ring.index_for(&Selector::Focused), None);
    assert_eq!(ring.remove_for(&Selector::Focused), None);
    assert_eq!(ring.cycle_focused(Direction::Forward), None);
    assert_eq!(ring.drag_focused(Direction::Backward), None);

    ring.push_back(4);
    assert_eq!(ring.focused(), Some(&4));
    ring.clear();
    assert!(ring.is_empty());
    assert_eq!(ring.focused_index(), 0);
}

#[test]
fn contains_and_enumerate() {
    let ring = Ring::new(vec![4_i32, 5_i32], false);
    assert!(ring.contains(&4));
    assert!(!ring.contains(&6));
    let pairs = ring.enumerate();
    assert_eq!(pairs, vec![(0, &4), (1, &5)]);
    assert_eq!(ring.iter(), vec![&4, &5]);
    assert_eq!(ring.index_of(&5), Some(1));
}
