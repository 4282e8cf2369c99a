use lwm::cycle::{Direction, InsertPoint, Ring, Selector};
use lwm::types::Identify;

#[test]
fn remove_element_before_focus() {
    let mut ring = Ring::new(
        vec![0_i32, 10_i32, 20_i32, 30_i32, 40_i32, 50_i32, 60_i32],
        false,
    );

    // Last element is focused
    assert_eq!(ring.focused, 6);

    // Remove the element at index 2 (i.e., 20)
    let popped = ring.remove_for(&Selector::Index(2));
    assert_eq!(popped, Some(20_i32));
    assert_eq!(ring.focused, 5);
    assert_eq!(
        (
            ring.indices.get(&0),
            ring.indices.get(&10),
            ring.indices.get(&20),
            ring.indices.get(&30),
            ring.indices.get(&40),
            ring.indices.get(&50),
            ring.indices.get(&60)
        ),
        (
            Some(&0),
            Some(&1),
            None,
            Some(&2),
            Some(&3),
            Some(&4),
            Some(&5)
        )
    );

    // Remove the element at index 2 (i.e., 30)
    let popped = ring.remove_for(&Selector::Index(2));
    assert_eq!(popped, Some(30_i32));
    assert_eq!(ring.focused, 4);
    assert_eq!(
        (
            ring.indices.get(&0),
            ring.indices.get(&10),
            ring.indices.get(&20),
            ring.indices.get(&30),
            ring.indices.get(&40),
            ring.indices.get(&50),
            ring.indices.get(&60)
        ),
        (
            Some(&0),
            Some(&1),
            None,
            None,
            Some(&2),
            Some(&3),
            Some(&4)
        )
    );

    let popped = ring.remove_for(&Selector::Index(2));
    assert_eq!(popped, Some(40_i32));
    assert_eq!(ring.focused, 3);
    assert_eq!(
        (
            ring.indices.get(&0),
            ring.indices.get(&10),
            ring.indices.get(&20),
            ring.indices.get(&30),
            ring.indices.get(&40),
            ring.indices.get(&50),
            ring.indices.get(&60)
        ),
        (Some(&0), Some(&1), None, None, None, Some(&2), Some(&3))
    );

    let popped = ring.remove_for(&Selector::Index(2));
    assert_eq!(popped, Some(50_i32));
    assert_eq!(ring.focused, 2);
    assert_eq!(
        (
            ring.indices.get(&0),
            ring.indices.get(&10),
            ring.indices.get(&20),
            ring.indices.get(&30),
            ring.indices.get(&40),
            ring.indices.get(&50),
            ring.indices.get(&60)
        ),
        (Some(&0), Some(&1), None, None, None, None, Some(&2))
    );

    let popped = ring.remove_for(&Selector::Index(2));
    assert_eq!(popped, Some(60_i32));
    assert_eq!(ring.focused, 1);
    assert_eq!(
        (
            ring.indices.get(&0),
            ring.indices.get(&10),
            ring.indices.get(&20),
            ring.indices.get(&30),
            ring.indices.get(&40),
            ring.indices.get(&50),
            ring.indices.get(&60)
        ),
        (Some(&0), Some(&1), None, None, None, None, None)
    );

    let popped = ring.remove_for(&Selector::Index(1));
    assert_eq!(popped, Some(10_i32));
    assert_eq!(ring.focused, 0);
    assert_eq!(
        (
            ring.indices.get(&0),
            ring.indices.get(&10),
            ring.indices.get(&20),
            ring.indices.get(&30),
            ring.indices.get(&40),
            ring.indices.get(&50),
            ring.indices.get(&60)
        ),
        (Some(&0), None, None, None, None, None, None)
    );

    let popped = ring.remove_for(&Selector::Index(0));
    assert_eq!(popped, Some(0_i32));
    assert_eq!(ring.focused, 0);
    assert_eq!(
        (
            ring.indices.get(&0),
            ring.indices.get(&10),
            ring.indices.get(&20),
            ring.indices.get(&30),
            ring.indices.get(&40),
            ring.indices.get(&50),
            ring.indices.get(&60)
        ),
        (None, None, None, None, None, None, None)
    );
}

#[test]
fn removing_last_element_at_focus() {
    let mut ring = Ring::new(
        vec![0_i32, 10_i32, 20_i32, 30_i32, 40_i32, 50_i32, 60_i32],
        false,
    );

    assert_eq!(ring.focused, 6);

    ring.remove_for(&Selector::Index(6));
    assert_eq!(ring.focused, 5);
    assert_eq!(
        (
            ring.indices.get(&0),
            ring.indices.get(&10),
            ring.indices.get(&20),
            ring.indices.get(&30),
            ring.indices.get(&40),
            ring.indices.get(&50),
            ring.indices.get(&60)
        ),
        (
            Some(&0),
            Some(&1),
            Some(&2),
            Some(&3),
            Some(&4),
            Some(&5),
            None
        )
    );

    ring.remove_for(&Selector::Index(5));
    assert_eq!(ring.focused, 4);
    assert_eq!(
        (
            ring.indices.get(&0),
            ring.indices.get(&10),
            ring.indices.get(&20),
            ring.indices.get(&30),
            ring.indices.get(&40),
            ring.indices.get(&50),
            ring.indices.get(&60)
        ),
        (
            Some(&0),
            Some(&1),
            Some(&2),
            Some(&3),
            Some(&4),
            None,
            None
        )
    );

    ring.remove_for(&Selector::Index(4));
    assert_eq!(ring.focused, 3);
    assert_eq!(
        (
            ring.indices.get(&0),
            ring.indices.get(&10),
            ring.indices.get(&20),
            ring.indices.get(&30),
            ring.indices.get(&40),
            ring.indices.get(&50),
            ring.indices.get(&60)
        ),
        (Some(&0), Some(&1), Some(&2), Some(&3), None, None, None)
    );

    // Duplicates do nothing
    ring.remove_for(&Selector::Index(4));
    assert_eq!(ring.focused, 3);
    assert_eq!(
        (
            ring.indices.get(&0),
            ring.indices.get(&10),
            ring.indices.get(&20),
            ring.indices.get(&30),
            ring.indices.get(&40),
            ring.indices.get(&50),
            ring.indices.get(&60)
        ),
        (Some(&0), Some(&1), Some(&2), Some(&3), None, None, None)
    );

    ring.remove_for(&Selector::Index(3));
    assert_eq!(ring.focused, 2);
    assert_eq!(
        (
            ring.indices.get(&0),
            ring.indices.get(&10),
            ring.indices.get(&20),
            ring.indices.get(&30),
            ring.indices.get(&40),
            ring.indices.get(&50),
            ring.indices.get(&60)
        ),
        (Some(&0), Some(&1), Some(&2), None, None, None, None)
    );

    ring.remove_for(&Selector::Index(2));
    assert_eq!(ring.focused, 1);
    assert_eq!(
        (
            ring.indices.get(&0),
            ring.indices.get(&10),
            ring.indices.get(&20),
            ring.indices.get(&30),
            ring.indices.get(&40),
            ring.indices.get(&50),
            ring.indices.get(&60)
        ),
        (Some(&0), Some(&1), None, None, None, None, None)
    );

    ring.remove_for(&Selector::Index(1));
    assert_eq!(ring.focused, 0);
    assert_eq!(
        (
            ring.indices.get(&0),
            ring.indices.get(&10),
            ring.indices.get(&20),
            ring.indices.get(&30),
            ring.indices.get(&40),
            ring.indices.get(&50),
            ring.indices.get(&60)
        ),
        (Some(&0), None, None, None, None, None, None)
    );

    ring.remove_for(&Selector::Index(0));
    assert_eq!(ring.focused, 0);
    assert_eq!(
        (
            ring.indices.get(&0),
            ring.indices.get(&10),
            ring.indices.get(&20),
            ring.indices.get(&30),
            ring.indices.get(&40),
            ring.indices.get(&50),
            ring.indices.get(&60)
        ),
        (None, None, None, None, None, None, None)
    );

    // Duplicates do nothing
    ring.remove_for(&Selector::Index(0));
    assert_eq!(ring.focused, 0);
    assert_eq!(
        (
            ring.indices.get(&0),
            ring.indices.get(&10),
            ring.indices.get(&20),
            ring.indices.get(&30),
            ring.indices.get(&40),
            ring.indices.get(&50),
            ring.indices.get(&60)
        ),
        (None, None, None, None, None, None, None)
    );
}

#[test]
fn removing_first_element_at_focus() {
    let mut ring = Ring::new(
        vec![0_i32, 10_i32, 20_i32, 30_i32, 40_i32, 50_i32, 60_i32],
        false,
    );

    assert_eq!(ring.focused, 6);
    ring.focus_for(&Selector::Index(0));
    assert_eq!(ring.focused, 0);

    ring.remove_for(&Selector::Index(0));
    assert_eq!(ring.focused, 5);
    assert_eq!(
        (
            ring.indices.get(&0),
            ring.indices.get(&10),
            ring.indices.get(&20),
            ring.indices.get(&30),
            ring.indices.get(&40),
            ring.indices.get(&50),
            ring.indices.get(&60)
        ),
        (
            None,
            Some(&0),
            Some(&1),
            Some(&2),
            Some(&3),
            Some(&4),
            Some(&5)
        )
    );

    ring.focus_for(&Selector::Index(0));
    assert_eq!(ring.focused, 0);

    ring.remove_for(&Selector::Index(0));
    assert_eq!(ring.focused, 4);
    assert_eq!(
        (
            ring.indices.get(&0),
            ring.indices.get(&10),
            ring.indices.get(&20),
            ring.indices.get(&30),
            ring.indices.get(&40),
            ring.indices.get(&50),
            ring.indices.get(&60)
        ),
        (
            None,
            None,
            Some(&0),
            Some(&1),
            Some(&2),
            Some(&3),
            Some(&4)
        )
    );

    ring.focus_for(&Selector::Index(0));
    assert_eq!(ring.focused, 0);

    ring.remove_for(&Selector::Index(0));
    assert_eq!(ring.focused, 3);
    assert_eq!(
        (
            ring.indices.get(&0),
            ring.indices.get(&10),
            ring.indices.get(&20),
            ring.indices.get(&30),
            ring.indices.get(&40),
            ring.indices.get(&50),
            ring.indices.get(&60)
        ),
        (None, None, None, Some(&0), Some(&1), Some(&2), Some(&3))
    );

    ring.focus_for(&Selector::Index(0));
    assert_eq!(ring.focused, 0);

    ring.remove_for(&Selector::Index(0));
    assert_eq!(ring.focused, 2);
    assert_eq!(
        (
            ring.indices.get(&0),
            ring.indices.get(&10),
            ring.indices.get(&20),
            ring.indices.get(&30),
            ring.indices.get(&40),
            ring.indices.get(&50),
            ring.indices.get(&60)
        ),
        (None, None, None, None, Some(&0), Some(&1), Some(&2))
    );

    ring.focus_for(&Selector::Index(0));
    assert_eq!(ring.focused, 0);

    ring.remove_for(&Selector::Index(0));
    assert_eq!(ring.focused, 1);
    assert_eq!(
        (
            ring.indices.get(&0),
            ring.indices.get(&10),
            ring.indices.get(&20),
            ring.indices.get(&30),
            ring.indices.get(&40),
            ring.indices.get(&50),
            ring.indices.get(&60)
        ),
        (None, None, None, None, None, Some(&0), Some(&1))
    );

    ring.focus_for(&Selector::Index(0));
    assert_eq!(ring.focused, 0);

    ring.remove_for(&Selector::Index(0));
    assert_eq!(ring.focused, 0);
    assert_eq!(
        (
            ring.indices.get(&0),
            ring.indices.get(&10),
            ring.indices.get(&20),
            ring.indices.get(&30),
            ring.indices.get(&40),
            ring.indices.get(&50),
            ring.indices.get(&60)
        ),
        (None, None, None, None, None, None, Some(&0))
    );

    ring.focus_for(&Selector::Index(0));
    assert_eq!(ring.focused, 0);

    ring.remove_for(&Selector::Index(0));
    assert_eq!(ring.focused, 0);
    assert_eq!(
        (
            ring.indices.get(&0),
            ring.indices.get(&10),
            ring.indices.get(&20),
            ring.indices.get(&30),
            ring.indices.get(&40),
            ring.indices.get(&50),
            ring.indices.get(&60)
        ),
        (None, None, None, None, None, None, None)
    );

    ring.focus_for(&Selector::Index(0));
    assert_eq!(ring.focused, 0);

    ring.remove_for(&Selector::Index(0));
    assert_eq!(ring.focused, 0);
    assert_eq!(
        (
            ring.indices.get(&0),
            ring.indices.get(&10),
            ring.indices.get(&20),
            ring.indices.get(&30),
            ring.indices.get(&40),
            ring.indices.get(&50),
            ring.indices.get(&60)
        ),
        (None, None, None, None, None, None, None)
    );
}

#[test]
fn focus_for_index() {
    let mut ring = Ring::new(vec![1_i32, 2_i32, 3_i32], false);
    assert_eq!(ring.focused(), Some(&3_i32));

    ring.focus_for(&Selector::Index(0));
    assert_eq!(ring.focused(), Some(&1_i32));

    ring.rotate(Direction::Forward);
    ring.focus_for(&Selector::Index(1));
    assert_eq!(ring.focused(), Some(&1_i32));

    // Focus stays on the same element through the rotation
    ring.rotate(Direction::Forward);
    assert_eq!(ring.focused(), Some(&1_i32));

    ring.focus_for(&Selector::First);
    assert_eq!(ring.focused(), Some(&2_i32));

    ring.focus_for(&Selector::Last);
    assert_eq!(ring.focused(), Some(&1_i32));
}

#[test]
fn focus_for_condition() {
    let mut ring = Ring::new(vec![1_i32, 2_i32, 3_i32, 4_i32, 5_i32, 6_i32], false);
    assert_eq!(ring.focused, 5);
    assert_eq!(
        ring.focus_for_where(&|e: &i32| e % 2_i32 == 0_i32),
        Some(&2_i32)
    );
    assert_eq!(ring.focus_for_where(&|e: &i32| e % 7_i32 == 0_i32), None);
}

#[test]
fn cycle_focused() {
    let mut ring = Ring::new(vec![1_i32, 2_i32, 3_i32], false);
    assert_eq!(ring.focused, 2);

    assert_eq!(ring.cycle_focused(Direction::Forward), Some(&1_i32));
    assert_eq!(ring.focused, 0);
    assert_eq!(ring.as_vec(), vec![1_i32, 2_i32, 3_i32]);

    assert_eq!(ring.cycle_focused(Direction::Backward), Some(&3_i32));
    assert_eq!(ring.as_vec(), vec![1_i32, 2_i32, 3_i32]);
}

#[test]
fn rotating_focus_stays_on_last_element() {
    let mut ring = Ring::new(vec![1_i32, 2_i32, 3_i32], false);

    // The last element is focused, and stays focused through every
    // rotation while its position moves
    assert_eq!(ring.focused(), Some(&3_i32));

    ring.rotate(Direction::Forward);
    assert_eq!(ring.as_vec(), vec![3_i32, 1_i32, 2_i32]);
    assert_eq!(ring.focused(), Some(&3_i32));

    ring.rotate(Direction::Forward);
    assert_eq!(ring.as_vec(), vec![2_i32, 3_i32, 1_i32]);
    assert_eq!(ring.focused(), Some(&3_i32));

    ring.rotate(Direction::Backward);
    assert_eq!(ring.as_vec(), vec![3_i32, 1_i32, 2_i32]);
    assert_eq!(ring.focused(), Some(&3_i32));
}

#[test]
fn drag_element_forward() {
    let mut ring = Ring::new(vec![1_i32, 2_i32, 3_i32, 4_i32], false);
    assert_eq!(ring.focused(), Some(&4_i32));

    assert_eq!(ring.drag_focused(Direction::Forward), Some(&4_i32));
    assert_eq!(ring.elements, vec![4_i32, 1_i32, 2_i32, 3_i32]);

    assert_eq!(ring.drag_focused(Direction::Forward), Some(&4_i32));
    assert_eq!(ring.elements, vec![1_i32, 4_i32, 2_i32, 3_i32]);

    assert_eq!(ring.drag_focused(Direction::Forward), Some(&4_i32));
    assert_eq!(ring.elements, vec![1_i32, 2_i32, 4_i32, 3_i32]);

    assert_eq!(ring.drag_focused(Direction::Forward), Some(&4_i32));
    assert_eq!(ring.elements, vec![1_i32, 2_i32, 3_i32, 4_i32]);

    assert_eq!(ring.focused(), Some(&4_i32));
}

#[test]
fn drag_element_backward() {
    let mut ring = Ring::new(vec![1_i32, 2_i32, 3_i32, 4_i32], false);
    assert_eq!(ring.focused(), Some(&4_i32));

    assert_eq!(ring.drag_focused(Direction::Backward), Some(&4_i32));
    assert_eq!(ring.elements, vec![1_i32, 2_i32, 4_i32, 3_i32]);

    assert_eq!(ring.drag_focused(Direction::Backward), Some(&4_i32));
    assert_eq!(ring.elements, vec![1_i32, 4_i32, 2_i32, 3_i32]);

    assert_eq!(ring.drag_focused(Direction::Backward), Some(&4_i32));
    assert_eq!(ring.elements, vec![4_i32, 1_i32, 2_i32, 3_i32]);

    assert_eq!(ring.drag_focused(Direction::Backward), Some(&4_i32));
    assert_eq!(ring.elements, vec![1_i32, 2_i32, 3_i32, 4_i32]);

    assert_eq!(ring.focused(), Some(&4_i32));
}

#[test]
fn remove_focused() {
    let mut ring = Ring::new(vec![1_i32, 2_i32, 3_i32], false);
    ring.focused = 2;
    assert_eq!(ring.focused(), Some(&3_i32));

    assert_eq!(ring.remove_for(&Selector::Focused), Some(3_i32));
    assert_eq!(ring.focused_index(), 1);
    assert_eq!(ring.focused(), Some(&2_i32));

    assert_eq!(ring.remove_for(&Selector::Focused), Some(2_i32));
    assert_eq!(ring.focused(), Some(&1_i32));

    assert_eq!(ring.remove_for(&Selector::Focused), Some(1_i32));
    assert_eq!(ring.focused(), None);

    assert_eq!(ring.remove_for(&Selector::Focused), None);
}

#[test]
fn remove() {
    let mut ring = Ring::new(vec![1_i32, 2_i32, 3_i32, 4_i32, 5_i32, 6_i32], false);
    ring.focused = 3;
    assert_eq!(ring.focused(), Some(&4_i32));
    assert_eq!(
        ring.remove_for_where(&|e: &i32| e % 2_i32 == 0_i32),
        Some(2_i32)
    );
    // Focus follows
    assert_eq!(ring.focused(), Some(&4_i32));
}

#[test]
fn indices_are_in_bounds() {
    let ring = Ring::new(vec![1_i32, 2_i32, 3_i32, 4_i32, 5_i32, 6_i32], false);
    assert_eq!(ring.index_for(&Selector::Index(2)), Some(2));
    assert_eq!(ring.index_for(&Selector::Index(42)), None);
}

#[test]
fn map() {
    let contents = vec!["word", "filler", "another", "word"];
    let ring = Ring::new(contents.clone(), false);
    let lens = ring.map(&|s: &&str| s.id());
    assert_eq!(lens, vec![4, 6, 7, 4]);
    assert_eq!(ring.as_vec(), contents);
}

#[test]
fn on_focused() {
    let mut ring = Ring::new(vec![1_i32, 2_i32, 3_i32], false);
    assert_eq!(ring.focused(), Some(&3_i32));

    ring.on_focused_mut(&|e: &i32| *e + 1_i32);
    assert_eq!(ring.focused(), Some(&4_i32));
    assert_eq!(ring.elements, vec![1_i32, 2_i32, 4_i32]);
}

#[test]
fn apply_for() {
    let contents = vec!["www", "www", "www"];
    let mut ring = Ring::new(contents.clone(), false);

    ring.apply_for_mut(&Selector::Index(2), &|_s: &&str| "mutated");
    assert_eq!(ring.as_vec(), vec!["www", "www", "mutated"]);
}

#[test]
fn on_all() {
    let mut ring = Ring::new(vec![1_i32, 2_i32, 3_i32, 4_i32], false);

    ring.on_all_for_mut_where(&|e: &i32| *e + 1_i32, &|e: &i32| e % 2_i32 == 0_i32);
    assert_eq!(ring.elements, vec![1_i32, 3_i32, 3_i32, 5_i32]);

    ring.on_all_mut(&|e: &i32| *e + 1_i32);
    assert_eq!(ring.elements, vec![2_i32, 4_i32, 4_i32, 6_i32]);
}

#[test]
fn get_for() {
    let mut ring = Ring::new(vec![1_i32, 2_i32, 3_i32, 4_i32], false);
    assert_eq!(
        ring.get_for_where(&|e: &i32| e % 2_i32 == 0_i32),
        Some(&2_i32)
    );
    assert_eq!(
        ring.get_for_mut_where(&|e: &i32| e % 2_i32 == 0_i32),
        Some(&mut 2_i32)
    );

    assert_eq!(ring.get_for(&Selector::Index(2)), Some(&3_i32));
    assert_eq!(ring.get_for_mut(&Selector::Index(2)), Some(&mut 3_i32));
    assert_eq!(ring.get_for(&Selector::Index(50)), None);
    assert_eq!(ring.get_for_mut(&Selector::Index(50)), None);

    ring.focus_for(&Selector::Index(1));
    assert_eq!(ring.get_for(&Selector::Focused), Some(&2_i32));
    assert_eq!(ring.get_for_mut(&Selector::Focused), Some(&mut 2_i32));

    assert_eq!(ring.get_for(&Selector::Ident(96)), None);
    assert_eq!(ring.get_for_mut(&Selector::Ident(69)), None);

    assert_eq!(ring.as_vec(), vec![1_i32, 2_i32, 3_i32, 4_i32]);
}

#[test]
fn get_all_for() {
    let mut ring = Ring::new(vec![1_i32, 2_i32, 3_i32, 4_i32], false);
    assert_eq!(
        ring.get_all_for_where(&|e: &i32| e % 2_i32 == 0_i32),
        vec![&2_i32, &4_i32]
    );

    assert_eq!(ring.get_all_for(&Selector::Index(2)), vec![&3_i32]);
    assert_eq!(ring.get_all_for(&Selector::Index(50)), vec![&0_i32; 0]);

    ring.focus_for(&Selector::Index(1));
    assert_eq!(ring.get_all_for(&Selector::Focused), vec![&2_i32]);

    assert_eq!(ring.get_all_for(&Selector::Ident(96)), vec![&0_i32; 0]);
    assert_eq!(
        ring.get_all_for_where(&|e: &i32| e % 5_i32 == 0_i32),
        Vec::<&i32>::new()
    );

    assert_eq!(ring.as_vec(), vec![1_i32, 2_i32, 3_i32, 4_i32]);

    assert_eq!(ring.get_all_for(&Selector::First), vec![&1_i32]);
}

#[test]
fn indexed_element() {
    let ring = Ring::new(vec![2_i32, 3_i32, 5_i32, 7_i32, 11_i32], false);
    assert_eq!(ring.indexed_element(&Selector::Focused), Some((4, &11_i32)));
    assert_eq!(ring.indexed_element(&Selector::Index(3)), Some((3, &7_i32)));
    assert_eq!(
        ring.indexed_element_where(&|n: &i32| n % 5_i32 == 0_i32),
        Some((2, &5_i32))
    );
}

#[test]
fn insert_points() {
    let mut ring = Ring::new(vec![0_i32, 0_i32], false);
    ring.insert_at(&InsertPoint::Front, 1);
    assert_eq!(ring.as_vec(), vec![1, 0, 0]);
    ring.insert_at(&InsertPoint::Back, 2);
    assert_eq!(ring.as_vec(), vec![1, 0, 0, 2]);

    ring.insert_at(&InsertPoint::BeforeIndex(3), 3);
    assert_eq!(ring.as_vec(), vec![1, 0, 0, 3, 2]);
    ring.insert_at(&InsertPoint::AfterIndex(4), 6);
    assert_eq!(ring.as_vec(), vec![1, 0, 0, 3, 2, 6]);

    ring.focus_for(&Selector::Index(1));
    ring.insert_at(&InsertPoint::BeforeFocused, 4);
    assert_eq!(ring.as_vec(), vec![1, 4, 0, 0, 3, 2, 6]);
    ring.insert_at(&InsertPoint::AfterFocused, 5);
    assert_eq!(ring.as_vec(), vec![1, 4, 5, 0, 0, 3, 2, 6]);

    ring.focus_for(&Selector::Index(6));
    ring.insert_at(&InsertPoint::AfterFocused, 6);
    assert_eq!(ring.as_vec(), vec![1, 4, 5, 0, 0, 3, 2, 6, 6]);
}
