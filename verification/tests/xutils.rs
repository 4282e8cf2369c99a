use lwm::xutils::Stack;

#[test]
fn stack_push_and_peek() {
    let mut stack: Stack<u32> = Stack::new();
    assert_eq!(stack.len(), 0);
    assert_eq!(stack.front(), None);
    assert_eq!(stack.back(), None);

    stack.push_back(10);
    stack.push_back(20);
    stack.push_front(5);
    assert_eq!(stack.len(), 3);
    assert_eq!(stack.front(), Some(&5));
    assert_eq!(stack.back(), Some(&20));
    assert_eq!(stack.iter(), vec![&5, &10, &20]);
}

#[test]
fn stack_remove_and_recycle() {
    let mut stack: Stack<u32> = Stack::new();
    let a = stack.push_back(1);
    let b = stack.push_back(2);
    let c = stack.push_back(3);
    assert_eq!(stack.iter(), vec![&1, &2, &3]);

    // unlink the middle element
    stack.remove_node(b);
    assert_eq!(stack.len(), 2);
    assert_eq!(stack.iter(), vec![&1, &3]);
    assert_eq!(stack.front(), Some(&1));
    assert_eq!(stack.back(), Some(&3));

    // the freed slot is recycled by the next push
    let d = stack.push_front(9);
    assert_eq!(d, b);
    assert_eq!(stack.iter(), vec![&9, &1, &3]);

    stack.remove_node(a);
    stack.remove_node(c);
    assert_eq!(stack.iter(), vec![&9]);
    stack.remove_node(d);
    assert_eq!(stack.len(), 0);
    assert_eq!(stack.front(), None);
}
