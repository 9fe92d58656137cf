use chili::stack::Stack;

#[test]
fn push_pop_and_peek() {
    let mut s: Stack<u32, 8> = Stack::new();
    assert!(s.is_empty());
    s.push(1);
    s.push(2);
    s.push(3);
    assert_eq!(s.len(), 3);
    assert_eq!(*s.peek(0), 3);
    assert_eq!(*s.peek(2), 1);
    *s.peek_mut(1) = 20;
    assert_eq!(*s.get(1), 20);
    assert_eq!(s.pop(), 3);
    assert_eq!(s.len(), 2);
}

#[test]
fn take_set_and_truncate() {
    let mut s: Stack<u32, 8> = Stack::new();
    for v in [10, 11, 12, 13] {
        s.push(v);
    }
    assert_eq!(s.take(1), 12);
    assert_eq!(s.iter().copied().collect::<Vec<u32>>(), vec![10, 11, 13]);
    s.set(0, 5);
    *s.get_mut(2) = 7;
    assert_eq!(s.iter().copied().collect::<Vec<u32>>(), vec![5, 11, 7]);
    s.truncate(1);
    assert_eq!(s.len(), 1);
    s.truncate(4);
    assert_eq!(s.len(), 1);
}
