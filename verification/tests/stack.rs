use data_structures::stack::Stack;

#[test]
fn peek_on_an_empty_stack_returns_none() {
    let stack = Stack::<i32>::new();
    assert!(stack.peek().is_none());
}

#[test]
fn push_adds_an_element_at_the_end_of_the_stack() {
    let mut stack = Stack::new();
    let elem = 42;
    stack.push(elem);
    assert_eq!(elem, *stack.peek().expect("Element not found"));
}

#[test]
fn pop_takes_an_element_from_the_end_of_the_list() {
    let mut stack = Stack::new();
    let first_elem = 42;
    let second_elem = 100;

    stack.push(first_elem);
    stack.push(second_elem);

    assert_eq!(second_elem, stack.pop().expect("Element not found"));
    assert_eq!(first_elem, *stack.peek().expect("Element not found"));
}

#[test]
fn pop_on_an_empty_stack_returns_none() {
    let mut stack = Stack::<i32>::new();
    assert_eq!(stack.pop(), None);
    assert_eq!(stack.peek(), None);
}

#[test]
fn elements_leave_the_stack_in_reverse_order() {
    let mut stack = Stack::new();
    stack.push(1);
    stack.push(2);
    stack.push(3);
    assert_eq!(stack.peek(), Some(&3));
    assert_eq!(stack.pop(), Some(3));
    stack.push(4);
    assert_eq!(stack.pop(), Some(4));
    assert_eq!(stack.pop(), Some(2));
    assert_eq!(stack.pop(), Some(1));
    assert_eq!(stack.pop(), None);
}
