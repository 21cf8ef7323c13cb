use data_structures::queue::Queue;

#[test]
fn peek_on_an_empty_queue_returns_none() {
    let queue = Queue::<i32>::new();
    assert!(queue.peek().is_none());
}

#[test]
fn enqueue_adds_an_element_at_the_end_of_the_queue() {
    let mut queue = Queue::new();
    let first_elem = 42;
    let second_elem = 100;

    queue.enqueue(first_elem);
    queue.enqueue(second_elem);

    assert_eq!(first_elem, *queue.peek().expect("Element not found"));
}

#[test]
fn dequeue_takes_the_first_element_of_the_queue() {
    let mut queue = Queue::new();
    let first_elem = 42;
    let second_elem = 100;

    queue.enqueue(first_elem);
    queue.enqueue(second_elem);

    assert_eq!(first_elem, queue.dequeue().expect("Element not found"));
    assert_eq!(second_elem, *queue.peek().expect("Element not found"));
}

#[test]
fn dequeue_returns_none_if_queue_is_empty() {
    let mut queue = Queue::<i32>::new();
    assert!(queue.dequeue().is_none());
}

#[test]
fn elements_leave_the_queue_in_the_order_in_which_they_came() {
    let mut queue = Queue::new();
    queue.enqueue(1);
    queue.enqueue(2);
    queue.enqueue(3);
    assert_eq!(queue.dequeue(), Some(1));
    queue.enqueue(4);
    assert_eq!(queue.dequeue(), Some(2));
    assert_eq!(queue.dequeue(), Some(3));
    assert_eq!(queue.dequeue(), Some(4));
    assert_eq!(queue.dequeue(), None);
    assert_eq!(queue.peek(), None);
}

#[test]
fn peek_leaves_the_queue_as_it_is() {
    let mut queue = Queue::new();
    queue.enqueue("front");
    queue.enqueue("back");
    assert_eq!(queue.peek(), Some(&"front"));
    assert_eq!(queue.peek(), Some(&"front"));
    assert_eq!(queue.dequeue(), Some("front"));
    assert_eq!(queue.dequeue(), Some("back"));
}
