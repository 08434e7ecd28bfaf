use yarn_slinger::collections::{Queue, Stack};

#[test]
fn queue_is_first_in_first_out() {
    let mut queue: Queue<i32> = Queue::new();
    assert!(queue.is_empty());
    queue.enqueue(1);
    queue.enqueue(2);
    queue.enqueue(3);
    assert!(!queue.is_empty());
    assert_eq!(queue.dequeue(), Some(1));
    assert_eq!(queue.dequeue(), Some(2));
    assert_eq!(queue.dequeue(), Some(3));
    assert_eq!(queue.dequeue(), None);
}

#[test]
fn queue_clear_empties_the_queue() {
    let mut queue: Queue<i32> = Queue::default();
    queue.enqueue(7);
    queue.enqueue(8);
    queue.clear();
    assert!(queue.is_empty());
    assert_eq!(queue.dequeue(), None);
}

#[test]
fn stack_is_first_in_last_out() {
    let mut stack: Stack<i32> = Stack::new();
    assert!(stack.is_empty());
    stack.push(1);
    stack.push(2);
    stack.push(3);
    assert_eq!(stack.len(), 3);
    assert_eq!(stack.peek(), Some(&3));
    assert_eq!(stack.pop(), Some(3));
    assert_eq!(stack.pop(), Some(2));
    assert_eq!(stack.pop(), Some(1));
    assert_eq!(stack.pop(), None);
    assert_eq!(stack.peek(), None);
}

#[test]
fn stack_clear_empties_the_stack() {
    let mut stack: Stack<i32> = Stack::default();
    stack.push(4);
    stack.clear();
    assert!(stack.is_empty());
    assert_eq!(stack.pop(), None);
}
