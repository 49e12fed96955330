use codesum::{Channel, Received};

#[test]
fn new_queue_is_open_and_empty() {
    let mut queue = Channel::new();
    assert!(queue.open());
    assert_eq!(queue.recv(), Received::Empty);
}

#[test]
fn items_leave_in_the_order_they_came() {
    let mut queue = Channel::new();
    assert!(queue.send("first".to_string()));
    assert!(queue.send("second".to_string()));
    assert!(queue.send("third".to_string()));
    assert_eq!(queue.recv(), Received::Item("first".to_string()));
    assert_eq!(queue.recv(), Received::Item("second".to_string()));
    assert!(queue.send("fourth".to_string()));
    assert_eq!(queue.recv(), Received::Item("third".to_string()));
    assert_eq!(queue.recv(), Received::Item("fourth".to_string()));
    assert_eq!(queue.recv(), Received::Empty);
}

#[test]
fn closing_keeps_what_waits() {
    let mut queue = Channel::new();
    assert!(queue.send("last".to_string()));
    queue.close();
    assert!(!queue.open());
    assert_eq!(queue.recv(), Received::Item("last".to_string()));
    assert_eq!(queue.recv(), Received::Closed);
    assert_eq!(queue.recv(), Received::Closed);
}

#[test]
fn closed_queue_refuses_items() {
    let mut queue = Channel::new();
    queue.close();
    assert!(!queue.send("late".to_string()));
    assert_eq!(queue.recv(), Received::Closed);
}

#[test]
fn two_queues_do_not_mix() {
    let mut paths = Channel::new();
    let mut fragments = Channel::new();
    assert!(paths.send("a.txt".to_string()));
    assert_eq!(fragments.recv(), Received::Empty);
    assert!(fragments.send("alpha".to_string()));
    assert_eq!(paths.recv(), Received::Item("a.txt".to_string()));
    assert_eq!(fragments.recv(), Received::Item("alpha".to_string()));
}
