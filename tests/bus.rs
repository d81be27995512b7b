use hypivisor::bus::EventQueue;

#[test]
fn queue_is_fifo() {
    let mut q = EventQueue::new(4);
    assert!(!q.push("a".to_string()));
    assert!(!q.push("b".to_string()));
    assert_eq!(q.pop().as_deref(), Some("a"));
    assert_eq!(q.pop().as_deref(), Some("b"));
    assert_eq!(q.pop(), None);
}

#[test]
fn full_queue_drops_oldest() {
    let mut q = EventQueue::new(2);
    q.push("1".to_string());
    q.push("2".to_string());
    assert!(q.push("3".to_string()));
    assert_eq!(q.len(), 2);
    assert_eq!(q.pop().as_deref(), Some("2"));
    assert_eq!(q.pop().as_deref(), Some("3"));
}

#[test]
fn suggested_capacity_holds_its_bound() {
    let mut q = EventQueue::new(256);
    for i in 0..300 {
        q.push(i.to_string());
    }
    assert_eq!(q.len(), 256);
    assert_eq!(q.pop().as_deref(), Some("44"));
}
