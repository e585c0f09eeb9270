use riirc::queue::Queue;

#[test]
fn capacity_two_keeps_last_two_of_five() {
    let mut q: Queue<u32> = Queue::new(2);
    for i in 1..=5u32 {
        q.push(i);
        assert!(q.len() <= 2);
    }
    assert_eq!(q.pop(), Some(4));
    assert_eq!(q.pop(), Some(5));
    assert_eq!(q.pop(), None);
}

#[test]
fn n_plus_one_pushes_keep_last_n() {
    let n = 4usize;
    let mut q: Queue<usize> = Queue::new(n);
    for i in 0..=n {
        q.push(i);
    }
    assert_eq!(q.len(), n);
    for i in 1..=n {
        assert_eq!(q.pop(), Some(i));
    }
    assert!(q.is_empty());
}

#[test]
fn push_reports_evicted_entry() {
    let mut q: Queue<&str> = Queue::new(1);
    assert_eq!(q.push("a"), None);
    assert_eq!(q.push("b"), Some("a"));
    assert_eq!(q.back(), Some(&"b"));
}

#[test]
fn zero_capacity_keeps_nothing() {
    let mut q: Queue<u8> = Queue::new(0);
    assert_eq!(q.push(7), Some(7));
    assert!(q.is_empty());
}

#[test]
fn back_nth_iter_and_clear() {
    let mut q: Queue<u8> = Queue::new(3);
    assert_eq!(q.back(), None);
    q.push(1);
    q.push(2);
    q.push(3);
    assert_eq!(q.back(), Some(&3));
    assert_eq!(q.nth_from_end(0), Some(&3));
    assert_eq!(q.nth_from_end(2), Some(&1));
    assert_eq!(q.nth_from_end(3), None);
    assert_eq!(q.iter(), vec![&1, &2, &3]);
    q.clear();
    assert!(q.is_empty());
    assert_eq!(q.pop(), None);
}
