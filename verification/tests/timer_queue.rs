use rtic_r52::timer_queue::{Entry, TimerQueue};

fn entry(deadline: u64, waiter: usize) -> Entry {
    Entry { deadline, waiter }
}

fn contents(queue: &mut TimerQueue) -> Vec<Entry> {
    let all = queue.pop_due(u64::MAX);
    for e in all.iter() {
        queue.insert(e.deadline, e.waiter);
    }
    all
}

#[test]
fn a_new_queue_is_empty() {
    let mut queue = TimerQueue::new();
    assert!(queue.is_empty());
    assert_eq!(queue.len(), 0);
    assert_eq!(queue.peek(), None);
    assert_eq!(queue.pop_due(u64::MAX), vec![]);
}

#[test]
fn insert_keeps_deadlines_ascending() {
    let mut queue = TimerQueue::new();
    assert!(queue.insert(50, 1));
    assert!(queue.insert(20, 2));
    assert!(!queue.insert(80, 3));
    assert!(!queue.insert(30, 4));
    assert_eq!(queue.len(), 4);
    assert_eq!(queue.peek(), Some(entry(20, 2)));
    assert_eq!(
        contents(&mut queue),
        vec![entry(20, 2), entry(30, 4), entry(50, 1), entry(80, 3)]
    );
}

#[test]
fn equal_deadlines_stay_in_insertion_order() {
    let mut queue = TimerQueue::new();
    assert!(queue.insert(10, 1));
    assert!(!queue.insert(10, 2));
    assert!(!queue.insert(10, 3));
    assert!(queue.insert(5, 4));
    assert!(!queue.insert(5, 5));
    assert_eq!(
        contents(&mut queue),
        vec![entry(5, 4), entry(5, 5), entry(10, 1), entry(10, 2), entry(10, 3)]
    );
}

#[test]
fn pop_due_takes_what_is_due_and_leaves_the_rest() {
    let mut queue = TimerQueue::new();
    queue.insert(50, 1);
    queue.insert(20, 2);
    queue.insert(80, 3);
    assert_eq!(queue.pop_due(60), vec![entry(20, 2), entry(50, 1)]);
    assert_eq!(queue.len(), 1);
    assert_eq!(queue.peek(), Some(entry(80, 3)));
}

#[test]
fn pop_due_takes_an_entry_at_its_very_deadline() {
    let mut queue = TimerQueue::new();
    queue.insert(50, 1);
    assert_eq!(queue.pop_due(49), vec![]);
    assert_eq!(queue.pop_due(50), vec![entry(50, 1)]);
    assert!(queue.is_empty());
}

#[test]
fn cancel_before_firing_removes_the_entry() {
    let mut queue = TimerQueue::new();
    queue.insert(50, 1);
    queue.insert(20, 2);
    queue.insert(80, 3);
    assert!(queue.cancel(1));
    assert_eq!(queue.pop_due(60), vec![entry(20, 2)]);
    assert_eq!(queue.peek(), Some(entry(80, 3)));
}

#[test]
fn cancel_after_firing_changes_nothing() {
    let mut queue = TimerQueue::new();
    queue.insert(50, 1);
    queue.insert(20, 2);
    queue.insert(80, 3);
    assert_eq!(queue.pop_due(60), vec![entry(20, 2), entry(50, 1)]);
    assert!(!queue.cancel(1));
    assert!(!queue.cancel(2));
    assert_eq!(queue.len(), 1);
    assert_eq!(queue.peek(), Some(entry(80, 3)));
}

#[test]
fn cancel_of_an_unknown_waiter_changes_nothing() {
    let mut queue = TimerQueue::new();
    queue.insert(50, 1);
    assert!(!queue.cancel(9));
    assert_eq!(contents(&mut queue), vec![entry(50, 1)]);
}

#[test]
fn cancel_takes_out_every_entry_of_the_waiter() {
    let mut queue = TimerQueue::new();
    queue.insert(50, 1);
    queue.insert(20, 2);
    queue.insert(80, 1);
    queue.insert(60, 3);
    assert!(queue.cancel(1));
    assert_eq!(contents(&mut queue), vec![entry(20, 2), entry(60, 3)]);
}

#[test]
fn cancel_of_the_head_uncovers_the_next_entry() {
    let mut queue = TimerQueue::new();
    queue.insert(50, 1);
    queue.insert(20, 2);
    assert!(queue.cancel(2));
    assert_eq!(queue.peek(), Some(entry(50, 1)));
}
