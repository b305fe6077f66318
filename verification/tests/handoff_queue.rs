use fiddler_crab::handoff_queue::HandoffQueue;
use fiddler_crab::request_unit::RequestUnit;

fn queued(id: usize) -> RequestUnit {
    RequestUnit::new(id, "m".to_string(), "b".to_string())
}

#[test]
fn new_queue_is_empty() {
    let queue = HandoffQueue::new(3);
    assert_eq!(queue.len(), 0);
    assert!(queue.is_empty());
    assert!(!queue.is_full());
    assert_eq!(queue.capacity(), 3);
}

#[test]
fn queue_is_first_in_first_out() {
    let mut queue = HandoffQueue::new(3);
    assert!(queue.push_back(queued(1)).is_none());
    assert!(queue.push_back(queued(2)).is_none());
    assert!(queue.push_back(queued(3)).is_none());
    assert_eq!(queue.pop_front().map(|u| u.id), Some(1));
    assert_eq!(queue.pop_front().map(|u| u.id), Some(2));
    assert_eq!(queue.pop_front().map(|u| u.id), Some(3));
    assert_eq!(queue.pop_front(), None);
}

#[test]
fn full_queue_hands_the_request_back() {
    let mut queue = HandoffQueue::new(2);
    assert!(queue.push_back(queued(1)).is_none());
    assert!(queue.push_back(queued(2)).is_none());
    assert!(queue.is_full());
    assert_eq!(queue.push_back(queued(3)), Some(queued(3)));
    assert_eq!(queue.len(), 2);
}

#[test]
fn queue_of_capacity_zero_takes_nothing() {
    let mut queue = HandoffQueue::new(0);
    assert!(queue.is_full());
    assert_eq!(queue.push_back(queued(1)), Some(queued(1)));
    assert!(queue.is_empty());
    assert_eq!(queue.pop_front(), None);
}

#[test]
fn drain_takes_everything_in_order() {
    let mut queue = HandoffQueue::new(4);
    queue.push_back(queued(4));
    queue.push_back(queued(2));
    queue.push_back(queued(9));
    let taken = queue.drain();
    assert_eq!(taken.iter().map(|u| u.id).collect::<Vec<usize>>(), vec![4, 2, 9]);
    assert!(queue.is_empty());
    assert_eq!(queue.capacity(), 4);
    assert!(queue.drain().is_empty());
}
