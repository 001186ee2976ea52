use zenoh_transport::link_tx_queues::{LinkTxQueues, Popped, Pushed};
use zenoh_transport::message::Priority;

fn kept(evicted: Option<u32>) -> Pushed<u32> {
    Pushed { queued: true, evicted, log: None }
}

#[test]
fn push_evicts_oldest_when_full() {
    let mut q = LinkTxQueues::with_capacity(2, 1000);
    let p = Priority::Data;
    assert_eq!(q.push_drop_oldest(p, 1u32), kept(None));
    assert_eq!(q.push_drop_oldest(p, 2), kept(None));
    assert_eq!(q.push_drop_oldest(p, 3), Pushed { queued: true, evicted: Some(1), log: Some(1) });
    assert_eq!(q.push_drop_oldest(p, 4), kept(Some(2)));
    assert_eq!(q.pop(), Popped::Ready(3));
    assert_eq!(q.pop(), Popped::Ready(4));
    assert_eq!(q.pop(), Popped::Wait);
}

#[test]
fn default_capacity_keeps_the_newest() {
    let mut q = LinkTxQueues::new(None, None);
    let mut evicted = Vec::new();
    for body in 0..100u32 {
        evicted.extend(q.push_drop_oldest(Priority::Background, body).evicted);
    }
    assert_eq!(evicted, (0..36u32).collect::<Vec<u32>>());
    for body in 36..100u32 {
        assert_eq!(q.pop(), Popped::Ready(body));
    }
    assert_eq!(q.pop(), Popped::Wait);
}

#[test]
fn zero_capacity_holds_one() {
    let mut q = LinkTxQueues::with_capacity(0, 1000);
    assert_eq!(q.push_drop_oldest(Priority::Data, 1u32), kept(None));
    assert_eq!(q.push_drop_oldest(Priority::Data, 2).evicted, Some(1));
    assert_eq!(q.pop(), Popped::Ready(2));
    assert_eq!(q.pop(), Popped::Wait);
    let mut q = LinkTxQueues::new(Some("0"), None);
    assert_eq!(q.push_drop_oldest(Priority::Data, 1u32).evicted, None);
    assert_eq!(q.push_drop_oldest(Priority::Data, 2).evicted, Some(1));
}

#[test]
fn pop_is_strictly_by_priority() {
    let mut q = LinkTxQueues::with_capacity(4, 1);
    q.push_drop_oldest(Priority::Background, 1u32);
    q.push_drop_oldest(Priority::Data, 2);
    q.push_drop_oldest(Priority::Control, 3);
    q.push_drop_oldest(Priority::Data, 4);
    assert_eq!(q.pop(), Popped::Ready(3));
    assert_eq!(q.pop(), Popped::Ready(2));
    // What is more urgent goes first, also when it comes later.
    q.push_drop_oldest(Priority::RealTime, 5);
    assert_eq!(q.pop(), Popped::Ready(5));
    assert_eq!(q.pop(), Popped::Ready(4));
    assert_eq!(q.pop(), Popped::Ready(1));
    assert_eq!(q.pop(), Popped::Wait);
}

#[test]
fn eviction_is_per_priority() {
    let mut q = LinkTxQueues::with_capacity(1, 1);
    q.push_drop_oldest(Priority::Data, 1u32);
    assert_eq!(q.push_drop_oldest(Priority::DataLow, 2), kept(None));
    assert_eq!(q.push_drop_oldest(Priority::Data, 3).evicted, Some(1));
    assert_eq!(q.pop(), Popped::Ready(3));
    assert_eq!(q.pop(), Popped::Ready(2));
}

#[test]
fn closed_queues_drain_and_refuse() {
    let mut q = LinkTxQueues::with_capacity(4, 1);
    q.push_drop_oldest(Priority::Data, 1u32);
    q.push_drop_oldest(Priority::Control, 2);
    q.close();
    assert_eq!(
        q.push_drop_oldest(Priority::Control, 3),
        Pushed { queued: false, evicted: Some(3), log: None }
    );
    assert_eq!(q.pop(), Popped::Ready(2));
    assert_eq!(q.pop(), Popped::Ready(1));
    assert_eq!(q.pop(), Popped::Closed);
    assert_eq!(q.pop(), Popped::Closed);
}

#[test]
fn what_left_and_what_stays_is_what_was_accepted() {
    let mut q = LinkTxQueues::with_capacity(2, 1);
    let (a, b) = (Priority::Data, Priority::RealTime);
    let mut departed = Vec::new();
    departed.extend(q.push_drop_oldest(a, 1u32).evicted);
    departed.extend(q.push_drop_oldest(a, 2).evicted);
    q.push_drop_oldest(b, 10);
    departed.extend(q.push_drop_oldest(a, 3).evicted);
    assert_eq!(q.pop(), Popped::Ready(10));
    assert_eq!(q.pop(), Popped::Ready(2));
    departed.push(2);
    departed.extend(q.push_drop_oldest(a, 4).evicted);
    departed.extend(q.push_drop_oldest(a, 5).evicted);
    q.close();
    // A refused message comes back itself; what is queued stays.
    assert_eq!(q.push_drop_oldest(a, 6).evicted, Some(6));
    assert_eq!(departed, vec![1, 2, 3]);
    assert_eq!(q.pop(), Popped::Ready(4));
    assert_eq!(q.pop(), Popped::Ready(5));
    assert_eq!(q.pop(), Popped::Closed);
}

#[test]
fn one_eviction_in_every_few_is_logged() {
    let mut q = LinkTxQueues::new(Some("1"), Some("3"));
    q.push_drop_oldest(Priority::Data, 0u32);
    let mut logged = Vec::new();
    for body in 1..=9u32 {
        logged.extend(q.push_drop_oldest(Priority::Data, body).log);
    }
    assert_eq!(logged, vec![1, 4, 7]);
}
