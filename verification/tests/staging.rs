use zenoh_transport::message::{may_block, CongestionControl, Message, Priority, Reliability};
use zenoh_transport::tx_queue::{Enqueue, PriorityQueue, TxQueue};

fn message(
    priority: Priority,
    reliability: Reliability,
    congestion_control: CongestionControl,
    body: u32,
) -> Message<u32> {
    Message { priority, reliability, congestion_control, body }
}

fn block(priority: Priority, body: u32) -> Message<u32> {
    message(priority, Reliability::Reliable, CongestionControl::Block, body)
}

fn drop_(priority: Priority, body: u32) -> Message<u32> {
    message(priority, Reliability::Reliable, CongestionControl::Drop, body)
}

fn evicted(outcome: Enqueue<u32>) -> Option<u32> {
    match outcome {
        Enqueue::Queued { evicted } => evicted.map(|m| m.body),
        other => panic!("not queued: {:?}", other),
    }
}

#[test]
fn only_reliable_block_blocks() {
    let p = Priority::Data;
    for (reliability, congestion, expected) in [
        (Reliability::Reliable, CongestionControl::Block, true),
        (Reliability::Reliable, CongestionControl::Drop, false),
        (Reliability::Reliable, CongestionControl::BlockFirst, false),
        (Reliability::BestEffort, CongestionControl::Block, false),
        (Reliability::BestEffort, CongestionControl::Drop, false),
        (Reliability::BestEffort, CongestionControl::BlockFirst, false),
    ] {
        assert_eq!(may_block(&message(p, reliability, congestion, 0)), expected);
    }
}

#[test]
fn priorities_have_indices() {
    assert_eq!(Priority::NUM, 8);
    assert_eq!(Priority::Control.index(), 0);
    assert_eq!(Priority::RealTime.index(), 1);
    assert_eq!(Priority::InteractiveHigh.index(), 2);
    assert_eq!(Priority::InteractiveLow.index(), 3);
    assert_eq!(Priority::DataHigh.index(), 4);
    assert_eq!(Priority::Data.index(), 5);
    assert_eq!(Priority::DataLow.index(), 6);
    assert_eq!(Priority::Background.index(), 7);
    for i in 0..8usize {
        assert_eq!(Priority::from_index(i).unwrap().index(), i);
    }
    assert_eq!(Priority::from_index(8), None);
}

#[test]
fn first_in_first_out() {
    let mut q = TxQueue::new(None);
    for body in 0..8u32 {
        assert_eq!(evicted(q.enqueue(block(Priority::Data, body))), None);
    }
    for body in 0..8u32 {
        assert_eq!(q.pop(5).unwrap().body, body);
    }
    assert_eq!(q.pop(5), None);
}

#[test]
fn full_queue_evicts_oldest_evictable() {
    let p = Priority::Data;
    let mut q = TxQueue::new(Some("3"));
    assert_eq!(evicted(q.enqueue(block(p, 1))), None);
    assert_eq!(evicted(q.enqueue(drop_(p, 2))), None);
    assert_eq!(
        evicted(q.enqueue(message(p, Reliability::Reliable, CongestionControl::BlockFirst, 3))),
        None
    );
    assert_eq!(evicted(q.enqueue(block(p, 4))), Some(2));
    assert_eq!(evicted(q.enqueue(drop_(p, 5))), Some(3));
    assert_eq!(evicted(q.enqueue(drop_(p, 6))), Some(5));
    assert_eq!(q.pop(5).unwrap().body, 1);
    assert_eq!(q.pop(5).unwrap().body, 4);
    assert_eq!(q.pop(5).unwrap().body, 6);
    assert_eq!(q.pop(5), None);
}

#[test]
fn saturated_queue_drops_evictable_newcomer() {
    let p = Priority::RealTime;
    let mut q = TxQueue::with_capacity(2);
    q.enqueue(block(p, 1));
    q.enqueue(block(p, 2));
    assert_eq!(q.enqueue(drop_(p, 3)), Enqueue::Dropped(drop_(p, 3)));
    let best_effort = message(p, Reliability::BestEffort, CongestionControl::Block, 4);
    assert!(matches!(q.enqueue(best_effort), Enqueue::Dropped(m) if m.body == 4));
    assert_eq!(q.pop(1).unwrap().body, 1);
    assert_eq!(q.pop(1).unwrap().body, 2);
    assert_eq!(q.pop(1), None);
}

#[test]
fn saturated_queue_makes_block_message_wait_until_a_slot_is_freed() {
    let p = Priority::Control;
    let mut q = TxQueue::with_capacity(2);
    q.enqueue(block(p, 1));
    q.enqueue(block(p, 2));
    assert_eq!(q.enqueue(block(p, 3)), Enqueue::Wait(block(p, 3)));
    assert_eq!(q.enqueue(block(p, 3)), Enqueue::Wait(block(p, 3)));
    assert_eq!(q.pop(0).unwrap().body, 1);
    assert_eq!(q.enqueue(block(p, 3)), Enqueue::Queued { evicted: None });
    assert_eq!(q.pop(0).unwrap().body, 2);
    assert_eq!(q.pop(0).unwrap().body, 3);
}

#[test]
fn shutdown_discards_instead_of_waiting() {
    let p = Priority::Control;
    let mut q = TxQueue::with_capacity(1);
    assert!(!q.is_disabled());
    q.enqueue(block(p, 1));
    q.disable();
    assert!(q.is_disabled());
    assert_eq!(q.enqueue(block(p, 2)), Enqueue::Dropped(block(p, 2)));
    assert_eq!(q.pop(0).unwrap().body, 1);
    // With room left a message is queued even then.
    assert_eq!(q.enqueue(block(p, 3)), Enqueue::Queued { evicted: None });
}

#[test]
fn priorities_do_not_share_room() {
    let mut q = TxQueue::with_capacity(1);
    q.enqueue(block(Priority::Data, 1));
    assert!(matches!(q.enqueue(block(Priority::Data, 2)), Enqueue::Wait(_)));
    assert_eq!(q.enqueue(block(Priority::Control, 3)), Enqueue::Queued { evicted: None });
    assert_eq!(q.enqueue(drop_(Priority::Background, 4)), Enqueue::Queued { evicted: None });
    assert_eq!(q.pop(7).unwrap().body, 4);
    assert_eq!(q.pop(5).unwrap().body, 1);
    assert_eq!(q.pop(0).unwrap().body, 3);
}

#[test]
fn block_messages_survive_a_flood() {
    let p = Priority::Data;
    let mut q = TxQueue::with_capacity(4);
    let mut sent = Vec::new();
    let mut received = Vec::new();
    for body in 0..100u32 {
        if body % 3 == 0 {
            let mut msg = block(p, body);
            while let Enqueue::Wait(back) = q.enqueue(msg) {
                msg = back;
                received.extend(q.pop(5).filter(may_block).map(|m| m.body));
            }
            sent.push(body);
        } else {
            q.enqueue(drop_(p, body));
        }
    }
    while let Some(m) = q.pop(5) {
        if may_block(&m) {
            received.push(m.body);
        }
    }
    assert_eq!(sent, received);
}

#[test]
fn slow_link_does_not_starve_fast_link() {
    // The queues of the slow link are never drained, those of the fast link are.
    let mut slow = TxQueue::with_capacity(8);
    let mut fast = TxQueue::with_capacity(8);
    let mut delivered = 0;
    let mut shed = 0;
    for body in 0..250u32 {
        if evicted(slow.enqueue(drop_(Priority::Data, body))).is_some() {
            shed += 1;
        }
        assert_eq!(evicted(fast.enqueue(drop_(Priority::Data, body))), None);
        if fast.pop(5).is_some() {
            delivered += 1;
        }
    }
    assert_eq!(delivered, 250);
    assert_eq!(shed, 250 - 8);
}

#[test]
fn notification_is_taken_once() {
    let mut q = TxQueue::with_capacity(1);
    assert!(!q.take_notification());
    q.enqueue(block(Priority::Data, 1));
    assert!(q.take_notification());
    assert!(!q.take_notification());
    q.enqueue(drop_(Priority::Data, 2));
    assert!(!q.take_notification());
    q.disable();
    assert!(q.take_notification());
}

#[test]
fn single_queue_offers_and_pops() {
    let mut q = PriorityQueue::new();
    assert_eq!(q.pop(), None);
    assert_eq!(q.offer(drop_(Priority::Data, 1), 1, false), Enqueue::Queued { evicted: None });
    assert_eq!(evicted(q.offer(block(Priority::Data, 2), 1, false)), Some(1));
    assert!(matches!(q.offer(block(Priority::Data, 3), 1, false), Enqueue::Wait(_)));
    assert!(matches!(q.offer(block(Priority::Data, 3), 1, true), Enqueue::Dropped(_)));
    assert_eq!(q.pop().unwrap().body, 2);
}
