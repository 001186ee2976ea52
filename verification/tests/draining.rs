use zenoh_transport::drain::{DrainState, DrainWorker};
use zenoh_transport::message::{CongestionControl, Message, Priority, Reliability};
use zenoh_transport::tx_queue::TxQueue;

fn message(priority: Priority, body: u32) -> Message<u32> {
    Message {
        priority,
        reliability: Reliability::Reliable,
        congestion_control: CongestionControl::Drop,
        body,
    }
}

#[test]
fn sweep_follows_priority() {
    let mut q = TxQueue::with_capacity(8);
    let mut w = DrainWorker::new();
    q.enqueue(message(Priority::Background, 1));
    q.enqueue(message(Priority::Control, 2));
    q.enqueue(message(Priority::Data, 3));
    q.enqueue(message(Priority::Data, 4));
    q.enqueue(message(Priority::Control, 5));
    assert!(w.wake(&mut q));
    assert_eq!(w.state(), DrainState::Sweeping);
    let mut order = Vec::new();
    while let Some(m) = w.next(&mut q) {
        order.push(m.body);
        assert_eq!(w.state(), DrainState::Pushing);
        assert_eq!(w.pushed(Ok(true)), Some(true));
    }
    assert_eq!(order, vec![2, 5, 3, 4, 1]);
    assert_eq!(w.state(), DrainState::Waiting);
}

#[test]
fn urgent_latecomer_is_taken_first() {
    let mut q = TxQueue::with_capacity(8);
    let mut w = DrainWorker::new();
    q.enqueue(message(Priority::Data, 1));
    q.enqueue(message(Priority::Data, 2));
    assert!(w.wake(&mut q));
    assert_eq!(w.next(&mut q).unwrap().body, 1);
    q.enqueue(message(Priority::Control, 3));
    q.enqueue(message(Priority::DataLow, 4));
    w.pushed(Ok(true));
    assert_eq!(w.next(&mut q).unwrap().body, 3);
    w.pushed(Ok(true));
    assert_eq!(w.next(&mut q).unwrap().body, 2);
    w.pushed(Ok(true));
    assert_eq!(w.next(&mut q).unwrap().body, 4);
    w.pushed(Ok(true));
    assert_eq!(w.next(&mut q), None);
    assert_eq!(w.state(), DrainState::Waiting);
    // The latecomers left a wake-up behind, which finds nothing.
    assert!(w.wake(&mut q));
    assert_eq!(w.next(&mut q), None);
    assert!(!w.wake(&mut q));
}

#[test]
fn control_is_not_held_up_by_steady_traffic() {
    let mut q = TxQueue::with_capacity(4);
    let mut w = DrainWorker::new();
    q.enqueue(message(Priority::Data, 0));
    assert!(w.wake(&mut q));
    for body in 1..20u32 {
        assert_eq!(w.next(&mut q).unwrap().priority, Priority::Data);
        q.enqueue(message(Priority::Data, body));
        w.pushed(Ok(true));
    }
    q.enqueue(message(Priority::Control, 100));
    assert_eq!(w.next(&mut q).unwrap().body, 100);
}

#[test]
fn uncongested_messages_are_each_taken_once() {
    let mut q = TxQueue::with_capacity(8);
    let mut w = DrainWorker::new();
    let mut taken = Vec::new();
    let mut body = 0u32;
    while body < 250 {
        // Some are staged while the worker waits, some while it pushes.
        q.enqueue(message(Priority::Data, body));
        body += 1;
        assert!(w.wake(&mut q));
        while let Some(m) = w.next(&mut q) {
            taken.push(m.body);
            if body % 3 != 0 {
                q.enqueue(message(Priority::Data, body));
                body += 1;
            }
            assert_eq!(w.pushed(Ok(true)), Some(true));
        }
        while w.wake(&mut q) {
            assert_eq!(w.next(&mut q), None);
        }
    }
    assert_eq!(taken, (0..body).collect::<Vec<u32>>());
}

#[test]
fn worker_waits_without_wake_up() {
    let mut q: TxQueue<u32> = TxQueue::with_capacity(1);
    let mut w = DrainWorker::new();
    assert!(!w.wake(&mut q));
    assert_eq!(w.state(), DrainState::Waiting);
}

#[test]
fn worker_stops_on_shutdown() {
    let mut q = TxQueue::with_capacity(1);
    let mut w = DrainWorker::new();
    q.enqueue(message(Priority::Data, 1));
    q.disable();
    assert!(w.wake(&mut q));
    assert_eq!(w.state(), DrainState::Stopped);
    // What is left stays in the queue.
    assert_eq!(q.pop(5).unwrap().body, 1);
}

#[test]
fn worker_stops_whatever_follows_the_shutdown() {
    let mut q = TxQueue::with_capacity(1);
    let mut w = DrainWorker::new();
    q.enqueue(message(Priority::Data, 1));
    assert!(w.wake(&mut q));
    assert!(w.next(&mut q).is_some());
    // The shutdown comes while the worker pushes, and more is staged after it.
    q.disable();
    q.enqueue(message(Priority::Data, 2));
    q.enqueue(message(Priority::Data, 3));
    q.disable();
    assert_eq!(w.pushed(Ok(true)), Some(true));
    assert_eq!(w.next(&mut q).unwrap().body, 3);
    w.pushed(Ok(true));
    assert_eq!(w.next(&mut q), None);
    assert!(w.wake(&mut q));
    assert_eq!(w.state(), DrainState::Stopped);
}

#[test]
fn worker_stops_when_transport_is_closed() {
    let mut q = TxQueue::with_capacity(2);
    let mut w = DrainWorker::new();
    q.enqueue(message(Priority::Data, 1));
    assert!(w.wake(&mut q));
    assert!(w.next(&mut q).is_some());
    assert_eq!(w.pushed(Ok(false)), Some(false));
    assert_eq!(w.state(), DrainState::Sweeping);
    q.enqueue(message(Priority::Data, 2));
    assert!(w.next(&mut q).is_some());
    assert_eq!(w.pushed(Err(())), None);
    assert_eq!(w.state(), DrainState::Stopped);
}

#[test]
fn worker_stops_when_no_wake_up_can_come() {
    let mut w = DrainWorker::new();
    w.wait_failed();
    assert_eq!(w.state(), DrainState::Stopped);
}
