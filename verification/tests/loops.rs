use zenoh_transport::message::Priority;
use zenoh_transport::read_loop::{
    read_plan, read_result, ReadAction, ReadError, ReadEvent, ReadLoop, ReadStage,
};
use zenoh_transport::timeout::{TimeoutTracker, WaitIf};
use zenoh_transport::write_loop::{
    is_link_voice, write_plan, Flush, Traffic, WriteAction, WriteError, WriteEvent, WriteLoop,
    WriteStage,
};

const TRAFFIC: Traffic = Traffic { bytes: 1500, messages: 3 };

#[test]
fn control_speaks_for_the_link() {
    assert!(is_link_voice(None));
    assert!(is_link_voice(Some(Priority::Control)));
    assert!(!is_link_voice(Some(Priority::RealTime)));
    assert!(!is_link_voice(Some(Priority::Background)));
}

#[test]
fn batch_is_sent_counted_and_given_back() {
    let mut l = WriteLoop::new(None, 1_000_000_000);
    assert_eq!(l.select::<u8>(), WriteAction::Select { keep_alive: true });
    assert_eq!(
        l.step::<u8>(WriteEvent::Pulled(Some(Priority::Data))),
        vec![WriteAction::SendBatch(None)]
    );
    assert_eq!(l.stage(), WriteStage::Sending(Priority::Data));
    assert_eq!(
        l.step::<u8>(WriteEvent::BatchSent(Ok(TRAFFIC))),
        vec![
            WriteAction::ResetKeepAlive,
            WriteAction::Record(TRAFFIC),
            WriteAction::Refill(Priority::Data),
            WriteAction::Select { keep_alive: true },
        ]
    );
    assert_eq!(l.stage(), WriteStage::Selecting);
}

#[test]
fn idle_loop_sends_keep_alive() {
    let mut l = WriteLoop::new(Some(Priority::Control), 1_000_000_000);
    assert_eq!(
        l.step::<u8>(WriteEvent::KeepAliveElapsed),
        vec![WriteAction::SendKeepAlive(Priority::Control)]
    );
    assert_eq!(
        l.step::<u8>(WriteEvent::KeepAliveSent(Ok(3))),
        vec![
            WriteAction::Record(Traffic { bytes: 3, messages: 1 }),
            WriteAction::Select { keep_alive: true },
        ]
    );
    let l = WriteLoop::new(Some(Priority::Data), 1);
    assert_eq!(l.select::<u8>(), WriteAction::Select { keep_alive: false });
}

#[test]
fn no_keep_alive_follows_a_slow_batch() {
    let period = 100;
    let (mut tracker, mut ticker) = TimeoutTracker::new(period, 0);
    let mut l = WriteLoop::new(None, period);
    l.step::<u8>(WriteEvent::Pulled(Some(Priority::Data)));
    // The timeout is found while the batch is on its way.
    assert!(ticker.tick(&mut tracker, 100));
    let actions = l.step::<u8>(WriteEvent::BatchSent(Ok(TRAFFIC)));
    assert_eq!(actions[0], WriteAction::ResetKeepAlive);
    tracker.restart(180);
    assert_eq!(actions[3], WriteAction::Select { keep_alive: true });
    assert_eq!(tracker.wait_if(true), WaitIf::Pending);
    assert!(!ticker.tick(&mut tracker, 200));
    assert_eq!(tracker.wait_if(true), WaitIf::Pending);
    assert!(ticker.tick(&mut tracker, 280));
    assert_eq!(tracker.wait_if(true), WaitIf::Ready);
    assert_eq!(
        l.step::<u8>(WriteEvent::KeepAliveElapsed),
        vec![WriteAction::SendKeepAlive(Priority::Control)]
    );
}

#[test]
fn batch_after_the_lease_does_not_save_the_link() {
    let lease = 100;
    let (mut tracker, mut ticker) = TimeoutTracker::new(lease, 0);
    let mut l = ReadLoop::new(None, false, lease);
    assert!(ticker.tick(&mut tracker, 100));
    let actions = l.step::<u8>(ReadEvent::Read(Ok(1)));
    assert_eq!(actions[0], ReadAction::ResetLease);
    tracker.reset(101);
    l.step::<u8>(ReadEvent::Delivered(Ok(())));
    assert_eq!(tracker.wait_if(true), WaitIf::Ready);
    assert_eq!(
        l.step::<u8>(ReadEvent::LeaseElapsed),
        vec![ReadAction::Fail(ReadError::Expired { millis: 0 })]
    );
}

#[test]
fn batch_within_the_lease_keeps_the_link() {
    let lease = 100;
    let (mut tracker, mut ticker) = TimeoutTracker::new(lease, 0);
    let mut l = ReadLoop::new(None, false, lease);
    assert_eq!(l.step::<u8>(ReadEvent::Read(Ok(1)))[0], ReadAction::ResetLease);
    tracker.reset(99);
    assert!(!ticker.tick(&mut tracker, 100));
    assert_eq!(tracker.wait_if(true), WaitIf::Pending);
    assert!(ticker.tick(&mut tracker, 199));
    assert_eq!(tracker.wait_if(true), WaitIf::Ready);
}

#[test]
fn largest_batches_are_counted() {
    let mut l = ReadLoop::new(None, false, 1);
    assert_eq!(
        l.step::<u8>(ReadEvent::Read(Ok(u64::MAX))),
        vec![ReadAction::ResetLease, ReadAction::RecordBytes(u64::MAX), ReadAction::Deliver]
    );
    let mut l = ReadLoop::new(None, true, 1);
    assert_eq!(
        l.step::<u8>(ReadEvent::Read(Ok(u64::MAX - 2)))[1],
        ReadAction::RecordBytes(u64::MAX)
    );
}

#[test]
fn disabled_pipeline_is_flushed_in_order() {
    let mut l = WriteLoop::new(Some(Priority::Data), 1_000_000_000);
    assert_eq!(l.step::<u8>(WriteEvent::Pulled(None)), vec![WriteAction::Drain]);
    let priority = Some(Priority::Data);
    assert_eq!(
        l.step::<u8>(WriteEvent::Drained(2)),
        vec![WriteAction::Flush { index: 0, priority }]
    );
    assert_eq!(
        l.step::<u8>(WriteEvent::Flushed(Flush::Sent(TRAFFIC))),
        vec![WriteAction::Record(TRAFFIC), WriteAction::Flush { index: 1, priority }]
    );
    assert_eq!(
        l.step::<u8>(WriteEvent::Flushed(Flush::Sent(TRAFFIC))),
        vec![WriteAction::Record(TRAFFIC), WriteAction::Return(Ok(()))]
    );
    assert_eq!(l.stage(), WriteStage::Ended);
}

#[test]
fn cancellation_flushes_from_any_wait() {
    let mut l = WriteLoop::new(None, 1);
    assert_eq!(l.step::<u8>(WriteEvent::Cancelled), vec![WriteAction::Drain]);
    assert_eq!(l.step::<u8>(WriteEvent::Drained(0)), vec![WriteAction::Return(Ok(()))]);
    let mut l = WriteLoop::new(None, 1);
    l.step::<u8>(WriteEvent::Pulled(Some(Priority::Data)));
    assert_eq!(l.step::<u8>(WriteEvent::Cancelled), vec![WriteAction::Drain]);
    let mut l = WriteLoop::new(None, 1);
    l.step::<u8>(WriteEvent::KeepAliveElapsed);
    assert_eq!(l.step::<u8>(WriteEvent::Cancelled), vec![WriteAction::Drain]);
}

#[test]
fn write_failures_end_the_loop() {
    let mut l = WriteLoop::new(None, 1);
    l.step::<u8>(WriteEvent::Pulled(Some(Priority::Data)));
    assert_eq!(
        l.step(WriteEvent::BatchSent(Err(7u8))),
        vec![WriteAction::Return(Err(WriteError::Link(7)))]
    );
    assert_eq!(l.stage(), WriteStage::Ended);

    let mut l = WriteLoop::new(None, 1);
    l.step::<u8>(WriteEvent::KeepAliveElapsed);
    assert_eq!(
        l.step(WriteEvent::KeepAliveSent(Err(7u8))),
        vec![WriteAction::Return(Err(WriteError::Link(7)))]
    );

    let mut l = WriteLoop::new(None, 1);
    l.step::<u8>(WriteEvent::Cancelled);
    l.step::<u8>(WriteEvent::Drained(2));
    assert_eq!(
        l.step(WriteEvent::Flushed(Flush::Failed(7u8))),
        vec![WriteAction::Return(Err(WriteError::Link(7)))]
    );

    let mut l = WriteLoop::new(None, 2_500_999_999);
    l.step::<u8>(WriteEvent::Cancelled);
    l.step::<u8>(WriteEvent::Drained(2));
    assert_eq!(
        l.step::<u8>(WriteEvent::Flushed(Flush::TimedOut)),
        vec![WriteAction::Return(Err(WriteError::FlushTimeout { millis: 2500 }))]
    );
    assert_eq!(l.stage(), WriteStage::Ended);
}

#[test]
fn write_loops_by_link() {
    let stages = vec![Priority::Control, Priority::Data];
    assert_eq!(
        write_plan(true, &stages),
        vec![Some(Priority::Control), Some(Priority::Data)]
    );
    assert_eq!(write_plan(false, &stages), vec![None]);
    let voices = write_plan(true, &stages).into_iter().filter(|p| is_link_voice(*p)).count();
    assert_eq!(voices, 1);
}

#[test]
fn batch_is_received_counted_and_delivered() {
    let mut l = ReadLoop::new(None, true, 1);
    assert_eq!(l.select::<u8>(), ReadAction::Select { lease: true });
    assert_eq!(
        l.step::<u8>(ReadEvent::Read(Ok(100))),
        vec![ReadAction::ResetLease, ReadAction::RecordBytes(102), ReadAction::Deliver]
    );
    assert_eq!(l.stage(), ReadStage::Delivering);
    assert_eq!(
        l.step::<u8>(ReadEvent::Delivered(Ok(()))),
        vec![ReadAction::Select { lease: true }]
    );
    let mut l = ReadLoop::new(Some(Priority::Data), false, 1);
    assert_eq!(l.select::<u8>(), ReadAction::Select { lease: false });
    assert_eq!(
        l.step::<u8>(ReadEvent::Read(Ok(100))),
        vec![ReadAction::ResetLease, ReadAction::RecordBytes(100), ReadAction::Deliver]
    );
}

#[test]
fn read_failures_end_the_loop() {
    let mut l = ReadLoop::new(None, true, 1);
    assert_eq!(
        l.step(ReadEvent::Read(Err(7u8))),
        vec![ReadAction::Fail(ReadError::Link(7))]
    );
    assert_eq!(l.stage(), ReadStage::Ended);

    let mut l = ReadLoop::new(None, true, 1);
    l.step::<u8>(ReadEvent::Read(Ok(1)));
    assert_eq!(
        l.step(ReadEvent::Delivered(Err(7u8))),
        vec![ReadAction::Fail(ReadError::Link(7))]
    );

    let mut l = ReadLoop::new(Some(Priority::Control), true, 10_000_000_000);
    assert_eq!(
        l.step::<u8>(ReadEvent::LeaseElapsed),
        vec![ReadAction::Fail(ReadError::Expired { millis: 10000 })]
    );
    assert_eq!(l.stage(), ReadStage::Ended);
}

#[test]
fn read_loops_by_link() {
    assert_eq!(read_plan(false), vec![None]);
    let plan = read_plan(true);
    assert_eq!(plan.len(), 8);
    assert_eq!(plan[0], Some(Priority::Control));
    assert_eq!(plan[5], Some(Priority::Data));
    assert_eq!(plan[7], Some(Priority::Background));
    assert_eq!(plan.into_iter().filter(|p| is_link_voice(*p)).count(), 1);
}

#[test]
fn first_read_loop_decides() {
    assert_eq!(read_result::<u8>(None), Ok(()));
    assert_eq!(read_result::<u8>(Some(Ok(()))), Ok(()));
    assert_eq!(read_result(Some(Err(7u8))), Err(7));
}
