use zenoh_transport::timeout::{TimeoutTracker, WaitIf};

#[test]
fn silence_is_reported_once_per_period() {
    let (mut tracker, mut ticker) = TimeoutTracker::new(100, 1000);
    assert_eq!(tracker.timeout(), 100);
    assert_eq!(ticker.deadline(), 1100);
    assert_eq!(tracker.wait_if(true), WaitIf::Pending);
    assert!(ticker.tick(&mut tracker, 1101));
    assert_eq!(tracker.wait_if(false), WaitIf::Never);
    assert_eq!(tracker.wait_if(true), WaitIf::Ready);
    assert_eq!(tracker.wait_if(true), WaitIf::Pending);
    assert_eq!(ticker.deadline(), 1201);
    assert!(ticker.tick(&mut tracker, 1201));
    assert_eq!(tracker.wait_if(true), WaitIf::Ready);
}

#[test]
fn activity_moves_the_deadline() {
    let (mut tracker, mut ticker) = TimeoutTracker::new(100, 0);
    tracker.reset(40);
    tracker.reset(70);
    assert!(!ticker.tick(&mut tracker, 100));
    assert_eq!(tracker.wait_if(true), WaitIf::Pending);
    assert_eq!(ticker.deadline(), 170);
    assert!(ticker.tick(&mut tracker, 170));
    assert_eq!(tracker.wait_if(true), WaitIf::Ready);
}

#[test]
fn reset_keeps_a_pending_timeout() {
    let (mut tracker, mut ticker) = TimeoutTracker::new(10, 0);
    assert!(ticker.tick(&mut tracker, 10));
    tracker.reset(15);
    assert_eq!(tracker.wait_if(true), WaitIf::Ready);
    assert_eq!(tracker.wait_if(true), WaitIf::Pending);
    assert!(!ticker.tick(&mut tracker, 20));
    assert_eq!(tracker.wait_if(true), WaitIf::Pending);
    assert!(ticker.tick(&mut tracker, 25));
    assert_eq!(tracker.wait_if(true), WaitIf::Ready);
}

#[test]
fn restart_withdraws_a_pending_timeout() {
    let (mut tracker, mut ticker) = TimeoutTracker::new(10, 0);
    assert!(ticker.tick(&mut tracker, 10));
    tracker.restart(15);
    assert_eq!(tracker.wait_if(true), WaitIf::Pending);
    assert_eq!(ticker.deadline(), 20);
    assert!(!ticker.tick(&mut tracker, 20));
    assert_eq!(tracker.wait_if(true), WaitIf::Pending);
    assert_eq!(ticker.deadline(), 25);
    assert!(ticker.tick(&mut tracker, 25));
    assert_eq!(tracker.wait_if(true), WaitIf::Ready);
    assert_eq!(tracker.timeout(), 10);
}

#[test]
fn reset_at_the_start_of_the_period_does_not_count() {
    let (mut tracker, mut ticker) = TimeoutTracker::new(10, 5);
    tracker.reset(5);
    assert!(ticker.tick(&mut tracker, 15));
}
