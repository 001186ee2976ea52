use std::time::Duration;

use zenoh_transport::link::{
    pipeline_conf, rx_end_removes_link, tx_end_removes_link, BatchConfig, ManagerConfig, QueueAlloc,
};

#[test]
fn pipeline_is_configured_from_transport_and_link() {
    let manager = ManagerConfig {
        queue_size: [2, 1, 1, 1, 2, 2, 2, 2],
        wait_before_drop: (Duration::from_micros(1000), Duration::from_micros(1024)),
        max_wait_before_drop_fragments: (Duration::from_millis(50), Duration::from_millis(60)),
        wait_before_close: Duration::from_secs(5),
        batching: true,
        queue_backoff: Duration::from_millis(1),
        queue_alloc: QueueAlloc::Lazy,
    };
    let configured = BatchConfig { mtu: 65535, is_streamed: false, is_compression: true };
    let conf = pipeline_conf(&manager, configured, true);
    assert_eq!(
        conf.batch,
        BatchConfig { mtu: 65535, is_streamed: true, is_compression: true }
    );
    assert_eq!(conf.queue_size, manager.queue_size);
    assert_eq!(conf.wait_before_drop, manager.wait_before_drop);
    assert_eq!(conf.max_wait_before_drop_fragments, manager.max_wait_before_drop_fragments);
    assert_eq!(conf.wait_before_close, Duration::from_secs(5));
    assert!(conf.batching_enabled);
    assert_eq!(conf.batching_time_limit, Duration::from_millis(1));
    assert_eq!(conf.queue_alloc, QueueAlloc::Lazy);
}

#[test]
fn failed_tasks_remove_the_link() {
    assert!(tx_end_removes_link(&Err(7u8)));
    assert!(!tx_end_removes_link::<u8>(&Ok(())));
    assert!(rx_end_removes_link(&Some(Err(7u8))));
    assert!(!rx_end_removes_link::<u8>(&Some(Ok(()))));
    assert!(!rx_end_removes_link::<u8>(&None));
}
