use zenoh_transport::settings::{
    capacity_per_priority, eviction_log_every, rx_buffer_count, tx_queue_len, TxQueueLen,
    CAPACITY_ENV, DEFAULT_CAPACITY, DEFAULT_LOG_EVERY, DEFAULT_TX_QUEUE_LEN, LOG_EVERY_ENV,
    TX_QUEUE_LEN_ENV,
};

#[test]
fn variable_names() {
    assert_eq!(TX_QUEUE_LEN_ENV, "ZENOH_TX_QUEUE_LEN");
    assert_eq!(CAPACITY_ENV, "ZENOH_DROP_OLDEST_CAPACITY");
    assert_eq!(LOG_EVERY_ENV, "ZENOH_DROP_OLDEST_LOG_EVERY");
}

#[test]
fn queue_length_is_read() {
    assert_eq!(tx_queue_len(Some("12")), 12);
    assert_eq!(tx_queue_len(Some("+007")), 7);
    assert_eq!(TxQueueLen::resolve(Some("12")), TxQueueLen::Configured(12));
    let max = usize::MAX.to_string();
    assert_eq!(tx_queue_len(Some(max.as_str())), usize::MAX);
}

#[test]
fn queue_length_falls_back() {
    assert_eq!(DEFAULT_TX_QUEUE_LEN, 8);
    assert_eq!(tx_queue_len(None), 8);
    assert_eq!(TxQueueLen::resolve(None), TxQueueLen::Unset);
    for text in [
        "0", "+0", "", "+", "++1", "-1", " 1", "1 ", "1_000", "0x10", "abc", "1.5", "١",
        "99999999999999999999999999",
    ] {
        assert_eq!(TxQueueLen::resolve(Some(text)), TxQueueLen::Invalid);
        assert_eq!(tx_queue_len(Some(text)), 8);
    }
}

#[test]
fn capacity_is_read() {
    assert_eq!(DEFAULT_CAPACITY, 64);
    assert_eq!(capacity_per_priority(None), 64);
    assert_eq!(capacity_per_priority(Some("nonsense")), 64);
    assert_eq!(capacity_per_priority(Some("3")), 3);
    assert_eq!(capacity_per_priority(Some("0")), 1);
}

#[test]
fn log_interval_is_read() {
    assert_eq!(DEFAULT_LOG_EVERY, 1000);
    assert_eq!(eviction_log_every(None), 1000);
    assert_eq!(eviction_log_every(Some("nonsense")), 1000);
    assert_eq!(eviction_log_every(Some("+25")), 25);
    assert_eq!(eviction_log_every(Some("0")), 1);
    assert_eq!(eviction_log_every(Some("18446744073709551615")), u64::MAX);
    assert_eq!(eviction_log_every(Some("18446744073709551616")), 1000);
}

#[test]
fn receive_buffers_fit_the_budget() {
    assert_eq!(rx_buffer_count(65535 * 4 + 1, 65535), 4);
    assert_eq!(rx_buffer_count(65535, 65535), 1);
    assert_eq!(rx_buffer_count(100, 65535), 1);
    assert_eq!(rx_buffer_count(0, 1), 1);
}
