//! Setting a link up, and what to do when one of its tasks ends.
use core::time::Duration;

use vstd::prelude::*;

use crate::message::Priority;

verus! {

/// How batches are laid out on a link.
#[derive(Clone, Copy, Debug, PartialEq, Eq)]
pub struct BatchConfig {
    /// The largest batch, in bytes.
    pub mtu: u16,
    /// The link carries a stream, in which each batch has a length header.
    pub is_streamed: bool,
    pub is_compression: bool,
}

/// When the memory of the pipeline's batches is allocated.
#[derive(Clone, Copy, Debug, PartialEq, Eq, Structural)]
pub enum QueueAlloc {
    Init,
    Lazy,
}

/// What the transport as a whole is configured with.
#[derive(Clone, Copy, Debug, PartialEq, Eq)]
pub struct ManagerConfig {
    /// The number of batches of each priority.
    pub queue_size: [usize; Priority::NUM],
    pub wait_before_drop: (Duration, Duration),
    pub max_wait_before_drop_fragments: (Duration, Duration),
    pub wait_before_close: Duration,
    pub batching: bool,
    /// How long a batch may wait to be filled further.
    pub queue_backoff: Duration,
    pub queue_alloc: QueueAlloc,
}

/// What the transmission pipeline of one link is made with.
#[derive(Clone, Copy, Debug, PartialEq, Eq)]
pub struct TransmissionPipelineConf {
    pub batch: BatchConfig,
    pub queue_size: [usize; Priority::NUM],
    pub wait_before_drop: (Duration, Duration),
    pub max_wait_before_drop_fragments: (Duration, Duration),
    pub wait_before_close: Duration,
    pub batching_enabled: bool,
    pub batching_time_limit: Duration,
    pub queue_alloc: QueueAlloc,
}

/// The configuration of a link's pipeline: the size and compression of batches as
/// the link is configured (`configured`), whether they go into a stream as the link
/// itself tells (`is_streamed`), and the rest as the transport has it.
pub fn pipeline_conf(
    manager: &ManagerConfig,
    configured: BatchConfig,
    is_streamed: bool,
) -> (r: TransmissionPipelineConf)
    ensures
        r.batch.mtu == configured.mtu,
        r.batch.is_compression == configured.is_compression,
        r.batch.is_streamed == is_streamed,
        r.queue_size == manager.queue_size,
        r.wait_before_drop == manager.wait_before_drop,
        r.max_wait_before_drop_fragments == manager.max_wait_before_drop_fragments,
        r.wait_before_close == manager.wait_before_close,
        r.batching_enabled == manager.batching,
        r.batching_time_limit == manager.queue_backoff,
        r.queue_alloc == manager.queue_alloc,
{
    TransmissionPipelineConf {
        batch: BatchConfig {
            mtu: configured.mtu,
            is_streamed,
            is_compression: configured.is_compression,
        },
        queue_size: manager.queue_size,
        wait_before_drop: manager.wait_before_drop,
        max_wait_before_drop_fragments: manager.max_wait_before_drop_fragments,
        wait_before_close: manager.wait_before_close,
        batching_enabled: manager.batching,
        batching_time_limit: manager.queue_backoff,
        queue_alloc: manager.queue_alloc,
    }
}

/// The transmitting task of a link has ended: the link is to be removed from the
/// transport if the task failed.
pub fn tx_end_removes_link<E>(result: &Result<(), E>) -> (r: bool)
    ensures
        r == (result is Err),
{
    match result {
        Ok(_) => false,
        Err(_) => true,
    }
}

/// The receiving task of a link has ended, or was cancelled (`None`): the link is
/// to be removed from the transport if the task failed, not if it was cancelled.
pub fn rx_end_removes_link<E>(result: &Option<Result<(), E>>) -> (r: bool)
    ensures
        r == (*result matches Some(Err(_))),
{
    match result {
        Some(Err(_)) => true,
        _ => false,
    }
}

} // verus!
