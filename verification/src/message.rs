//! Messages as the transmission queues see them: how urgent a message is,
//! whether it may be lost, and what to do with it under congestion.
use vstd::prelude::*;

verus! {

/// Urgency of a message, from `Control` (most urgent) to `Background` (least).
#[derive(Clone, Copy, Debug, PartialEq, Eq, Structural)]
pub enum Priority {
    Control,
    RealTime,
    InteractiveHigh,
    InteractiveLow,
    DataHigh,
    Data,
    DataLow,
    Background,
}

impl Priority {
    /// Number of priorities.
    pub const NUM: usize = 8;

    /// The position of a priority in a per-priority table; 0 is the most urgent.
    pub open spec fn rank(self) -> int {
        match self {
            Priority::Control => 0,
            Priority::RealTime => 1,
            Priority::InteractiveHigh => 2,
            Priority::InteractiveLow => 3,
            Priority::DataHigh => 4,
            Priority::Data => 5,
            Priority::DataLow => 6,
            Priority::Background => 7,
        }
    }

    /// The index of the queue that serves this priority.
    pub fn index(self) -> (i: usize)
        ensures
            i == self.rank(),
            i < Priority::NUM,
    {
        match self {
            Priority::Control => 0,
            Priority::RealTime => 1,
            Priority::InteractiveHigh => 2,
            Priority::InteractiveLow => 3,
            Priority::DataHigh => 4,
            Priority::Data => 5,
            Priority::DataLow => 6,
            Priority::Background => 7,
        }
    }

    /// The priority of the given index, or `None` when no priority has it.
    pub fn from_index(i: usize) -> (p: Option<Priority>)
        ensures
            p is Some <==> i < Priority::NUM,
            p matches Some(p) ==> p.rank() == i,
    {
        match i {
            0 => Some(Priority::Control),
            1 => Some(Priority::RealTime),
            2 => Some(Priority::InteractiveHigh),
            3 => Some(Priority::InteractiveLow),
            4 => Some(Priority::DataHigh),
            5 => Some(Priority::Data),
            6 => Some(Priority::DataLow),
            7 => Some(Priority::Background),
            _ => None,
        }
    }
}

/// Two priorities of the same rank are the same priority.
pub proof fn law_rank_identifies_priority(a: Priority, b: Priority)
    requires
        a.rank() == b.rank(),
    ensures
        a == b,
{
}

/// Every priority has a rank of its own below the number of priorities, and the ranks
/// follow urgency, from control traffic to background traffic.
pub proof fn law_ranks_are_positions(a: Priority, b: Priority)
    ensures
        0 <= a.rank() < Priority::NUM,
        a.rank() == b.rank() <==> a == b,
        Priority::Control.rank() < Priority::RealTime.rank() < Priority::InteractiveHigh.rank()
            < Priority::InteractiveLow.rank() < Priority::DataHigh.rank() < Priority::Data.rank()
            < Priority::DataLow.rank() < Priority::Background.rank(),
{
}

/// Every position below the number of priorities is the rank of a priority.
pub proof fn law_every_rank_is_taken(i: int)
    requires
        0 <= i < Priority::NUM,
    ensures
        exists|p: Priority| #[trigger] p.rank() == i,
{
    let p = if i == 0 {
        Priority::Control
    } else if i == 1 {
        Priority::RealTime
    } else if i == 2 {
        Priority::InteractiveHigh
    } else if i == 3 {
        Priority::InteractiveLow
    } else if i == 4 {
        Priority::DataHigh
    } else if i == 5 {
        Priority::Data
    } else if i == 6 {
        Priority::DataLow
    } else {
        Priority::Background
    };
    assert(p.rank() == i);
}

/// Whether a message may be lost on the way.
#[derive(Clone, Copy, Debug, PartialEq, Eq, Structural)]
pub enum Reliability {
    BestEffort,
    Reliable,
}

/// What a sender wants done with a message when there is no room for it.
#[derive(Clone, Copy, Debug, PartialEq, Eq, Structural)]
pub enum CongestionControl {
    Drop,
    Block,
    BlockFirst,
}

/// A network message: what the queues read of it, and the body they carry along.
#[derive(Debug, PartialEq, Eq)]
pub struct Message<B> {
    pub priority: Priority,
    pub reliability: Reliability,
    pub congestion_control: CongestionControl,
    pub body: B,
}

impl<B> Message<B> {
    /// A message that must never be dropped for want of room: the sender waits
    /// instead. Only reliable `Block` traffic is such.
    pub open spec fn blocks(self) -> bool {
        self.reliability == Reliability::Reliable && self.congestion_control
            == CongestionControl::Block
    }
}

/// Returns `true` if a message must be transmitted without ever being dropped,
/// so that it is allowed to exert backpressure on a full queue.
///
/// Only reliable [`CongestionControl::Block`] traffic blocks. Everything else
/// (best effort, `Drop` and `BlockFirst`) is evictable and never makes the
/// sender wait.
pub fn may_block<B>(msg: &Message<B>) -> (r: bool)
    ensures
        r == msg.blocks(),
        r <==> msg.reliability is Reliable && msg.congestion_control is Block,
{
    msg.reliability == Reliability::Reliable && msg.congestion_control == CongestionControl::Block
}

/// Whether a message may be evicted depends on its reliability and congestion
/// control alone: reliable `Block` messages may not, and all others may.
pub proof fn law_only_reliable_block_is_kept<B>(a: Message<B>, b: Message<B>)
    ensures
        a.blocks() ==> a.reliability is Reliable && a.congestion_control is Block,
        a.reliability is Reliable && a.congestion_control is Block ==> a.blocks(),
        a.reliability == b.reliability && a.congestion_control == b.congestion_control
            ==> a.blocks() == b.blocks(),
{
}

} // verus!
