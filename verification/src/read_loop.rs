//! The loops that read a link's batches from the wire.
//!
//! A loop reads until the link fails, until a batch cannot be handled, or until
//! the peer's lease expires; it never ends by itself otherwise.
//! [`ReadLoop::step`] takes what happened and names what to do next; the caller
//! does it, in order.
use vstd::prelude::*;

use crate::message::{law_rank_identifies_priority, Priority};
use crate::write_loop::{is_link_voice, speaks_for_link, NANOS_PER_MILLI};

verus! {

/// Size of the length header that precedes each batch on a streamed link.
pub const STREAM_HEADER_BYTES: u64 = 2;

/// Why a read loop ends.
#[derive(Debug, PartialEq, Eq)]
pub enum ReadError<E> {
    /// The link could not be read from, or a batch could not be handled.
    Link(E),
    /// Nothing was received for this long.
    Expired { millis: u128 },
}

/// What happened.
#[derive(Debug, PartialEq, Eq)]
pub enum ReadEvent<E> {
    /// A batch of so many bytes was read, or the link failed.
    Read(Result<u64, E>),
    /// Nothing has been received for the lease period.
    LeaseElapsed,
    /// The messages of the batch were handled, or could not be.
    Delivered(Result<(), E>),
}

/// What to do.
#[derive(Debug, PartialEq, Eq)]
pub enum ReadAction<E> {
    /// Wait for a batch and, if so told, for the lease period to elapse.
    Select { lease: bool },
    /// The lease period starts anew: the shared tracker is reset. A timeout found
    /// before still expires the link.
    ResetLease,
    /// Count so many bytes as received.
    RecordBytes(u64),
    /// Handle the messages of the batch.
    Deliver,
    /// The loop is over.
    Fail(ReadError<E>),
}

/// Where a read loop stands.
#[derive(Clone, Copy, Debug, PartialEq, Eq, Structural)]
pub enum ReadStage {
    Selecting,
    Delivering,
    Ended,
}

/// The abstract state of a [`ReadLoop`].
pub struct ReadState {
    /// The only priority that the loop reads, or `None` where it reads all.
    pub priority: Option<Priority>,
    /// The link carries a stream, in which each batch has a length header.
    pub is_streamed: bool,
    /// The lease period in nanoseconds.
    pub lease: u128,
    pub stage: ReadStage,
}

impl ReadState {
    /// The event can occur now. What a batch takes on the wire can be counted.
    pub open spec fn accepts<E>(self, event: ReadEvent<E>) -> bool {
        match self.stage {
            ReadStage::Selecting => match event {
                ReadEvent::Read(Ok(len)) => self.wire_bytes(len) <= u64::MAX,
                ReadEvent::Read(Err(_)) => true,
                ReadEvent::LeaseElapsed => speaks_for_link(self.priority),
                ReadEvent::Delivered(_) => false,
            },
            ReadStage::Delivering => event is Delivered,
            ReadStage::Ended => false,
        }
    }

    /// What the loop waits for when it has nothing to do.
    pub open spec fn select<E>(self) -> ReadAction<E> {
        ReadAction::Select { lease: speaks_for_link(self.priority) }
    }

    /// The bytes that a batch of `len` bytes takes on the wire.
    pub open spec fn wire_bytes(self, len: u64) -> int {
        if self.is_streamed {
            STREAM_HEADER_BYTES + len
        } else {
            len as int
        }
    }

    /// The state after an event.
    pub open spec fn after<E>(self, event: ReadEvent<E>) -> ReadState {
        ReadState {
            stage: match event {
                ReadEvent::Read(Ok(_)) => ReadStage::Delivering,
                ReadEvent::Delivered(Ok(_)) => ReadStage::Selecting,
                ReadEvent::Read(Err(_)) | ReadEvent::Delivered(Err(_))
                | ReadEvent::LeaseElapsed => ReadStage::Ended,
            },
            ..self
        }
    }

    /// What is to be done on an event, in order.
    pub open spec fn actions<E>(self, event: ReadEvent<E>) -> Seq<ReadAction<E>> {
        match event {
            ReadEvent::Read(Ok(len)) => seq![
                ReadAction::ResetLease,
                ReadAction::RecordBytes(self.wire_bytes(len) as u64),
                ReadAction::Deliver,
            ],
            ReadEvent::Delivered(Ok(_)) => seq![self.select()],
            ReadEvent::Read(Err(e)) => seq![ReadAction::Fail(ReadError::Link(e))],
            ReadEvent::Delivered(Err(e)) => seq![ReadAction::Fail(ReadError::Link(e))],
            ReadEvent::LeaseElapsed => seq![
                ReadAction::Fail(ReadError::Expired { millis: self.lease / NANOS_PER_MILLI }),
            ],
        }
    }
}

/// A loop that reads batches from the wire.
pub struct ReadLoop {
    priority: Option<Priority>,
    is_streamed: bool,
    lease: u128,
    stage: ReadStage,
}

impl View for ReadLoop {
    type V = ReadState;

    closed spec fn view(&self) -> ReadState {
        ReadState {
            priority: self.priority,
            is_streamed: self.is_streamed,
            lease: self.lease,
            stage: self.stage,
        }
    }
}

impl ReadLoop {
    /// A loop for one priority, or for all of them, with a lease period in
    /// nanoseconds.
    pub fn new(priority: Option<Priority>, is_streamed: bool, lease: u128) -> (r: Self)
        ensures
            r@ == (ReadState { priority, is_streamed, lease, stage: ReadStage::Selecting }),
    {
        ReadLoop { priority, is_streamed, lease, stage: ReadStage::Selecting }
    }

    /// What the loop waits for when it has nothing to do, as at its start.
    pub fn select<E>(&self) -> (r: ReadAction<E>)
        ensures
            r == self@.select::<E>(),
            r == (ReadAction::<E>::Select {
                lease: self@.priority is None || self@.priority == Some(Priority::Control),
            }),
    {
        ReadAction::Select { lease: is_link_voice(self.priority) }
    }

    /// Where the loop stands.
    pub fn stage(&self) -> (r: ReadStage)
        ensures
            r == self@.stage,
    {
        self.stage
    }

    /// Takes an event and tells what to do, in order.
    pub fn step<E>(&mut self, event: ReadEvent<E>) -> (r: Vec<ReadAction<E>>)
        requires
            old(self)@.accepts(event),
        ensures
            final(self)@ == old(self)@.after(event),
            r@ == old(self)@.actions(event),
    {
        let mut actions: Vec<ReadAction<E>> = Vec::new();
        match event {
            ReadEvent::Read(Ok(len)) => {
                let header: u64 = if self.is_streamed {
                    STREAM_HEADER_BYTES
                } else {
                    0
                };
                self.stage = ReadStage::Delivering;
                actions.push(ReadAction::ResetLease);
                actions.push(ReadAction::RecordBytes(header + len));
                actions.push(ReadAction::Deliver);
            },
            ReadEvent::Delivered(Ok(_)) => {
                self.stage = ReadStage::Selecting;
                actions.push(self.select());
            },
            ReadEvent::Read(Err(e)) | ReadEvent::Delivered(Err(e)) => {
                self.stage = ReadStage::Ended;
                actions.push(ReadAction::Fail(ReadError::Link(e)));
            },
            ReadEvent::LeaseElapsed => {
                self.stage = ReadStage::Ended;
                let millis: u128 = self.lease / NANOS_PER_MILLI;
                actions.push(ReadAction::Fail(ReadError::Expired { millis }));
            },
        }
        assert(actions@ =~= old(self)@.actions(event));
        actions
    }
}

/// The loops that a link needs, by priority: one for each where the link itself
/// tells priorities apart, else one for all.
pub open spec fn spec_read_plan(supports_priorities: bool) -> Seq<Option<Priority>> {
    if supports_priorities {
        seq![
            Some(Priority::Control),
            Some(Priority::RealTime),
            Some(Priority::InteractiveHigh),
            Some(Priority::InteractiveLow),
            Some(Priority::DataHigh),
            Some(Priority::Data),
            Some(Priority::DataLow),
            Some(Priority::Background),
        ]
    } else {
        seq![None]
    }
}

/// The loops that a link needs, by priority: one for each, from the most to the
/// least urgent, where the link itself tells priorities apart, else one for all.
///
/// The first of the loops to end decides for all of them.
pub fn read_plan(supports_priorities: bool) -> (r: Vec<Option<Priority>>)
    ensures
        r@ == spec_read_plan(supports_priorities),
        !supports_priorities ==> r@ == seq![None::<Priority>],
        supports_priorities ==> r@.len() == Priority::NUM,
        supports_priorities ==> forall|p: Priority| r@[#[trigger] p.rank()] == Some(p),
{
    let mut plan: Vec<Option<Priority>> = Vec::new();
    if !supports_priorities {
        plan.push(None);
        assert(plan@ =~= spec_read_plan(supports_priorities));
        return plan;
    }
    let ghost all = spec_read_plan(true);
    let mut i: usize = 0;
    while i < Priority::NUM
        invariant
            i <= Priority::NUM,
            all == spec_read_plan(true),
            plan@ =~= all.take(i as int),
        decreases Priority::NUM - i,
    {
        let p = Priority::from_index(i);
        proof {
            assert(all[i as int] is Some && all[i as int]->Some_0.rank() == i);
            law_rank_identifies_priority(p->Some_0, all[i as int]->Some_0);
        }
        plan.push(p);
        i += 1;
    }
    assert(all.take(8) =~= all);
    plan
}

/// The result of reading a link, from how the first of its loops ended; `None`
/// where that loop was cancelled, which is no failure.
pub fn read_result<E>(first: Option<Result<(), E>>) -> (r: Result<(), E>)
    ensures
        r == match first {
            None => Ok(()),
            Some(ended) => ended,
        },
{
    match first {
        None => Ok(()),
        Some(ended) => ended,
    }
}

/// Exactly one of the loops of a link watches the lease.
pub proof fn law_one_loop_watches_lease(supports_priorities: bool, i: int)
    requires
        0 <= i < spec_read_plan(supports_priorities).len(),
    ensures
        speaks_for_link(spec_read_plan(supports_priorities)[i]) <==> i == 0,
{
}

/// A link expires only through the loop that speaks for it, and only when the
/// lease period has elapsed.
pub proof fn law_only_lease_expires_link<E>(s: ReadState, event: ReadEvent<E>, i: int)
    requires
        s.accepts(event),
        0 <= i < s.actions(event).len(),
        s.actions(event)[i] matches ReadAction::Fail(ReadError::Expired { .. }),
    ensures
        speaks_for_link(s.priority),
        event is LeaseElapsed,
{
}

/// Every batch that is read starts the lease period anew before it is handled.
pub proof fn law_batch_renews_lease<E>(s: ReadState, event: ReadEvent<E>)
    requires
        s.accepts(event),
        s.actions(event).contains(ReadAction::Deliver),
    ensures
        event is Read,
        s.actions(event)[0] == ReadAction::<E>::ResetLease,
        s.actions(event).last() == ReadAction::<E>::Deliver,
{
}

/// A loop ends exactly when it fails, with its only action, and then takes no
/// further event.
pub proof fn law_read_fails_once<E>(s: ReadState, event: ReadEvent<E>, later: ReadEvent<E>)
    requires
        s.accepts(event),
    ensures
        s.actions(event).len() > 0,
        s.actions(event)[0] is Fail <==> s.after(event).stage is Ended,
        s.after(event).stage is Ended ==> s.actions(event).len() == 1 && !s.after(event).accepts(
            later,
        ),
{
}

/// Where the link tells priorities apart there is exactly one read loop for each
/// priority, from the most to the least urgent; else there is one loop, which reads
/// all priorities.
pub proof fn law_every_priority_is_read(p: Priority, i: int)
    ensures
        spec_read_plan(true).len() == Priority::NUM,
        spec_read_plan(true)[p.rank()] == Some(p),
        0 <= i < spec_read_plan(true).len() && spec_read_plan(true)[i] == Some(p) ==> i
            == p.rank(),
        spec_read_plan(true).contains(Some(p)),
        spec_read_plan(true).no_duplicates(),
        spec_read_plan(false).len() == 1,
        spec_read_plan(false)[0] is None,
{
    assert(spec_read_plan(true)[p.rank()] == Some(p));
}

/// Every batch that is read is handed on, by a loop of any priority: the lease period
/// starts anew, the bytes of the batch are counted, with those of its header where the
/// link carries a stream, and its messages are handled, in this order.
pub proof fn law_every_batch_is_delivered<E>(s: ReadState, len: u64)
    requires
        s.stage is Selecting,
        s.is_streamed ==> len + STREAM_HEADER_BYTES <= u64::MAX,
    ensures
        ({
            let read = ReadEvent::<E>::Read(Ok(len));
            &&& s.accepts(read)
            &&& s.actions(read).len() == 3
            &&& s.actions(read)[0] is ResetLease
            &&& s.actions(read)[1] matches ReadAction::RecordBytes(bytes) && bytes
                == if s.is_streamed {
                len + STREAM_HEADER_BYTES
            } else {
                len as int
            }
            &&& s.actions(read)[2] is Deliver
            &&& s.after(read) == (ReadState { stage: ReadStage::Delivering, ..s })
        }),
{
}

/// Once a batch has been handled the loop waits for the next one, and the loop that
/// reads all priorities or control traffic for the lease period too.
pub proof fn law_handled_batch_is_followed_by_next<E>(s: ReadState)
    requires
        s.stage is Delivering,
    ensures
        ({
            let delivered = ReadEvent::<E>::Delivered(Ok(()));
            &&& s.accepts(delivered)
            &&& s.actions(delivered) == seq![
                ReadAction::<E>::Select {
                    lease: s.priority is None || s.priority == Some(Priority::Control),
                },
            ]
            &&& s.after(delivered) == (ReadState { stage: ReadStage::Selecting, ..s })
        }),
{
}

/// A failure to read a batch or to handle one ends the loop with just that failure.
pub proof fn law_read_failure_is_returned<E>(s: ReadState, e: E, event: ReadEvent<E>)
    requires
        ({
            ||| s.stage is Selecting && event == ReadEvent::<E>::Read(Err(e))
            ||| s.stage is Delivering && event == ReadEvent::<E>::Delivered(Err(e))
        }),
    ensures
        s.accepts(event),
        s.actions(event) == seq![ReadAction::<E>::Fail(ReadError::Link(e))],
        s.after(event).stage is Ended,
{
}

/// When nothing has been received for the lease period, the loop that reads all
/// priorities or control traffic ends with that period in whole milliseconds; no other
/// loop is told.
pub proof fn law_lapsed_lease_is_returned<E>(s: ReadState)
    requires
        s.stage is Selecting,
    ensures
        ({
            let lapsed = ReadEvent::<E>::LeaseElapsed;
            &&& s.accepts(lapsed) <==> s.priority is None || s.priority == Some(Priority::Control)
            &&& s.actions(lapsed).len() == 1
            &&& s.actions(lapsed)[0] matches ReadAction::Fail(ReadError::Expired { millis })
                && millis * 1_000_000 <= s.lease < (millis + 1) * 1_000_000
            &&& s.after(lapsed).stage is Ended
        }),
{
}

/// A loop keeps its priority, its lease and what it knows of the link, whatever
/// happens.
pub proof fn law_read_loop_keeps_settings<E>(s: ReadState, event: ReadEvent<E>)
    ensures
        s.after(event).priority == s.priority,
        s.after(event).is_streamed == s.is_streamed,
        s.after(event).lease == s.lease,
{
}

} // verus!
