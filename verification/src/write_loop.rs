//! The loops that write a link's batches to the wire.
//!
//! A loop serves batches until its pipeline is disabled or it is cancelled, then
//! flushes what the pipeline still holds. While it is idle it sends keep-alives.
//! [`WriteLoop::step`] takes what happened and names what to do next; the caller
//! does it, in order.
use vstd::prelude::*;

use crate::message::Priority;

verus! {

/// Number of nanoseconds in a millisecond.
pub const NANOS_PER_MILLI: u128 = 1_000_000;

/// What is counted of the traffic on a link.
#[derive(Clone, Copy, Debug, PartialEq, Eq, Structural)]
pub struct Traffic {
    pub bytes: u64,
    pub messages: u64,
}

/// Why a write loop fails.
#[derive(Debug, PartialEq, Eq)]
pub enum WriteError<E> {
    /// The link could not be written to.
    Link(E),
    /// A batch could not be flushed within this time.
    FlushTimeout { millis: u128 },
}

/// How the flush of a batch ended.
#[derive(Debug, PartialEq, Eq)]
pub enum Flush<E> {
    Sent(Traffic),
    Failed(E),
    TimedOut,
}

/// What happened.
#[derive(Debug, PartialEq, Eq)]
pub enum WriteEvent<E> {
    /// The pipeline gave a batch of this priority, or is disabled.
    Pulled(Option<Priority>),
    /// Nothing has been sent for the keep-alive period.
    KeepAliveElapsed,
    /// The loop is cancelled.
    Cancelled,
    /// The batch was sent, or the link failed.
    BatchSent(Result<Traffic, E>),
    /// The keep-alive was sent in so many bytes, or the link failed.
    KeepAliveSent(Result<u64, E>),
    /// The pipeline was drained and still held so many batches.
    Drained(usize),
    /// The flush of the current batch ended.
    Flushed(Flush<E>),
}

/// What to do.
#[derive(Debug, PartialEq, Eq)]
pub enum WriteAction<E> {
    /// Wait for a batch, for cancellation and, if so told, for the keep-alive
    /// period to elapse.
    Select { keep_alive: bool },
    /// Send the batch with this write priority.
    SendBatch(Option<Priority>),
    /// Send a keep-alive with this priority.
    SendKeepAlive(Priority),
    /// The keep-alive period starts anew: the shared tracker is restarted, so that
    /// a timeout found while the batch was on its way leads to no keep-alive.
    ResetKeepAlive,
    /// Count this traffic as sent.
    Record(Traffic),
    /// Give the batch back to the pipeline, at this priority.
    Refill(Priority),
    /// Take all remaining batches from the pipeline.
    Drain,
    /// Send the remaining batch of this index with this write priority, within
    /// the keep-alive period.
    Flush { index: usize, priority: Option<Priority> },
    /// The loop is over.
    Return(Result<(), WriteError<E>>),
}

/// Where a write loop stands.
#[derive(Clone, Copy, Debug, PartialEq, Eq, Structural)]
pub enum WriteStage {
    Selecting,
    /// Sending a batch of this priority.
    Sending(Priority),
    SendingKeepAlive,
    Draining,
    /// Flushing batch `index` of `count`.
    Flushing { index: usize, count: usize },
    Ended,
}

/// The abstract state of a [`WriteLoop`].
pub struct WriteState {
    /// The only priority that the loop writes, or `None` where it writes all.
    pub write_priority: Option<Priority>,
    /// The keep-alive period in nanoseconds.
    pub period: u128,
    pub stage: WriteStage,
}

/// Whether a loop with this priority stands in for the whole link when nothing
/// happens: it does if it handles control traffic.
pub open spec fn speaks_for_link(priority: Option<Priority>) -> bool {
    match priority {
        None => true,
        Some(p) => p == Priority::Control,
    }
}

impl WriteState {
    /// The event can occur now.
    pub open spec fn accepts<E>(self, event: WriteEvent<E>) -> bool {
        match self.stage {
            WriteStage::Selecting => match event {
                WriteEvent::Pulled(_) => true,
                WriteEvent::KeepAliveElapsed => speaks_for_link(self.write_priority),
                WriteEvent::Cancelled => true,
                _ => false,
            },
            WriteStage::Sending(_) => event is BatchSent || event is Cancelled,
            WriteStage::SendingKeepAlive => event is KeepAliveSent || event is Cancelled,
            WriteStage::Draining => event is Drained,
            WriteStage::Flushing { .. } => event is Flushed,
            WriteStage::Ended => false,
        }
    }

    /// A flush is always at a batch that exists.
    pub open spec fn valid(self) -> bool {
        self.stage matches WriteStage::Flushing { index, count } ==> index < count
    }

    /// What the loop waits for when it has nothing to do.
    pub open spec fn select<E>(self) -> WriteAction<E> {
        WriteAction::Select { keep_alive: speaks_for_link(self.write_priority) }
    }

    /// Where an event leads.
    pub open spec fn next_stage<E>(self, event: WriteEvent<E>) -> WriteStage {
        match event {
            WriteEvent::Pulled(Some(p)) => WriteStage::Sending(p),
            WriteEvent::Pulled(None) => WriteStage::Draining,
            WriteEvent::KeepAliveElapsed => WriteStage::SendingKeepAlive,
            WriteEvent::Cancelled => WriteStage::Draining,
            WriteEvent::BatchSent(Ok(_)) => WriteStage::Selecting,
            WriteEvent::KeepAliveSent(Ok(_)) => WriteStage::Selecting,
            WriteEvent::Drained(count) => flush_stage(0, count as int),
            WriteEvent::Flushed(Flush::Sent(_)) => flush_stage(
                self.stage->index + 1,
                self.stage->count as int,
            ),
            WriteEvent::BatchSent(Err(_)) | WriteEvent::KeepAliveSent(Err(_))
            | WriteEvent::Flushed(_) => WriteStage::Ended,
        }
    }

    /// What is to be done on an event, in order.
    pub open spec fn actions<E>(self, event: WriteEvent<E>) -> Seq<WriteAction<E>> {
        match event {
            WriteEvent::Pulled(Some(_)) => seq![WriteAction::SendBatch(self.write_priority)],
            WriteEvent::Pulled(None) => seq![WriteAction::Drain],
            WriteEvent::KeepAliveElapsed => seq![WriteAction::SendKeepAlive(Priority::Control)],
            WriteEvent::Cancelled => seq![WriteAction::Drain],
            WriteEvent::BatchSent(Ok(traffic)) => seq![
                WriteAction::ResetKeepAlive,
                WriteAction::Record(traffic),
                WriteAction::Refill(self.stage->Sending_0),
                self.select(),
            ],
            WriteEvent::KeepAliveSent(Ok(bytes)) => seq![
                WriteAction::Record(Traffic { bytes, messages: 1 }),
                self.select(),
            ],
            WriteEvent::BatchSent(Err(e)) => seq![WriteAction::Return(Err(WriteError::Link(e)))],
            WriteEvent::KeepAliveSent(Err(e)) => seq![
                WriteAction::Return(Err(WriteError::Link(e))),
            ],
            WriteEvent::Drained(count) => seq![self.flush_action(0, count as int)],
            WriteEvent::Flushed(Flush::Sent(traffic)) => seq![
                WriteAction::Record(traffic),
                self.flush_action(self.stage->index + 1, self.stage->count as int),
            ],
            WriteEvent::Flushed(Flush::Failed(e)) => seq![
                WriteAction::Return(Err(WriteError::Link(e))),
            ],
            WriteEvent::Flushed(Flush::TimedOut) => seq![
                WriteAction::Return(
                    Err(WriteError::FlushTimeout { millis: self.period / NANOS_PER_MILLI }),
                ),
            ],
        }
    }

    /// Flush batch `index` of `count`, or finish if there is none.
    pub open spec fn flush_action<E>(self, index: int, count: int) -> WriteAction<E> {
        if index < count {
            WriteAction::Flush { index: index as usize, priority: self.write_priority }
        } else {
            WriteAction::Return(Ok(()))
        }
    }

    /// The state after an event.
    pub open spec fn after<E>(self, event: WriteEvent<E>) -> WriteState {
        WriteState { stage: self.next_stage(event), ..self }
    }
}

/// The stage in which batch `index` of `count` is to be flushed.
pub open spec fn flush_stage(index: int, count: int) -> WriteStage {
    if index < count {
        WriteStage::Flushing { index: index as usize, count: count as usize }
    } else {
        WriteStage::Ended
    }
}

/// Whether a loop with this priority stands in for the whole link when nothing
/// happens.
pub fn is_link_voice(priority: Option<Priority>) -> (r: bool)
    ensures
        r == speaks_for_link(priority),
        r <==> priority is None || priority == Some(Priority::Control),
{
    match priority {
        None => true,
        Some(p) => p == Priority::Control,
    }
}

/// A loop that writes batches to the wire.
pub struct WriteLoop {
    write_priority: Option<Priority>,
    period: u128,
    stage: WriteStage,
}

impl View for WriteLoop {
    type V = WriteState;

    closed spec fn view(&self) -> WriteState {
        WriteState {
            write_priority: self.write_priority,
            period: self.period,
            stage: self.stage,
        }
    }
}

impl WriteLoop {
    /// A flush is always at a batch that exists.
    pub open spec fn wf(self) -> bool {
        self@.valid()
    }

    /// A loop for one priority, or for all of them, with a keep-alive period in
    /// nanoseconds.
    pub fn new(write_priority: Option<Priority>, period: u128) -> (r: Self)
        ensures
            r.wf(),
            r@ == (WriteState { write_priority, period, stage: WriteStage::Selecting }),
    {
        WriteLoop { write_priority, period, stage: WriteStage::Selecting }
    }

    /// What the loop waits for when it has nothing to do, as at its start.
    pub fn select<E>(&self) -> (r: WriteAction<E>)
        ensures
            r == self@.select::<E>(),
            r == (WriteAction::<E>::Select {
                keep_alive: self@.write_priority is None || self@.write_priority == Some(
                    Priority::Control,
                ),
            }),
    {
        WriteAction::Select { keep_alive: is_link_voice(self.write_priority) }
    }

    /// Where the loop stands.
    pub fn stage(&self) -> (r: WriteStage)
        ensures
            r == self@.stage,
    {
        self.stage
    }

    /// Takes an event and tells what to do, in order.
    pub fn step<E>(&mut self, event: WriteEvent<E>) -> (r: Vec<WriteAction<E>>)
        requires
            old(self).wf(),
            old(self)@.accepts(event),
        ensures
            final(self).wf(),
            final(self)@ == old(self)@.after(event),
            r@ == old(self)@.actions(event),
    {
        let mut actions: Vec<WriteAction<E>> = Vec::new();
        match event {
            WriteEvent::Pulled(Some(priority)) => {
                self.stage = WriteStage::Sending(priority);
                actions.push(WriteAction::SendBatch(self.write_priority));
            },
            WriteEvent::Pulled(None) | WriteEvent::Cancelled => {
                self.stage = WriteStage::Draining;
                actions.push(WriteAction::Drain);
            },
            WriteEvent::KeepAliveElapsed => {
                self.stage = WriteStage::SendingKeepAlive;
                actions.push(WriteAction::SendKeepAlive(Priority::Control));
            },
            WriteEvent::BatchSent(Ok(traffic)) => {
                actions.push(WriteAction::ResetKeepAlive);
                actions.push(WriteAction::Record(traffic));
                if let WriteStage::Sending(priority) = self.stage {
                    actions.push(WriteAction::Refill(priority));
                }
                actions.push(self.select());
                self.stage = WriteStage::Selecting;
            },
            WriteEvent::KeepAliveSent(Ok(bytes)) => {
                self.stage = WriteStage::Selecting;
                actions.push(WriteAction::Record(Traffic { bytes, messages: 1 }));
                actions.push(self.select());
            },
            WriteEvent::BatchSent(Err(e)) | WriteEvent::KeepAliveSent(Err(e)) => {
                self.stage = WriteStage::Ended;
                actions.push(WriteAction::Return(Err(WriteError::Link(e))));
            },
            WriteEvent::Drained(count) => {
                let action = self.flush_from(0, count);
                actions.push(action);
            },
            WriteEvent::Flushed(Flush::Sent(traffic)) => {
                actions.push(WriteAction::Record(traffic));
                if let WriteStage::Flushing { index, count } = self.stage {
                    let action = self.flush_from(index + 1, count);
                    actions.push(action);
                }
            },
            WriteEvent::Flushed(Flush::Failed(e)) => {
                self.stage = WriteStage::Ended;
                actions.push(WriteAction::Return(Err(WriteError::Link(e))));
            },
            WriteEvent::Flushed(Flush::TimedOut) => {
                self.stage = WriteStage::Ended;
                let millis: u128 = self.period / NANOS_PER_MILLI;
                actions.push(WriteAction::Return(Err(WriteError::FlushTimeout { millis })));
            },
        }
        assert(actions@ =~= old(self)@.actions(event));
        actions
    }

    /// Goes on with the flush of batch `index` of `count`, or ends.
    fn flush_from<E>(&mut self, index: usize, count: usize) -> (r: WriteAction<E>)
        ensures
            r == old(self)@.flush_action::<E>(index as int, count as int),
            final(self)@ == (WriteState {
                stage: flush_stage(index as int, count as int),
                ..old(self)@
            }),
    {
        if index < count {
            self.stage = WriteStage::Flushing { index, count };
            WriteAction::Flush { index, priority: self.write_priority }
        } else {
            self.stage = WriteStage::Ended;
            WriteAction::Return(Ok(()))
        }
    }
}

/// The loops that a link needs, by write priority: one for each stage of the
/// pipeline where the link itself tells priorities apart, else one for all.
///
/// The first of the loops to end decides for all of them.
pub fn write_plan(supports_priorities: bool, stages: &Vec<Priority>) -> (r: Vec<Option<Priority>>)
    requires
        supports_priorities ==> stages@.len() > 0,
    ensures
        r@ == spec_write_plan(supports_priorities, stages@),
        !supports_priorities ==> r@ == seq![None::<Priority>],
        supports_priorities ==> r@.len() == stages@.len(),
        supports_priorities ==> forall|i: int|
            0 <= i < stages@.len() ==> #[trigger] r@[i] == Some(stages@[i]),
{
    let mut plan: Vec<Option<Priority>> = Vec::new();
    if !supports_priorities {
        plan.push(None);
        assert(plan@ =~= seq![None::<Priority>]);
        return plan;
    }
    let mut i: usize = 0;
    while i < stages.len()
        invariant
            i <= stages@.len(),
            plan@ =~= stages@.take(i as int).map_values(|p: Priority| Some(p)),
        decreases stages@.len() - i,
    {
        plan.push(Some(stages[i]));
        i += 1;
    }
    assert(stages@.take(i as int) =~= stages@);
    plan
}

/// The loops that a link needs, by write priority.
pub open spec fn spec_write_plan(
    supports_priorities: bool,
    stages: Seq<Priority>,
) -> Seq<Option<Priority>> {
    if supports_priorities {
        stages.map_values(|p: Priority| Some(p))
    } else {
        seq![None]
    }
}

/// Exactly one of the loops of a link sends its keep-alives, given that the
/// stages of the pipeline are distinct and one of them is for control traffic.
pub proof fn law_one_loop_sends_keep_alives(supports_priorities: bool, stages: Seq<Priority>)
    requires
        stages.no_duplicates(),
        stages.contains(Priority::Control),
    ensures
        exists|i: int|
            {
                &&& 0 <= i < spec_write_plan(supports_priorities, stages).len()
                &&& speaks_for_link(#[trigger] spec_write_plan(supports_priorities, stages)[i])
                &&& forall|j: int|
                    0 <= j < spec_write_plan(supports_priorities, stages).len() && j != i
                        ==> !speaks_for_link(
                        #[trigger] spec_write_plan(supports_priorities, stages)[j],
                    )
            },
{
    let plan = spec_write_plan(supports_priorities, stages);
    if supports_priorities {
        let i = choose|i: int| 0 <= i < stages.len() && stages[i] == Priority::Control;
        assert(speaks_for_link(plan[i]));
        assert forall|j: int| 0 <= j < plan.len() && j != i implies !speaks_for_link(
            #[trigger] plan[j],
        ) by {
            assert(stages[j] != stages[i]);
        }
    } else {
        assert(speaks_for_link(plan[0]));
    }
}

/// Only the loop that speaks for the link ever sends a keep-alive.
pub proof fn law_only_link_voice_sends_keep_alive<E>(
    s: WriteState,
    event: WriteEvent<E>,
    i: int,
)
    requires
        s.valid(),
        s.accepts(event),
        0 <= i < s.actions(event).len(),
        s.actions(event)[i] is SendKeepAlive,
    ensures
        speaks_for_link(s.write_priority),
        s.stage is Selecting && event is KeepAliveElapsed,
{
}

/// A batch that the pipeline gave and that was sent goes back to the pipeline at
/// its own priority, and sending it starts the keep-alive period anew.
pub proof fn law_sent_batch_goes_back<E>(s: WriteState, p: Priority, traffic: Traffic)
    requires
        s.stage is Selecting,
    ensures
        ({
            let sending = s.after(WriteEvent::<E>::Pulled(Some(p)));
            let sent = WriteEvent::<E>::BatchSent(Ok(traffic));
            &&& s.accepts(WriteEvent::<E>::Pulled(Some(p)))
            &&& sending.accepts(sent)
            &&& sending.actions(sent).contains(WriteAction::Refill(p))
            &&& sending.actions(sent).contains(WriteAction::ResetKeepAlive)
            &&& sending.actions(sent).contains(WriteAction::Record(traffic))
            &&& sending.after(sent) == s
        }),
{
    let sending = s.after(WriteEvent::<E>::Pulled(Some(p)));
    let actions = sending.actions(WriteEvent::<E>::BatchSent(Ok(traffic)));
    assert(actions[0] == WriteAction::<E>::ResetKeepAlive);
    assert(actions[1] == WriteAction::<E>::Record(traffic));
    assert(actions[2] == WriteAction::<E>::Refill(p));
}

/// A loop returns exactly when it ends, with its last action, and then takes no
/// further event.
pub proof fn law_returns_once<E>(s: WriteState, event: WriteEvent<E>, later: WriteEvent<E>)
    requires
        s.valid(),
        s.accepts(event),
    ensures
        s.actions(event).len() > 0,
        s.actions(event).last() is Return <==> s.after(event).stage is Ended,
        forall|i: int|
            0 <= i < s.actions(event).len() - 1 ==> !((#[trigger] s.actions(event)[i]) is Return),
        s.after(event).stage is Ended ==> !s.after(event).accepts(later),
{
}

/// The state once the drained pipeline has given `count` batches and the given
/// ones have been flushed.
pub open spec fn after_flushes<E>(s: WriteState, count: usize, sent: Seq<Traffic>) -> WriteState
    decreases sent.len(),
{
    if sent.len() == 0 {
        s.after(WriteEvent::<E>::Drained(count))
    } else {
        after_flushes::<E>(s, count, sent.drop_last()).after(
            WriteEvent::<E>::Flushed(Flush::Sent(sent.last())),
        )
    }
}

/// All batches left in the pipeline are flushed one after the other, in order,
/// and the loop succeeds once the last of them is out, and not before.
pub proof fn law_flushes_everything<E>(
    s: WriteState,
    count: usize,
    sent: Seq<Traffic>,
    traffic: Traffic,
)
    requires
        s.stage is Draining,
        sent.len() <= count,
    ensures
        after_flushes::<E>(s, count, sent) == (WriteState {
            stage: flush_stage(sent.len() as int, count as int),
            ..s
        }),
        sent.len() < count ==> ({
            let t = after_flushes::<E>(s, count, sent);
            let next = WriteEvent::<E>::Flushed(Flush::Sent(traffic));
            &&& t.accepts(next)
            &&& t.actions(next).last() == if sent.len() + 1 < count {
                WriteAction::<E>::Flush {
                    index: (sent.len() + 1) as usize,
                    priority: s.write_priority,
                }
            } else {
                WriteAction::<E>::Return(Ok(()))
            }
        }),
    decreases sent.len(),
{
    if sent.len() > 0 {
        law_flushes_everything::<E>(s, count, sent.drop_last(), traffic);
    }
}

/// A loop speaks for the link exactly if it writes all priorities or control traffic.
pub proof fn law_control_speaks_for_link(priority: Option<Priority>)
    ensures
        speaks_for_link(priority) <==> priority is None || priority == Some(Priority::Control),
{
}

/// There is one write loop for each stage of the pipeline, in order and of that
/// stage's priority, where the link tells priorities apart; else there is one loop,
/// which writes all priorities.
pub proof fn law_every_stage_has_its_loop(stages: Seq<Priority>, i: int)
    ensures
        spec_write_plan(true, stages).len() == stages.len(),
        0 <= i < stages.len() ==> spec_write_plan(true, stages)[i] == Some(stages[i]),
        spec_write_plan(false, stages).len() == 1,
        spec_write_plan(false, stages)[0] is None,
{
}

/// Whenever the pipeline gives a waiting loop a batch, of whatever priority, the one
/// thing to do is to send that batch, with the write priority that the loop was made
/// with.
pub proof fn law_pulled_batch_is_sent<E>(s: WriteState, p: Priority)
    requires
        s.stage is Selecting,
    ensures
        s.accepts(WriteEvent::<E>::Pulled(Some(p))),
        s.actions(WriteEvent::<E>::Pulled(Some(p))) == seq![
            WriteAction::<E>::SendBatch(s.write_priority),
        ],
        s.after(WriteEvent::<E>::Pulled(Some(p))) == (WriteState {
            stage: WriteStage::Sending(p),
            ..s
        }),
{
}

/// A batch that was sent is dealt with in four steps, in this order: the keep-alive
/// period starts anew, the traffic is counted as reported, the batch goes back to the
/// pipeline at the priority it was pulled with, and the loop waits for the next one.
pub proof fn law_sent_batch_is_dealt_with<E>(s: WriteState, p: Priority, traffic: Traffic)
    requires
        s.stage == WriteStage::Sending(p),
    ensures
        ({
            let sent = WriteEvent::<E>::BatchSent(Ok(traffic));
            &&& s.accepts(sent)
            &&& s.actions(sent).len() == 4
            &&& s.actions(sent)[0] is ResetKeepAlive
            &&& s.actions(sent)[1] == WriteAction::<E>::Record(traffic)
            &&& s.actions(sent)[2] == WriteAction::<E>::Refill(p)
            &&& s.actions(sent)[3] == (WriteAction::<E>::Select {
                keep_alive: s.write_priority is None || s.write_priority == Some(
                    Priority::Control,
                ),
            })
            &&& s.after(sent) == (WriteState { stage: WriteStage::Selecting, ..s })
        }),
{
}

/// When nothing has been sent for the keep-alive period, the loop that writes all
/// priorities or control traffic sends a keep-alive as control traffic; no other loop
/// is told.
pub proof fn law_idle_loop_sends_keep_alive<E>(s: WriteState)
    requires
        s.stage is Selecting,
    ensures
        s.accepts(WriteEvent::<E>::KeepAliveElapsed) <==> s.write_priority is None
            || s.write_priority == Some(Priority::Control),
        s.actions(WriteEvent::<E>::KeepAliveElapsed) == seq![
            WriteAction::<E>::SendKeepAlive(Priority::Control),
        ],
        s.after(WriteEvent::<E>::KeepAliveElapsed) == (WriteState {
            stage: WriteStage::SendingKeepAlive,
            ..s
        }),
{
}

/// A keep-alive that was sent counts as one message of its size, and the loop waits
/// for the next batch.
pub proof fn law_keep_alive_is_counted<E>(s: WriteState, bytes: u64)
    requires
        s.stage is SendingKeepAlive,
    ensures
        ({
            let sent = WriteEvent::<E>::KeepAliveSent(Ok(bytes));
            &&& s.accepts(sent)
            &&& s.actions(sent).len() == 2
            &&& s.actions(sent)[0] == WriteAction::<E>::Record(Traffic { bytes, messages: 1 })
            &&& s.actions(sent)[1] == (WriteAction::<E>::Select {
                keep_alive: s.write_priority is None || s.write_priority == Some(
                    Priority::Control,
                ),
            })
            &&& s.after(sent) == (WriteState { stage: WriteStage::Selecting, ..s })
        }),
{
}

/// A loop whose pipeline is disabled while it waits, or that is cancelled whatever it
/// is at, takes what is left out of the pipeline, and does nothing else.
pub proof fn law_stopped_loop_drains<E>(s: WriteState, event: WriteEvent<E>)
    requires
        ({
            ||| event == WriteEvent::<E>::Pulled(None) && s.stage is Selecting
            ||| event is Cancelled && (s.stage is Selecting || s.stage is Sending
                || s.stage is SendingKeepAlive)
        }),
    ensures
        s.accepts(event),
        s.actions(event) == seq![WriteAction::<E>::Drain],
        s.after(event) == (WriteState { stage: WriteStage::Draining, ..s }),
{
}

/// What is left is flushed from its first batch on, with the loop's write priority;
/// where nothing is left the loop succeeds at once.
pub proof fn law_drained_loop_flushes<E>(s: WriteState, count: usize)
    requires
        s.stage is Draining,
    ensures
        s.accepts(WriteEvent::<E>::Drained(count)),
        count == 0 ==> {
            &&& s.actions(WriteEvent::<E>::Drained(count)) == seq![WriteAction::<E>::Return(Ok(()))]
            &&& s.after(WriteEvent::<E>::Drained(count)).stage is Ended
        },
        count > 0 ==> {
            &&& s.actions(WriteEvent::<E>::Drained(count)) == seq![
                WriteAction::<E>::Flush { index: 0, priority: s.write_priority },
            ]
            &&& s.after(WriteEvent::<E>::Drained(count)) == (WriteState {
                stage: WriteStage::Flushing { index: 0, count },
                ..s
            })
        },
{
}

/// A batch that was flushed is counted as reported; then comes the next one, with the
/// loop's write priority, or the loop succeeds if it was the last.
pub proof fn law_flushed_batch_is_counted<E>(
    s: WriteState,
    index: usize,
    count: usize,
    traffic: Traffic,
)
    requires
        s.stage == (WriteStage::Flushing { index, count }),
        index < count,
    ensures
        ({
            let sent = WriteEvent::<E>::Flushed(Flush::Sent(traffic));
            &&& s.accepts(sent)
            &&& s.actions(sent).len() == 2
            &&& s.actions(sent)[0] == WriteAction::<E>::Record(traffic)
            &&& index + 1 == count ==> {
                &&& s.actions(sent)[1] == WriteAction::<E>::Return(Ok(()))
                &&& s.after(sent).stage is Ended
            }
            &&& index + 1 < count ==> {
                &&& s.actions(sent)[1] == (WriteAction::<E>::Flush {
                    index: (index + 1) as usize,
                    priority: s.write_priority,
                })
                &&& s.after(sent) == (WriteState {
                    stage: WriteStage::Flushing { index: (index + 1) as usize, count },
                    ..s
                })
            }
        }),
{
}

/// A failure of the link, at whatever send, ends the loop with just that failure.
pub proof fn law_link_failure_is_returned<E>(s: WriteState, e: E, event: WriteEvent<E>)
    requires
        ({
            ||| s.stage is Sending && event == WriteEvent::<E>::BatchSent(Err(e))
            ||| s.stage is SendingKeepAlive && event == WriteEvent::<E>::KeepAliveSent(Err(e))
            ||| s.stage is Flushing && event == WriteEvent::<E>::Flushed(Flush::Failed(e))
        }),
    ensures
        s.accepts(event),
        s.actions(event) == seq![WriteAction::<E>::Return(Err(WriteError::Link(e)))],
        s.after(event).stage is Ended,
{
}

/// A flush that takes too long ends the loop, with the keep-alive period in whole
/// milliseconds.
pub proof fn law_flush_timeout_is_returned<E>(s: WriteState)
    requires
        s.stage is Flushing,
    ensures
        ({
            let late = WriteEvent::<E>::Flushed(Flush::TimedOut);
            &&& s.accepts(late)
            &&& s.actions(late).len() == 1
            &&& s.actions(late)[0] matches WriteAction::Return(
                Err(WriteError::FlushTimeout { millis }),
            ) && millis * 1_000_000 <= s.period < (millis + 1) * 1_000_000
            &&& s.after(late).stage is Ended
        }),
{
}

/// A loop keeps its write priority and its period, whatever happens.
pub proof fn law_write_loop_keeps_settings<E>(s: WriteState, event: WriteEvent<E>)
    ensures
        s.after(event).write_priority == s.write_priority,
        s.after(event).period == s.period,
{
}

/// The priorities of the batches that a history of events has the loop pull.
pub open spec fn pulled<E>(events: Seq<WriteEvent<E>>) -> Seq<Priority>
    decreases events.len(),
{
    if events.len() == 0 {
        Seq::empty()
    } else {
        let before = pulled(events.drop_last());
        match events.last() {
            WriteEvent::Pulled(Some(p)) => before.push(p),
            _ => before,
        }
    }
}

/// The state after a history of events.
pub open spec fn after_events<E>(s: WriteState, events: Seq<WriteEvent<E>>) -> WriteState
    decreases events.len(),
{
    if events.len() == 0 {
        s
    } else {
        after_events(s, events.drop_last()).after(events.last())
    }
}

/// Each event of the history could occur in its turn.
pub open spec fn all_accepted<E>(s: WriteState, events: Seq<WriteEvent<E>>) -> bool
    decreases events.len(),
{
    events.len() == 0 || all_accepted(s, events.drop_last()) && after_events(
        s,
        events.drop_last(),
    ).accepts(events.last())
}

/// All that a history of events has the loop do, in order.
pub open spec fn performed<E>(s: WriteState, events: Seq<WriteEvent<E>>) -> Seq<WriteAction<E>>
    decreases events.len(),
{
    if events.len() == 0 {
        Seq::empty()
    } else {
        performed(s, events.drop_last()) + after_events(s, events.drop_last()).actions(
            events.last(),
        )
    }
}

/// The priorities of the batches that the actions give back to the pipeline.
pub open spec fn refilled<E>(actions: Seq<WriteAction<E>>) -> Seq<Priority>
    decreases actions.len(),
{
    if actions.len() == 0 {
        Seq::empty()
    } else {
        let before = refilled(actions.drop_last());
        match actions.last() {
            WriteAction::Refill(p) => before.push(p),
            _ => before,
        }
    }
}

/// How many batches the actions send.
pub open spec fn sends<E>(actions: Seq<WriteAction<E>>) -> nat
    decreases actions.len(),
{
    if actions.len() == 0 {
        0
    } else {
        sends(actions.drop_last()) + (if actions.last() is SendBatch {
            1nat
        } else {
            0
        })
    }
}

proof fn lemma_refilled_add<E>(a: Seq<WriteAction<E>>, b: Seq<WriteAction<E>>)
    ensures
        refilled(a + b) == refilled(a) + refilled(b),
        sends(a + b) == sends(a) + sends(b),
    decreases b.len(),
{
    if b.len() == 0 {
        assert(a + b =~= a);
    } else {
        lemma_refilled_add(a, b.drop_last());
        assert((a + b).drop_last() =~= a + b.drop_last());
    }
}

/// Over any run of a loop, each batch that was pulled is sent once, with the loop's
/// write priority, and as long as the loop has not been stopped, the batches given
/// back are those pulled, in order, but for the one that is being sent.
pub proof fn law_every_batch_is_sent_and_given_back<E>(
    s: WriteState,
    events: Seq<WriteEvent<E>>,
    i: int,
)
    requires
        s.stage is Selecting,
        all_accepted(s, events),
    ensures
        sends(performed(s, events)) == pulled(events).len(),
        0 <= i < performed(s, events).len() ==> (performed(s, events)[i] matches
            WriteAction::SendBatch(p) ==> p == s.write_priority),
        after_events(s, events).write_priority == s.write_priority,
        match after_events(s, events).stage {
            WriteStage::Selecting | WriteStage::SendingKeepAlive => refilled(performed(s, events))
                == pulled(events),
            WriteStage::Sending(p) => refilled(performed(s, events)).push(p) == pulled(events),
            _ => true,
        },
    decreases events.len(),
{
    if events.len() > 0 {
        let before = events.drop_last();
        law_every_batch_is_sent_and_given_back(s, before, i);
        let t = after_events(s, before);
        let done = performed(s, before);
        let more = t.actions(events.last());
        lemma_refilled_add(done, more);
        reveal_with_fuel(refilled, 5);
        reveal_with_fuel(sends, 5);
        assert(refilled(done) + Seq::<Priority>::empty() =~= refilled(done));
        if let WriteStage::Sending(p) = t.stage {
            assert(refilled(done) + Seq::<Priority>::empty().push(p) =~= refilled(done).push(p));
        }
    }
}

} // verus!
