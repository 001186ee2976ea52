//! What holds of a link's staging queues together with its drain worker, however
//! enqueues and the worker interleave, as long as the pipeline takes what it is
//! given; and that a shutdown stops the worker.
use vstd::prelude::*;

use crate::backlog::{
    all_empty, backlog, first_nonempty, lemma_backlog_empty, lemma_first_nonempty_exists,
};
use crate::drain::{
    after_wake, law_take_is_most_urgent, law_take_shortens_backlog, sweep_queue, sweep_result,
    sweep_state, DrainState,
};
use crate::message::{law_rank_identifies_priority, Message, Priority};
use crate::tx_queue::{holds_only, law_enqueue_keeps_bound, TxQueueState};
use crate::tx_queue_laws::{
    after, blocking, law_queued_block_messages_survive, popped, queued, TxOp,
};

verus! {

/// The staging queues of a link together with its drain worker.
pub struct Staging<B> {
    pub queue: TxQueueState<B>,
    pub worker: DrainState,
}

/// One thing that happens to them.
pub enum StagingStep<B> {
    /// A sender enqueues a message.
    Enqueue(Message<B>),
    /// The waiting worker looks for a wake-up.
    Wake,
    /// The sweeping worker takes its next message.
    Next,
    /// The pipeline has taken the message that was pushed.
    Pushed,
}

impl<B> Staging<B> {
    /// Empty queues for `capacity` messages each, and a worker that waits.
    pub open spec fn fresh(capacity: nat) -> Staging<B> {
        Staging {
            queue: TxQueueState {
                queues: Seq::new(Priority::NUM as nat, |i: int| Seq::empty()),
                capacity,
                disabled: false,
                notified: false,
            },
            worker: DrainState::Waiting,
        }
    }

    /// The queues are valid, the worker runs, and no staged message is stranded:
    /// a wake-up is pending, or the worker is going to look for more messages.
    pub open spec fn attended(self) -> bool {
        &&& self.queue.valid()
        &&& !self.queue.disabled
        &&& self.worker != DrainState::Stopped
        &&& !all_empty(self.queue.queues, 0) ==> self.queue.notified || self.worker is Sweeping
            || self.worker is Pushing
    }

    /// The step can happen now.
    pub open spec fn enabled(self, step: StagingStep<B>) -> bool {
        match step {
            StagingStep::Enqueue(_) => true,
            StagingStep::Wake => self.worker is Waiting,
            StagingStep::Next => self.worker is Sweeping,
            StagingStep::Pushed => self.worker is Pushing,
        }
    }

    /// What the step leads to.
    pub open spec fn after(self, step: StagingStep<B>) -> Staging<B> {
        match step {
            StagingStep::Enqueue(m) => Staging { queue: self.queue.after_enqueue(m), ..self },
            StagingStep::Wake => Staging {
                queue: TxQueueState { notified: false, ..self.queue },
                worker: after_wake(self.queue),
            },
            StagingStep::Next => Staging {
                queue: sweep_queue(self.queue),
                worker: sweep_state(self.queue),
            },
            StagingStep::Pushed => Staging { worker: DrainState::Sweeping, ..self },
        }
    }

    /// What a history of steps leads to.
    pub open spec fn after_all(self, steps: Seq<StagingStep<B>>) -> Staging<B>
        decreases steps.len(),
    {
        if steps.len() == 0 {
            self
        } else {
            self.after_all(steps.drop_last()).after(steps.last())
        }
    }

    /// Each step of the history could happen in its turn.
    pub open spec fn all_enabled(self, steps: Seq<StagingStep<B>>) -> bool
        decreases steps.len(),
    {
        steps.len() == 0 || self.all_enabled(steps.drop_last()) && self.after_all(
            steps.drop_last(),
        ).enabled(steps.last())
    }

    /// No queue was full at an enqueue into it over the history.
    pub open spec fn uncongested(self, steps: Seq<StagingStep<B>>) -> bool
        decreases steps.len(),
    {
        steps.len() == 0 || {
            let before = self.after_all(steps.drop_last()).queue;
            &&& self.uncongested(steps.drop_last())
            &&& steps.last() matches StagingStep::Enqueue(m)
                ==> before.queues[m.priority.rank()].len() < before.capacity
        }
    }

    /// No enqueue of the history evicted a message.
    pub open spec fn evicts_nothing(self, steps: Seq<StagingStep<B>>) -> bool
        decreases steps.len(),
    {
        steps.len() == 0 || {
            let before = self.after_all(steps.drop_last()).queue;
            &&& self.evicts_nothing(steps.drop_last())
            &&& steps.last() matches StagingStep::Enqueue(m) ==> !before.evicts_for(m)
        }
    }

    /// The messages of priority `p` that were queued over the history, in order.
    pub open spec fn queued(self, steps: Seq<StagingStep<B>>, p: Priority) -> Seq<Message<B>>
        decreases steps.len(),
    {
        if steps.len() == 0 {
            Seq::empty()
        } else {
            let before = self.queued(steps.drop_last(), p);
            match steps.last() {
                StagingStep::Enqueue(m) => if m.priority == p && self.after_all(
                    steps.drop_last(),
                ).queue.enqueue_outcome(m) is Queued {
                    before.push(m)
                } else {
                    before
                },
                _ => before,
            }
        }
    }

    /// The messages of priority `p` enqueued over the history, whatever became of
    /// them, in order.
    pub open spec fn enqueued(self, steps: Seq<StagingStep<B>>, p: Priority) -> Seq<Message<B>>
        decreases steps.len(),
    {
        if steps.len() == 0 {
            Seq::empty()
        } else {
            let before = self.enqueued(steps.drop_last(), p);
            match steps.last() {
                StagingStep::Enqueue(m) => if m.priority == p {
                    before.push(m)
                } else {
                    before
                },
                _ => before,
            }
        }
    }

    /// The messages of priority `p` that the worker took over the history, to push
    /// each into the pipeline, in order.
    pub open spec fn taken(self, steps: Seq<StagingStep<B>>, p: Priority) -> Seq<Message<B>>
        decreases steps.len(),
    {
        if steps.len() == 0 {
            Seq::empty()
        } else {
            let before = self.taken(steps.drop_last(), p);
            match steps.last() {
                StagingStep::Next => match sweep_result(self.after_all(steps.drop_last()).queue) {
                    Some(m) if m.priority == p => before.push(m),
                    _ => before,
                },
                _ => before,
            }
        }
    }

    /// What the history comes to for the queues: its enqueues, and a pop for each
    /// message that the worker took.
    pub open spec fn ops(self, steps: Seq<StagingStep<B>>) -> Seq<TxOp<B>>
        decreases steps.len(),
    {
        if steps.len() == 0 {
            Seq::empty()
        } else {
            let before = self.ops(steps.drop_last());
            match steps.last() {
                StagingStep::Enqueue(m) => before.push(TxOp::Enqueue(m)),
                StagingStep::Next => match sweep_result(self.after_all(steps.drop_last()).queue) {
                    Some(m) => before.push(TxOp::Pop(m.priority)),
                    None => before,
                },
                _ => before,
            }
        }
    }

    /// What the worker does next if it is left alone.
    pub open spec fn worker_step(self) -> StagingStep<B> {
        match self.worker {
            DrainState::Waiting | DrainState::Stopped => StagingStep::Wake,
            DrainState::Sweeping => StagingStep::Next,
            DrainState::Pushing => StagingStep::Pushed,
        }
    }

    /// How many steps the worker takes until it has nothing left to do: two for
    /// each staged message, two for a pending wake-up, and what it is at now.
    pub open spec fn work(self) -> nat {
        2 * backlog(self.queue.queues, 0).len() + (if self.queue.notified {
            2nat
        } else {
            0
        }) + (match self.worker {
            DrainState::Waiting | DrainState::Stopped => 0nat,
            DrainState::Sweeping => 1,
            DrainState::Pushing => 2,
        })
    }

    /// The history, and then `n` steps of the worker with no enqueue in between.
    pub open spec fn continued(self, steps: Seq<StagingStep<B>>, n: nat) -> Seq<StagingStep<B>>
        decreases n,
    {
        if n == 0 {
            steps
        } else {
            let before = self.continued(steps, (n - 1) as nat);
            before.push(self.after_all(before).worker_step())
        }
    }
}

/// No message is stranded by any step: a staged message always has a wake-up
/// pending, or a worker that is going to look for it.
pub proof fn law_no_message_is_stranded<B>(s: Staging<B>, step: StagingStep<B>)
    requires
        s.attended(),
        s.enabled(step),
    ensures
        s.after(step).attended(),
{
    let t = s.after(step);
    match step {
        StagingStep::Enqueue(m) => {
            law_enqueue_keeps_bound(s.queue, m);
            if !t.queue.notified {
                assert(t.queue.queues =~= s.queue.queues);
            }
        },
        StagingStep::Wake => {},
        StagingStep::Next => {
            law_take_shortens_backlog(s.queue);
        },
        StagingStep::Pushed => {},
    }
}

/// Over any history, whenever the worker waits while a message is staged, a
/// wake-up is pending.
pub proof fn law_waiting_worker_is_woken<B>(capacity: nat, steps: Seq<StagingStep<B>>)
    requires
        capacity > 0,
        Staging::<B>::fresh(capacity).all_enabled(steps),
    ensures
        ({
            let s = Staging::<B>::fresh(capacity).after_all(steps);
            &&& s.attended()
            &&& s.worker is Waiting && !all_empty(s.queue.queues, 0) ==> s.queue.notified
        }),
    decreases steps.len(),
{
    let start = Staging::<B>::fresh(capacity);
    if steps.len() > 0 {
        law_waiting_worker_is_woken::<B>(capacity, steps.drop_last());
        law_no_message_is_stranded(start.after_all(steps.drop_last()), steps.last());
    }
}

/// Strict priority over any history: whenever the worker takes a message, and
/// whatever has been enqueued before, between or since its earlier takes, that
/// message is the oldest one of the most urgent priority staged at that moment.
pub proof fn law_takes_are_strict<B>(
    capacity: nat,
    steps: Seq<StagingStep<B>>,
    i: int,
    k: int,
)
    requires
        capacity > 0,
        Staging::<B>::fresh(capacity).all_enabled(steps),
        0 <= i < Priority::NUM,
        0 <= k < Staging::<B>::fresh(capacity).after_all(steps).queue.queues[i].len(),
    ensures
        ({
            let q = Staging::<B>::fresh(capacity).after_all(steps).queue;
            sweep_result(q) matches Some(m) && {
                &&& m.priority.rank() <= q.queues[i][k].priority.rank()
                &&& m == q.queues[m.priority.rank()][0]
            }
        }),
{
    law_waiting_worker_is_woken::<B>(capacity, steps);
    law_take_is_most_urgent(Staging::<B>::fresh(capacity).after_all(steps).queue, i, k);
}

/// None lost and none twice: over any history in which no message was evicted, the
/// messages that the worker took at a priority, followed by those still staged
/// there, are exactly those queued, in order.
pub proof fn law_each_message_is_taken_once<B>(
    capacity: nat,
    steps: Seq<StagingStep<B>>,
    p: Priority,
)
    requires
        capacity > 0,
        Staging::<B>::fresh(capacity).all_enabled(steps),
        Staging::<B>::fresh(capacity).evicts_nothing(steps),
    ensures
        ({
            let s = Staging::<B>::fresh(capacity);
            s.taken(steps, p) + s.after_all(steps).queue.queues[p.rank()] == s.queued(steps, p)
        }),
    decreases steps.len(),
{
    let start = Staging::<B>::fresh(capacity);
    let i = p.rank();
    if steps.len() == 0 {
        assert(start.taken(steps, p) + start.queue.queues[i] =~= start.queued(steps, p));
    } else {
        let before = steps.drop_last();
        law_each_message_is_taken_once(capacity, before, p);
        law_waiting_worker_is_woken::<B>(capacity, before);
        let s = start.after_all(before);
        let out = start.taken(before, p);
        let q = s.queue.queues[i];
        match steps.last() {
            StagingStep::Enqueue(m) => {
                if m.priority == p {
                    assert(out + q.push(m) =~= (out + q).push(m));
                } else if m.priority.rank() == i {
                    law_rank_identifies_priority(m.priority, p);
                }
            },
            StagingStep::Next => {
                if !all_empty(s.queue.queues, 0) {
                    lemma_first_nonempty_exists(s.queue.queues, 0);
                    let f = first_nonempty(s.queue.queues, 0);
                    assert(holds_only(s.queue.queues[f], f));
                    let m = s.queue.queues[f][0];
                    assert(m.priority.rank() == f);
                    if m.priority == p {
                        assert(out.push(m) + q.drop_first() =~= out + q);
                    } else if f == i {
                        law_rank_identifies_priority(m.priority, p);
                    }
                }
            },
            StagingStep::Wake | StagingStep::Pushed => {},
        }
    }
}

/// Where no queue was full at an enqueue, nothing was evicted, and all that was
/// enqueued was queued.
pub proof fn law_uncongested_queues_everything<B>(
    s: Staging<B>,
    steps: Seq<StagingStep<B>>,
    p: Priority,
)
    requires
        s.uncongested(steps),
    ensures
        s.evicts_nothing(steps),
        s.queued(steps, p) == s.enqueued(steps, p),
    decreases steps.len(),
{
    if steps.len() > 0 {
        law_uncongested_queues_everything(s, steps.drop_last(), p);
    }
}

/// The worker does nothing to the queues but pop: over any history they are left as
/// its enqueues and pops leave them, and the messages queued, and those taken at a
/// priority, are the ones that those operations queue and pop.
pub proof fn law_worker_only_pops<B>(capacity: nat, steps: Seq<StagingStep<B>>, p: Priority)
    requires
        capacity > 0,
        Staging::<B>::fresh(capacity).all_enabled(steps),
    ensures
        ({
            let s = Staging::<B>::fresh(capacity);
            let t = after(s.queue, s.ops(steps));
            &&& s.after_all(steps).queue == (TxQueueState {
                notified: s.after_all(steps).queue.notified,
                ..t
            })
            &&& popped(s.queue, s.ops(steps), p) == s.taken(steps, p)
            &&& queued(s.queue, s.ops(steps), p) == s.queued(steps, p)
        }),
    decreases steps.len(),
{
    let s = Staging::<B>::fresh(capacity);
    if steps.len() > 0 {
        let before = steps.drop_last();
        law_worker_only_pops(capacity, before, p);
        law_waiting_worker_is_woken::<B>(capacity, before);
        let q = s.after_all(before).queue;
        let ops = s.ops(before);
        match steps.last() {
            StagingStep::Enqueue(m) => {
                assert(ops.push(TxOp::Enqueue(m)).drop_last() =~= ops);
            },
            StagingStep::Next => if !all_empty(q.queues, 0) {
                lemma_first_nonempty_exists(q.queues, 0);
                let f = first_nonempty(q.queues, 0);
                let m = q.queues[f][0];
                assert(holds_only(q.queues[f], f));
                assert(m.priority.rank() == f);
                assert(ops.push(TxOp::Pop(m.priority)).drop_last() =~= ops);
            },
            StagingStep::Wake | StagingStep::Pushed => {},
        }
    }
}

/// Once the link begins to shut down, whatever else is enqueued, popped or shut
/// down meanwhile, a waiting worker stops as soon as it looks for a wake-up.
pub proof fn law_shutdown_stops_worker<B>(s: TxQueueState<B>, ops: Seq<TxOp<B>>)
    ensures
        after_wake(after(s.after_disable(), ops)) == DrainState::Stopped,
    decreases ops.len(),
{
    if ops.len() > 0 {
        law_shutdown_stops_worker(s, ops.drop_last());
    }
}

/// Reliable `Block` messages survive any congestion: over any history those that
/// the worker took at a priority, followed by those still staged there, are exactly
/// those queued, in order.
pub proof fn law_block_messages_are_taken_once<B>(
    capacity: nat,
    steps: Seq<StagingStep<B>>,
    p: Priority,
)
    requires
        capacity > 0,
        Staging::<B>::fresh(capacity).all_enabled(steps),
    ensures
        ({
            let s = Staging::<B>::fresh(capacity);
            blocking(s.taken(steps, p)) + blocking(s.after_all(steps).queue.queues[p.rank()])
                == blocking(s.queued(steps, p))
        }),
{
    let s = Staging::<B>::fresh(capacity);
    law_worker_only_pops(capacity, steps, p);
    law_queued_block_messages_survive(s.queue, s.ops(steps), p);
    assert(s.queue.queues[p.rank()] =~= Seq::empty());
    assert(blocking(Seq::<Message<B>>::empty()) =~= Seq::empty()) by {
        reveal(Seq::filter);
    }
    assert(Seq::empty() + blocking(s.queued(steps, p)) =~= blocking(s.queued(steps, p)));
}

/// Every step of a worker that is left alone is one step less to do.
pub proof fn law_worker_makes_progress<B>(s: Staging<B>)
    requires
        s.attended(),
        s.work() > 0,
    ensures
        s.enabled(s.worker_step()),
        s.after(s.worker_step()).attended(),
        s.after(s.worker_step()).work() + 1 == s.work(),
{
    lemma_backlog_empty(s.queue.queues, 0);
    law_no_message_is_stranded(s, s.worker_step());
    law_take_shortens_backlog(s.queue);
    if s.worker is Sweeping && !all_empty(s.queue.queues, 0) {
        let m = sweep_result(s.queue)->Some_0;
        assert(backlog(s.queue.queues, 0).len() == 1 + backlog(
            sweep_queue(s.queue).queues,
            0,
        ).len());
    }
}

/// The continued history is one of the worker's own steps, each of which could
/// happen, and leaves that much less to do.
proof fn lemma_continued<B>(capacity: nat, steps: Seq<StagingStep<B>>, n: nat, p: Priority)
    requires
        capacity > 0,
        Staging::<B>::fresh(capacity).all_enabled(steps),
        n <= Staging::<B>::fresh(capacity).after_all(steps).work(),
    ensures
        ({
            let s = Staging::<B>::fresh(capacity);
            let more = s.continued(steps, n);
            &&& s.all_enabled(more)
            &&& s.after_all(more).attended()
            &&& s.after_all(more).work() + n == s.after_all(steps).work()
            &&& s.queued(more, p) == s.queued(steps, p)
            &&& s.evicts_nothing(steps) ==> s.evicts_nothing(more)
        }),
    decreases n,
{
    let s = Staging::<B>::fresh(capacity);
    law_waiting_worker_is_woken::<B>(capacity, steps);
    if n > 0 {
        lemma_continued(capacity, steps, (n - 1) as nat, p);
        let before = s.continued(steps, (n - 1) as nat);
        law_worker_makes_progress(s.after_all(before));
        let more = s.continued(steps, n);
        assert(more.drop_last() =~= before);
    }
}

/// Every message is in the end taken, exactly once: after any history in which no
/// queue was full at an enqueue, a worker that is left alone comes to rest within
/// a number of steps that is known beforehand; then nothing is staged, and the
/// messages taken at each priority are exactly those enqueued, in order.
pub proof fn law_every_message_is_taken<B>(capacity: nat, steps: Seq<StagingStep<B>>, p: Priority)
    requires
        capacity > 0,
        Staging::<B>::fresh(capacity).all_enabled(steps),
        Staging::<B>::fresh(capacity).uncongested(steps),
    ensures
        ({
            let s = Staging::<B>::fresh(capacity);
            let more = s.continued(steps, s.after_all(steps).work());
            &&& s.all_enabled(more)
            &&& all_empty(s.after_all(more).queue.queues, 0)
            &&& s.after_all(more).worker is Waiting
            &&& s.taken(more, p) == s.enqueued(steps, p)
        }),
{
    let s = Staging::<B>::fresh(capacity);
    let more = s.continued(steps, s.after_all(steps).work());
    law_uncongested_queues_everything(s, steps, p);
    lemma_continued(capacity, steps, s.after_all(steps).work(), p);
    law_each_message_is_taken_once(capacity, more, p);
    let end = s.after_all(more);
    lemma_backlog_empty(end.queue.queues, 0);
    assert(end.queue.queues[p.rank()].len() == 0);
    assert(s.taken(more, p) + end.queue.queues[p.rank()] =~= s.taken(more, p));
}

/// With no more enqueues the queues are emptied, also where they were full
/// before: the worker comes to rest within a number of steps that is known
/// beforehand; then nothing is staged, and the reliable `Block` messages taken at
/// each priority are exactly those queued, in order.
pub proof fn law_draining_ends<B>(capacity: nat, steps: Seq<StagingStep<B>>, p: Priority)
    requires
        capacity > 0,
        Staging::<B>::fresh(capacity).all_enabled(steps),
    ensures
        ({
            let s = Staging::<B>::fresh(capacity);
            let more = s.continued(steps, s.after_all(steps).work());
            &&& s.all_enabled(more)
            &&& all_empty(s.after_all(more).queue.queues, 0)
            &&& s.after_all(more).worker is Waiting
            &&& blocking(s.taken(more, p)) == blocking(s.queued(steps, p))
        }),
{
    let s = Staging::<B>::fresh(capacity);
    lemma_continued(capacity, steps, s.after_all(steps).work(), p);
    let more = s.continued(steps, s.after_all(steps).work());
    law_block_messages_are_taken_once(capacity, more, p);
    let end = s.after_all(more);
    lemma_backlog_empty(end.queue.queues, 0);
    assert(end.queue.queues[p.rank()].len() == 0);
    assert(blocking(end.queue.queues[p.rank()]) =~= Seq::empty()) by {
        reveal(Seq::filter);
    }
    assert(blocking(s.taken(more, p)) + Seq::<Message<B>>::empty() =~= blocking(
        s.taken(more, p),
    ));
}

} // verus!
