//! The worker that moves a link's staged messages into its transmission pipeline.
//!
//! The push into the pipeline may wait on a congested link, but then only this
//! worker waits, and no other link is held up.
use vstd::prelude::*;

use crate::backlog::{
    all_empty, backlog, first_nonempty, is_first_nonempty, lemma_backlog_empty, lemma_backlog_take,
    lemma_first_nonempty_exists, lemma_first_nonempty_is,
};
use crate::message::{Message, Priority};
use crate::tx_queue::{holds_only, law_pop_keeps_bound, TxQueue, TxQueueState};

verus! {

/// What the worker is doing.
#[derive(Clone, Copy, Debug, PartialEq, Eq, Structural)]
pub enum DrainState {
    /// Waiting for a wake-up.
    Waiting,
    /// About to take the next message.
    Sweeping,
    /// Pushing the message it has taken into the pipeline.
    Pushing,
    /// Done for good.
    Stopped,
}

/// The drain worker of one link.
pub struct DrainWorker {
    state: DrainState,
}

impl View for DrainWorker {
    type V = DrainState;

    closed spec fn view(&self) -> DrainState {
        self.state
    }
}

impl DrainWorker {
    /// A worker that waits for its first wake-up.
    pub fn new() -> (r: Self)
        ensures
            r@ == DrainState::Waiting,
    {
        DrainWorker { state: DrainState::Waiting }
    }

    /// What the worker is doing.
    pub fn state(&self) -> (r: DrainState)
        ensures
            r == self@,
    {
        self.state
    }

    /// Takes the pending wake-up and starts a sweep, or stops if the link is
    /// shutting down. Without a pending wake-up the worker goes on waiting.
    pub fn wake<B>(&mut self, queue: &mut TxQueue<B>) -> (r: bool)
        requires
            old(self)@ == DrainState::Waiting,
            old(queue).wf(),
        ensures
            final(queue).wf(),
            r == old(queue)@.notified,
            final(queue)@ == (TxQueueState::<B> { notified: false, ..old(queue)@ }),
            final(self)@ == after_wake(old(queue)@),
            !old(queue)@.notified ==> final(self)@ == DrainState::Waiting,
            old(queue)@.notified && old(queue)@.disabled ==> final(self)@ == DrainState::Stopped,
            old(queue)@.notified && !old(queue)@.disabled ==> final(self)@ == DrainState::Sweeping,
    {
        let r = queue.take_notification();
        if r {
            self.state = if queue.is_disabled() {
                DrainState::Stopped
            } else {
                DrainState::Sweeping
            };
        }
        r
    }

    /// Stops the worker because no wake-up can come any more.
    pub fn wait_failed(&mut self)
        requires
            old(self)@ == DrainState::Waiting,
        ensures
            final(self)@ == DrainState::Stopped,
    {
        self.state = DrainState::Stopped;
    }

    /// Takes the next message: of all that are staged now, the oldest one of the
    /// most urgent priority, which is then to be pushed. When nothing is staged
    /// the sweep is over, and the worker waits again.
    pub fn next<B>(&mut self, queue: &mut TxQueue<B>) -> (r: Option<Message<B>>)
        requires
            old(self)@ == DrainState::Sweeping,
            old(queue).wf(),
        ensures
            final(queue).wf(),
            r == sweep_result(old(queue)@),
            final(queue)@ == sweep_queue(old(queue)@),
            final(self)@ == sweep_state(old(queue)@),
            r is Some ==> is_first_nonempty(
                old(queue)@.queues,
                0,
                first_nonempty(old(queue)@.queues, 0),
            ),
            r is None ==> {
                &&& final(self)@ == DrainState::Waiting
                &&& final(queue)@ == old(queue)@
                &&& forall|j: int|
                    0 <= j < Priority::NUM ==> (#[trigger] old(queue)@.queues[j]).len() == 0
            },
            r matches Some(m) ==> final(self)@ == DrainState::Pushing && exists|i: int|
                {
                    &&& 0 <= i < Priority::NUM
                    &&& (#[trigger] old(queue)@.queues[i]).len() > 0
                    &&& forall|j: int|
                        0 <= j < i ==> (#[trigger] old(queue)@.queues[j]).len() == 0
                    &&& m == old(queue)@.queues[i][0]
                    &&& final(queue)@ == (TxQueueState::<B> {
                        queues: old(queue)@.queues.update(
                            i,
                            old(queue)@.queues[i].drop_first(),
                        ),
                        ..old(queue)@
                    })
                },
    {
        let mut i: usize = 0;
        while i < Priority::NUM
            invariant
                queue@ == old(queue)@,
                queue.wf(),
                i <= Priority::NUM,
                forall|j: int| 0 <= j < i ==> (#[trigger] queue@.queues[j]).len() == 0,
            decreases Priority::NUM - i,
        {
            if let Some(msg) = queue.pop(i) {
                proof {
                    assert(is_first_nonempty(old(queue)@.queues, 0, i as int));
                    lemma_first_nonempty_is(old(queue)@.queues, 0, i as int);
                }
                self.state = DrainState::Pushing;
                return Some(msg);
            }
            i += 1;
        }
        self.state = DrainState::Waiting;
        None
    }

    /// Takes note of the push of the message into the pipeline: whether it was
    /// accepted is to be accounted for, and the sweep goes on. An error means that
    /// the transport is closed, and the worker stops.
    pub fn pushed(&mut self, result: Result<bool, ()>) -> (r: Option<bool>)
        requires
            old(self)@ == DrainState::Pushing,
        ensures
            match result {
                Ok(accepted) => r == Some(accepted) && final(self)@ == DrainState::Sweeping,
                Err(_) => r is None && final(self)@ == DrainState::Stopped,
            },
    {
        match result {
            Ok(accepted) => {
                self.state = DrainState::Sweeping;
                Some(accepted)
            },
            Err(_) => {
                self.state = DrainState::Stopped;
                None
            },
        }
    }
}

/// What a waiting worker does with the wake-up that may be pending.
pub open spec fn after_wake<B>(s: TxQueueState<B>) -> DrainState {
    if !s.notified {
        DrainState::Waiting
    } else if s.disabled {
        DrainState::Stopped
    } else {
        DrainState::Sweeping
    }
}

/// The message that a sweep takes next.
pub open spec fn sweep_result<B>(s: TxQueueState<B>) -> Option<Message<B>> {
    if all_empty(s.queues, 0) {
        None
    } else {
        Some(s.queues[first_nonempty(s.queues, 0)][0])
    }
}

/// The queues once that message has been taken.
pub open spec fn sweep_queue<B>(s: TxQueueState<B>) -> TxQueueState<B> {
    if all_empty(s.queues, 0) {
        s
    } else {
        s.after_pop(first_nonempty(s.queues, 0))
    }
}

/// What the worker then does.
pub open spec fn sweep_state<B>(s: TxQueueState<B>) -> DrainState {
    if all_empty(s.queues, 0) {
        DrainState::Waiting
    } else {
        DrainState::Pushing
    }
}

/// Strict priority: whatever has been enqueued so far, a take gives a message of
/// the most urgent priority staged at that moment, the oldest one there.
pub proof fn law_take_is_most_urgent<B>(s: TxQueueState<B>, i: int, k: int)
    requires
        s.valid(),
        0 <= i < Priority::NUM,
        0 <= k < s.queues[i].len(),
    ensures
        sweep_result(s) matches Some(m) && {
            &&& m.priority.rank() <= s.queues[i][k].priority.rank()
            &&& m == s.queues[m.priority.rank()][0]
        },
{
    assert(s.queues[i].len() > 0);
    assert(!all_empty(s.queues, 0));
    lemma_first_nonempty_exists(s.queues, 0);
    let f = first_nonempty(s.queues, 0);
    assert(holds_only(s.queues[f], f));
    assert(holds_only(s.queues[i], i));
    assert(s.queues[f][0].priority.rank() == f);
    assert(s.queues[i][k].priority.rank() == i);
    if i < f {
        assert(s.queues[i].len() == 0);
    }
}

/// What a waiting worker does is decided by the wake-up and the shutdown alone: with
/// no wake-up it goes on waiting, and a wake-up starts a sweep, or stops the worker of
/// a link that shuts down.
pub proof fn law_wake_up_decides<B>(s: TxQueueState<B>)
    ensures
        after_wake(s) is Waiting <==> !s.notified,
        after_wake(s) is Stopped <==> s.notified && s.disabled,
        after_wake(s) is Sweeping <==> s.notified && !s.disabled,
{
}

/// Where the queues before queue `i` are empty and that one is not, a take gives its
/// oldest message, takes just that one out, and leads to a push.
pub proof fn law_take_is_front_of_first<B>(s: TxQueueState<B>, i: int)
    requires
        s.valid(),
        0 <= i < Priority::NUM,
        s.queues[i].len() > 0,
        forall|j: int| 0 <= j < i ==> (#[trigger] s.queues[j]).len() == 0,
    ensures
        sweep_result(s) == Some(s.queues[i][0]),
        sweep_queue(s) == (TxQueueState {
            queues: s.queues.update(i, s.queues[i].drop_first()),
            ..s
        }),
        sweep_state(s) == DrainState::Pushing,
{
    assert(is_first_nonempty(s.queues, 0, i));
    lemma_first_nonempty_is(s.queues, 0, i);
}

/// Where nothing is staged, a sweep takes nothing, changes nothing, and is over.
pub proof fn law_empty_sweep_is_over<B>(s: TxQueueState<B>)
    requires
        s.valid(),
        forall|j: int| 0 <= j < Priority::NUM ==> (#[trigger] s.queues[j]).len() == 0,
    ensures
        sweep_result(s) is None,
        sweep_queue(s) == s,
        sweep_state(s) == DrainState::Waiting,
{
}

/// A take removes the first message of the backlog, and there is none to take
/// exactly when the backlog is empty.
pub proof fn law_take_shortens_backlog<B>(s: TxQueueState<B>)
    requires
        s.valid(),
    ensures
        sweep_queue(s).valid(),
        sweep_result(s) is None <==> backlog(s.queues, 0).len() == 0,
        sweep_result(s) matches Some(m) ==> backlog(s.queues, 0) == seq![m] + backlog(
            sweep_queue(s).queues,
            0,
        ),
{
    lemma_backlog_empty(s.queues, 0);
    if !all_empty(s.queues, 0) {
        lemma_first_nonempty_exists(s.queues, 0);
        let i = first_nonempty(s.queues, 0);
        lemma_backlog_take(s.queues, 0, i);
        law_pop_keeps_bound(s, i);
    }
}

/// The queues after `n` takes with no enqueue in between.
pub open spec fn after_takes<B>(s: TxQueueState<B>, n: nat) -> TxQueueState<B>
    decreases n,
{
    if n == 0 {
        s
    } else {
        after_takes(sweep_queue(s), (n - 1) as nat)
    }
}

/// With no enqueue in between, a sweep takes all staged messages one by one in
/// priority order, oldest first within a priority, and is over exactly when none
/// is left.
pub proof fn law_sweep_follows_priority<B>(s: TxQueueState<B>, n: nat)
    requires
        s.valid(),
        n <= backlog(s.queues, 0).len(),
    ensures
        after_takes(s, n).valid(),
        backlog(after_takes(s, n).queues, 0) == backlog(s.queues, 0).skip(n as int),
        sweep_result(after_takes(s, n)) == if n < backlog(s.queues, 0).len() {
            Some(backlog(s.queues, 0)[n as int])
        } else {
            None
        },
    decreases n,
{
    let all = backlog(s.queues, 0);
    law_take_shortens_backlog(s);
    if n == 0 {
        assert(all.skip(0) =~= all);
    } else {
        let m = sweep_result(s)->Some_0;
        let t = sweep_queue(s);
        let rest = backlog(t.queues, 0);
        assert(all == seq![m] + rest);
        law_sweep_follows_priority(t, (n - 1) as nat);
        assert(all.skip(n as int) =~= rest.skip(n - 1));
    }
}

} // verus!
