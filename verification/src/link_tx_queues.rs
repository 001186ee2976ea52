//! Bounded per-priority egress queues with a drop-oldest overflow policy.
//!
//! Any number of producers enqueue without ever waiting: when a queue is full,
//! its oldest message makes room for the new one. One consumer takes the
//! messages, most urgent first.
use std::collections::VecDeque;

use vstd::prelude::*;

use crate::backlog::{
    all_empty, backlog, first_nonempty, is_first_nonempty, lemma_backlog_empty, lemma_backlog_take,
    lemma_first_nonempty_exists, lemma_first_nonempty_is, take_front,
};
use crate::message::Priority;
use crate::settings::{
    at_least, capacity_per_priority, eviction_log_every, setting_or, text_of, unsigned_value,
    DEFAULT_CAPACITY, DEFAULT_LOG_EVERY,
};

verus! {

/// What a push did.
#[derive(Debug, PartialEq, Eq)]
pub struct Pushed<M> {
    /// The message was queued; if not, the queues are closed.
    pub queued: bool,
    /// The message that could not be kept: the oldest one of a full queue, or the
    /// pushed one where the queues are closed.
    pub evicted: Option<M>,
    /// How many messages have been evicted so far, when this eviction is one to
    /// be logged.
    pub log: Option<u64>,
}

/// What a consumer finds.
#[derive(Debug, PartialEq, Eq)]
pub enum Popped<M> {
    /// The most urgent message.
    Ready(M),
    /// Nothing is queued, and nothing will be.
    Closed,
    /// Nothing is queued yet.
    Wait,
}

/// The abstract state of a [`LinkTxQueues`].
#[verifier::ext_equal]
pub struct LinkTxState<M> {
    /// The messages of each priority, oldest first; index 0 is the most urgent.
    pub queues: Seq<Seq<M>>,
    /// The configured capacity of each queue.
    pub capacity: nat,
    /// The queues take no more messages.
    pub closed: bool,
    /// The number of messages evicted so far, modulo two to the 64.
    pub evicted_count: u64,
    /// One eviction in this many is logged.
    pub log_every: u64,
}

/// What is left of a full queue once its oldest message has been evicted; a queue
/// with room is left as it is.
pub open spec fn make_room<M>(queue: Seq<M>, capacity: nat) -> Seq<M> {
    if evicts(queue, capacity) {
        queue.drop_first()
    } else {
        queue
    }
}

/// A push to this queue evicts its oldest message.
pub open spec fn evicts<M>(queue: Seq<M>, capacity: nat) -> bool {
    queue.len() >= at_least(capacity, 1)
}

/// The eviction that follows `count` others is logged.
pub open spec fn logs_eviction(count: int, log_every: int) -> bool {
    count % log_every == 0
}

impl<M> LinkTxState<M> {
    /// There is one queue per priority, and none holds more than its capacity, or
    /// than one message where the capacity is zero.
    pub open spec fn valid(self) -> bool {
        &&& self.queues.len() == Priority::NUM
        &&& self.log_every > 0
        &&& forall|i: int|
            0 <= i < Priority::NUM ==> (#[trigger] self.queues[i]).len() <= at_least(
                self.capacity,
                1,
            )
    }

    /// A push at this priority evicts a message.
    pub open spec fn push_evicts(self, priority: Priority) -> bool {
        !self.closed && evicts(self.queues[priority.rank()], self.capacity)
    }

    /// The state after `msg` has been pushed at the given priority.
    pub open spec fn after_push(self, priority: Priority, msg: M) -> LinkTxState<M> {
        let p = priority.rank();
        if self.closed {
            self
        } else {
            LinkTxState {
                queues: self.queues.update(
                    p,
                    make_room(self.queues[p], self.capacity).push(msg),
                ),
                evicted_count: if self.push_evicts(priority) {
                    ((self.evicted_count + 1) % 0x1_0000_0000_0000_0000) as u64
                } else {
                    self.evicted_count
                },
                ..self
            }
        }
    }

    /// What that push does.
    pub open spec fn push_result(self, priority: Priority, msg: M) -> Pushed<M> {
        Pushed {
            queued: !self.closed,
            evicted: if self.closed {
                Some(msg)
            } else if self.push_evicts(priority) {
                Some(self.queues[priority.rank()][0])
            } else {
                None
            },
            log: if self.push_evicts(priority) && logs_eviction(
                self.evicted_count as int,
                self.log_every as int,
            ) {
                Some(self.after_push(priority, msg).evicted_count)
            } else {
                None
            },
        }
    }

    /// What a consumer finds: the oldest message of the most urgent queue that
    /// holds one.
    pub open spec fn pop_result(self) -> Popped<M> {
        if !all_empty(self.queues, 0) {
            Popped::Ready(self.queues[first_nonempty(self.queues, 0)][0])
        } else if self.closed {
            Popped::Closed
        } else {
            Popped::Wait
        }
    }

    /// The state after the consumer has taken what it found.
    pub open spec fn after_pop(self) -> LinkTxState<M> {
        if !all_empty(self.queues, 0) {
            LinkTxState { queues: take_front(self.queues, first_nonempty(self.queues, 0)), ..self }
        } else {
            self
        }
    }

    /// The state after the queues have been closed.
    pub open spec fn after_close(self) -> LinkTxState<M> {
        LinkTxState { closed: true, ..self }
    }

    /// The messages queued, in the order in which a consumer takes them.
    pub open spec fn pending(self) -> Seq<M> {
        backlog(self.queues, 0)
    }
}

/// A push keeps every queue within its bound.
pub proof fn law_push_keeps_bound<M>(s: LinkTxState<M>, priority: Priority, msg: M)
    requires
        s.valid(),
    ensures
        s.after_push(priority, msg).valid(),
{
    let t = s.after_push(priority, msg);
    assert forall|i: int| 0 <= i < Priority::NUM implies (#[trigger] t.queues[i]).len()
        <= at_least(t.capacity, 1) by {
        assert(s.queues[i].len() <= at_least(s.capacity, 1));
    }
}

/// A pop keeps every queue within its bound, and takes the first of the pending
/// messages: the consumer gets the most urgent message, the oldest of its
/// priority, and no other.
pub proof fn law_pop_takes_most_urgent<M>(s: LinkTxState<M>)
    requires
        s.valid(),
    ensures
        s.after_pop().valid(),
        s.pop_result() matches Popped::Ready(m) ==> s.pending() == seq![m]
            + s.after_pop().pending(),
        s.pop_result() is Ready <==> s.pending().len() > 0,
        s.pop_result() is Closed <==> s.closed && s.pending().len() == 0,
{
    lemma_backlog_empty(s.queues, 0);
    if !all_empty(s.queues, 0) {
        lemma_first_nonempty_exists(s.queues, 0);
        let i = first_nonempty(s.queues, 0);
        lemma_backlog_take(s.queues, 0, i);
        let t = s.after_pop();
        assert forall|j: int| 0 <= j < Priority::NUM implies (#[trigger] t.queues[j]).len()
            <= at_least(t.capacity, 1) by {
            assert(s.queues[j].len() <= at_least(s.capacity, 1));
        }
    }
}

/// The egress queues of one link.
pub struct LinkTxQueues<M> {
    queues: Vec<VecDeque<M>>,
    closed: bool,
    capacity: usize,
    evicted_count: u64,
    log_every: u64,
}

impl<M> View for LinkTxQueues<M> {
    type V = LinkTxState<M>;

    closed spec fn view(&self) -> LinkTxState<M> {
        LinkTxState {
            queues: self.queues@.map_values(|q: VecDeque<M>| q@),
            capacity: self.capacity as nat,
            closed: self.closed,
            evicted_count: self.evicted_count,
            log_every: self.log_every,
        }
    }
}

impl<M> LinkTxQueues<M> {
    /// Every queue exists and is within its bound.
    pub open spec fn wf(self) -> bool {
        self@.valid()
    }

    /// Empty queues, sized by the two settings (`None` where one is not set): the
    /// capacity of each queue, and one eviction in how many is logged.
    pub fn new(capacity_var: Option<&str>, log_every_var: Option<&str>) -> (r: Self)
        ensures
            r.wf(),
            r@ == (LinkTxState::<M> {
                queues: Seq::new(Priority::NUM as nat, |i: int| Seq::empty()),
                capacity: setting_or(
                    text_of(capacity_var),
                    DEFAULT_CAPACITY as nat,
                    usize::MAX as nat,
                ),
                closed: false,
                evicted_count: 0,
                log_every: setting_or(
                    text_of(log_every_var),
                    DEFAULT_LOG_EVERY as nat,
                    u64::MAX as nat,
                ) as u64,
            }),
            capacity_var matches Some(text) ==> (unsigned_value(
                text@,
                usize::MAX as nat,
            ) matches Some(n) ==> r@.capacity == if n == 0 {
                1
            } else {
                n
            }),
            capacity_var matches Some(text) ==> (unsigned_value(text@, usize::MAX as nat) is None
                ==> r@.capacity == DEFAULT_CAPACITY),
            capacity_var is None ==> r@.capacity == DEFAULT_CAPACITY,
            log_every_var matches Some(text) ==> (unsigned_value(
                text@,
                u64::MAX as nat,
            ) matches Some(n) ==> r@.log_every == if n == 0 {
                1
            } else {
                n
            }),
            log_every_var matches Some(text) ==> (unsigned_value(text@, u64::MAX as nat) is None
                ==> r@.log_every == DEFAULT_LOG_EVERY),
            log_every_var is None ==> r@.log_every == DEFAULT_LOG_EVERY,
    {
        Self::with_capacity(capacity_per_priority(capacity_var), eviction_log_every(log_every_var))
    }

    /// Empty queues for `capacity` messages each, of which one eviction in
    /// `log_every` is logged.
    pub fn with_capacity(capacity: usize, log_every: u64) -> (r: Self)
        requires
            log_every > 0,
        ensures
            r.wf(),
            r@ == (LinkTxState::<M> {
                queues: Seq::new(Priority::NUM as nat, |i: int| Seq::empty()),
                capacity: capacity as nat,
                closed: false,
                evicted_count: 0,
                log_every,
            }),
    {
        let mut queues: Vec<VecDeque<M>> = Vec::new();
        while queues.len() < Priority::NUM
            invariant
                queues@.len() <= Priority::NUM,
                forall|i: int|
                    0 <= i < queues@.len() ==> (#[trigger] queues@[i])@ == Seq::<M>::empty(),
            decreases Priority::NUM - queues@.len(),
        {
            queues.push(VecDeque::new());
        }
        let r = LinkTxQueues { queues, closed: false, capacity, evicted_count: 0, log_every };
        assert(r@.queues =~= Seq::new(Priority::NUM as nat, |i: int| Seq::empty()));
        r
    }

    /// Enqueues `msg` at the given priority. Never has to wait.
    ///
    /// If the queue of that priority is full, its oldest message is evicted and
    /// returned, so that the caller can account for the drop. Once the queues are
    /// closed, `msg` itself is returned.
    pub fn push_drop_oldest(&mut self, priority: Priority, msg: M) -> (r: Pushed<M>)
        requires
            old(self).wf(),
        ensures
            final(self).wf(),
            r == old(self)@.push_result(priority, msg),
            final(self)@ == old(self)@.after_push(priority, msg),
            old(self)@.closed ==> {
                &&& r == (Pushed { queued: false, evicted: Some(msg), log: None })
                &&& final(self)@ == old(self)@
            },
            !old(self)@.closed ==> r.queued && !final(self)@.closed && final(self)@.capacity == old(
                self,
            )@.capacity && final(self)@.log_every == old(self)@.log_every,
            forall|i: int|
                0 <= i < Priority::NUM && i != priority.rank()
                    ==> #[trigger] final(self)@.queues[i] == old(self)@.queues[i],
            !old(self)@.closed ==> ({
                let was = old(self)@.queues[priority.rank()];
                let now = final(self)@.queues[priority.rank()];
                if was.len() < old(self)@.capacity || was.len() == 0 {
                    &&& r.evicted is None
                    &&& r.log is None
                    &&& now == was.push(msg)
                    &&& final(self)@.evicted_count == old(self)@.evicted_count
                } else {
                    &&& r.evicted == Some(was[0])
                    &&& now == was.drop_first().push(msg)
                    &&& final(self)@.evicted_count == if old(self)@.evicted_count < u64::MAX {
                        old(self)@.evicted_count + 1
                    } else {
                        0
                    }
                    &&& r.log is Some <==> old(self)@.evicted_count % old(self)@.log_every == 0
                    &&& r.log matches Some(total) ==> total == final(self)@.evicted_count
                }
            }),
    {
        proof {
            law_push_keeps_bound(self@, priority, msg);
        }
        if self.closed {
            return Pushed { queued: false, evicted: Some(msg), log: None };
        }
        let idx: usize = priority.index();
        let evicted = if self.queues[idx].len() >= self.capacity {
            self.queues[idx].pop_front()
        } else {
            None
        };
        self.queues[idx].push_back(msg);
        let mut log: Option<u64> = None;
        if evicted.is_some() {
            let before: u64 = self.evicted_count;
            self.evicted_count = before.wrapping_add(1);
            if before % self.log_every == 0 {
                log = Some(self.evicted_count);
            }
        }
        assert(self@ =~= old(self)@.after_push(priority, msg));
        Pushed { queued: true, evicted, log }
    }

    /// Takes the most urgent message, or tells whether to wait for one.
    pub fn pop(&mut self) -> (r: Popped<M>)
        requires
            old(self).wf(),
        ensures
            final(self).wf(),
            r == old(self)@.pop_result(),
            final(self)@ == old(self)@.after_pop(),
            r is Ready ==> is_first_nonempty(
                old(self)@.queues,
                0,
                first_nonempty(old(self)@.queues, 0),
            ),
            !(r is Ready) ==> {
                &&& final(self)@ == old(self)@
                &&& r is Closed <==> old(self)@.closed
                &&& forall|j: int|
                    0 <= j < Priority::NUM ==> (#[trigger] old(self)@.queues[j]).len() == 0
            },
            r matches Popped::Ready(m) ==> exists|i: int|
                {
                    &&& 0 <= i < Priority::NUM
                    &&& (#[trigger] old(self)@.queues[i]).len() > 0
                    &&& forall|j: int| 0 <= j < i ==> (#[trigger] old(self)@.queues[j]).len() == 0
                    &&& m == old(self)@.queues[i][0]
                    &&& final(self)@ == (LinkTxState::<M> {
                        queues: old(self)@.queues.update(i, old(self)@.queues[i].drop_first()),
                        ..old(self)@
                    })
                },
    {
        proof {
            law_pop_takes_most_urgent(self@);
        }
        let mut i: usize = 0;
        while i < self.queues.len()
            invariant
                self@ == old(self)@,
                self.wf(),
                self.queues@.len() == Priority::NUM,
                i <= Priority::NUM,
                old(self)@.after_pop().valid(),
                forall|j: int| 0 <= j < i ==> (#[trigger] self@.queues[j]).len() == 0,
            decreases Priority::NUM - i,
        {
            assert(self@.queues[i as int] == self.queues@[i as int]@);
            if let Some(msg) = self.queues[i].pop_front() {
                proof {
                    assert(is_first_nonempty(old(self)@.queues, 0, i as int));
                    lemma_first_nonempty_is(old(self)@.queues, 0, i as int);
                    assert(self@ =~= old(self)@.after_pop());
                }
                return Popped::Ready(msg);
            }
            assert(self@ =~= old(self)@);
            i += 1;
        }
        if self.closed {
            Popped::Closed
        } else {
            Popped::Wait
        }
    }

    /// Closes the queues: what is queued can still be taken, nothing is added.
    pub fn close(&mut self)
        requires
            old(self).wf(),
        ensures
            final(self).wf(),
            final(self)@ == old(self)@.after_close(),
            final(self)@ == (LinkTxState::<M> { closed: true, ..old(self)@ }),
    {
        self.closed = true;
    }
}

} // verus!
