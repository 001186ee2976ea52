//! Staging queues between the shared fan-out path and one link's transmission
//! pipeline: one bounded queue per priority.
//!
//! A congested link fills only its own queues. On overflow only evictable
//! messages are discarded; reliable `Block` messages make their sender wait.
use std::collections::VecDeque;

use vstd::prelude::*;

use crate::message::{may_block, Message, Priority};
use crate::settings::{text_of, tx_queue_len, unsigned_value, TxQueueLen, DEFAULT_TX_QUEUE_LEN};

verus! {

/// What became of a message offered to a queue.
#[derive(Debug, PartialEq, Eq)]
pub enum Enqueue<B> {
    /// The message is queued. If room had to be made, `evicted` was discarded.
    Queued { evicted: Option<Message<B>> },
    /// The message was discarded; the queue is as before.
    Dropped(Message<B>),
    /// There is no room: offer the message again once a slot has been freed.
    Wait(Message<B>),
}

/// No message of the queue may be evicted.
pub open spec fn saturated<B>(queue: Seq<Message<B>>) -> bool {
    forall|i: int| 0 <= i < queue.len() ==> (#[trigger] queue[i]).blocks()
}

/// Position `i` holds the oldest message that may be evicted.
pub open spec fn is_oldest_evictable<B>(queue: Seq<Message<B>>, i: int) -> bool {
    &&& 0 <= i < queue.len()
    &&& !queue[i].blocks()
    &&& forall|j: int| 0 <= j < i ==> (#[trigger] queue[j]).blocks()
}

/// The position of the oldest message that may be evicted, in a queue that is
/// not saturated.
pub open spec fn oldest_evictable<B>(queue: Seq<Message<B>>) -> int {
    choose|i: int| is_oldest_evictable(queue, i)
}

/// The outcome of offering `msg` to a queue with room for `capacity` messages,
/// on a link that is shutting down if `disabled`.
pub open spec fn offer_outcome<B>(
    queue: Seq<Message<B>>,
    msg: Message<B>,
    capacity: nat,
    disabled: bool,
) -> Enqueue<B> {
    if queue.len() < capacity {
        Enqueue::Queued { evicted: None }
    } else if !saturated(queue) {
        Enqueue::Queued { evicted: Some(queue[oldest_evictable(queue)]) }
    } else if !msg.blocks() || disabled {
        Enqueue::Dropped(msg)
    } else {
        Enqueue::Wait(msg)
    }
}

/// The queue after `msg` has been offered to it.
pub open spec fn offer_queue<B>(
    queue: Seq<Message<B>>,
    msg: Message<B>,
    capacity: nat,
) -> Seq<Message<B>> {
    if queue.len() < capacity {
        queue.push(msg)
    } else if !saturated(queue) {
        queue.remove(oldest_evictable(queue)).push(msg)
    } else {
        queue
    }
}

/// The oldest evictable message has one position only.
pub proof fn lemma_oldest_evictable_is<B>(queue: Seq<Message<B>>, i: int)
    requires
        is_oldest_evictable(queue, i),
    ensures
        !saturated(queue),
        oldest_evictable(queue) == i,
{
    let k = oldest_evictable(queue);
    assert(is_oldest_evictable(queue, k));
    if i < k {
        assert(queue[i].blocks());
    }
    if k < i {
        assert(queue[k].blocks());
    }
}

/// A queue that is not saturated has an oldest evictable message.
pub proof fn lemma_oldest_evictable_exists<B>(queue: Seq<Message<B>>)
    requires
        !saturated(queue),
    ensures
        is_oldest_evictable(queue, oldest_evictable(queue)),
    decreases queue.len(),
{
    if saturated(queue.drop_last()) {
        let i = queue.len() - 1;
        assert forall|j: int| 0 <= j < i implies (#[trigger] queue[j]).blocks() by {
            assert(queue.drop_last()[j] == queue[j]);
        }
        let w = choose|w: int| 0 <= w < queue.len() && !(#[trigger] queue[w]).blocks();
        assert(w == i);
        assert(is_oldest_evictable(queue, i));
    } else {
        let front = queue.drop_last();
        lemma_oldest_evictable_exists(front);
        let i = oldest_evictable(front);
        assert forall|j: int| 0 <= j < i implies (#[trigger] queue[j]).blocks() by {
            assert(front[j] == queue[j]);
        }
        assert(is_oldest_evictable(queue, i));
    }
}

/// The bounded queue of one priority, oldest message first.
pub struct PriorityQueue<B> {
    queue: VecDeque<Message<B>>,
}

impl<B> View for PriorityQueue<B> {
    type V = Seq<Message<B>>;

    closed spec fn view(&self) -> Seq<Message<B>> {
        self.queue@
    }
}

impl<B> PriorityQueue<B> {
    /// An empty queue.
    pub fn new() -> (q: Self)
        ensures
            q@ == Seq::<Message<B>>::empty(),
    {
        PriorityQueue { queue: VecDeque::new() }
    }

    /// The position of the oldest message that may be evicted, if there is one.
    fn find_evictable(&self) -> (pos: Option<usize>)
        ensures
            pos is None <==> saturated(self@),
            pos matches Some(i) ==> is_oldest_evictable(self@, i as int),
    {
        let mut i: usize = 0;
        while i < self.queue.len()
            invariant
                i <= self@.len(),
                forall|j: int| 0 <= j < i ==> (#[trigger] self@[j]).blocks(),
            decreases self@.len() - i,
        {
            if !may_block(&self.queue[i]) {
                return Some(i);
            }
            i += 1;
        }
        None
    }

    /// Offers `msg` to the queue.
    ///
    /// - With room left, the message is queued.
    /// - In a full queue, the oldest evictable message is discarded to make room.
    /// - In a queue full of reliable `Block` messages, an evictable message is
    ///   discarded, and a reliable `Block` message has to wait, unless the link
    ///   is shutting down: then it is discarded too.
    pub fn offer(&mut self, msg: Message<B>, capacity: usize, disabled: bool) -> (r: Enqueue<B>)
        ensures
            r == offer_outcome(old(self)@, msg, capacity as nat, disabled),
            final(self)@ == offer_queue(old(self)@, msg, capacity as nat),
            old(self)@.len() >= capacity && !saturated(old(self)@) ==> is_oldest_evictable(
                old(self)@,
                oldest_evictable(old(self)@),
            ),
            old(self)@.len() < capacity ==> {
                &&& r == (Enqueue::Queued::<B> { evicted: None })
                &&& final(self)@ == old(self)@.push(msg)
            },
            old(self)@.len() >= capacity && (exists|k: int|
                0 <= k < old(self)@.len() && !(#[trigger] old(self)@[k]).blocks()) ==> (exists|i: int|
                {
                    &&& 0 <= i < old(self)@.len()
                    &&& !(#[trigger] old(self)@[i]).blocks()
                    &&& forall|j: int| 0 <= j < i ==> (#[trigger] old(self)@[j]).blocks()
                    &&& r == (Enqueue::Queued::<B> { evicted: Some(old(self)@[i]) })
                    &&& final(self)@ == old(self)@.remove(i).push(msg)
                }),
            old(self)@.len() >= capacity && (forall|k: int|
                0 <= k < old(self)@.len() ==> (#[trigger] old(self)@[k]).blocks()) ==> {
                &&& final(self)@ == old(self)@
                &&& msg.blocks() && !disabled ==> r == Enqueue::Wait(msg)
                &&& !msg.blocks() || disabled ==> r == Enqueue::Dropped(msg)
            },
    {
        if self.queue.len() < capacity {
            self.queue.push_back(msg);
            return Enqueue::Queued { evicted: None };
        }
        match self.find_evictable() {
            Some(pos) => {
                proof {
                    lemma_oldest_evictable_is(self@, pos as int);
                    assert(!self@[pos as int].blocks());
                }
                let evicted = self.queue.remove(pos);
                self.queue.push_back(msg);
                Enqueue::Queued { evicted }
            },
            None => {
                if !may_block(&msg) || disabled {
                    Enqueue::Dropped(msg)
                } else {
                    Enqueue::Wait(msg)
                }
            },
        }
    }

    /// Takes the oldest message.
    pub fn pop(&mut self) -> (r: Option<Message<B>>)
        ensures
            r is None <==> old(self)@.len() == 0,
            r matches Some(m) ==> m == old(self)@[0] && final(self)@ == old(self)@.drop_first(),
            r is None ==> final(self)@ == old(self)@,
    {
        self.queue.pop_front()
    }
}

/// All messages of the queue have the priority of this rank.
pub open spec fn holds_only<B>(queue: Seq<Message<B>>, rank: int) -> bool {
    forall|k: int| 0 <= k < queue.len() ==> (#[trigger] queue[k]).priority.rank() == rank
}

/// The abstract state of a [`TxQueue`].
#[verifier::ext_equal]
pub struct TxQueueState<B> {
    /// The messages of each priority, oldest first; index 0 is the most urgent.
    pub queues: Seq<Seq<Message<B>>>,
    /// The most messages that each queue may hold.
    pub capacity: nat,
    /// The link is shutting down.
    pub disabled: bool,
    /// A wake-up of the drain worker is pending.
    pub notified: bool,
}

impl<B> TxQueueState<B> {
    /// There is one queue per priority, none holds more than it may, and each
    /// holds messages of its own priority only.
    pub open spec fn valid(self) -> bool {
        &&& self.queues.len() == Priority::NUM
        &&& self.capacity > 0
        &&& forall|i: int|
            0 <= i < Priority::NUM ==> (#[trigger] self.queues[i]).len() <= self.capacity
        &&& forall|i: int|
            0 <= i < Priority::NUM ==> holds_only(#[trigger] self.queues[i], i)
    }

    /// What becomes of `msg` when it is enqueued.
    pub open spec fn enqueue_outcome(self, msg: Message<B>) -> Enqueue<B> {
        offer_outcome(self.queues[msg.priority.rank()], msg, self.capacity, self.disabled)
    }

    /// Room has to be made for `msg`, and can be.
    pub open spec fn evicts_for(self, msg: Message<B>) -> bool {
        let queue = self.queues[msg.priority.rank()];
        queue.len() >= self.capacity && !saturated(queue)
    }

    /// The state after `msg` has been enqueued: only the queue of its priority
    /// changes, and the drain worker is woken if the message was queued.
    pub open spec fn after_enqueue(self, msg: Message<B>) -> TxQueueState<B> {
        let p = msg.priority.rank();
        TxQueueState {
            queues: self.queues.update(p, offer_queue(self.queues[p], msg, self.capacity)),
            notified: self.notified || self.enqueue_outcome(msg) is Queued,
            ..self
        }
    }

    /// The state after the link has begun to shut down: the queues stay as they
    /// are, and the drain worker is woken.
    pub open spec fn after_disable(self) -> TxQueueState<B> {
        TxQueueState { disabled: true, notified: true, ..self }
    }

    /// What a pop at priority `prio` gives.
    pub open spec fn pop_result(self, prio: int) -> Option<Message<B>> {
        if self.queues[prio].len() > 0 {
            Some(self.queues[prio][0])
        } else {
            None
        }
    }

    /// The state after a pop at priority `prio`: only that queue changes.
    pub open spec fn after_pop(self, prio: int) -> TxQueueState<B> {
        if self.queues[prio].len() > 0 {
            TxQueueState {
                queues: self.queues.update(prio, self.queues[prio].drop_first()),
                ..self
            }
        } else {
            self
        }
    }
}

/// Whatever is enqueued, no queue ever holds more than it may, nor a message of
/// another priority.
pub proof fn law_enqueue_keeps_bound<B>(s: TxQueueState<B>, msg: Message<B>)
    requires
        s.valid(),
    ensures
        s.after_enqueue(msg).valid(),
{
    let p = msg.priority.rank();
    let q = s.queues[p];
    let t = s.after_enqueue(msg);
    if q.len() >= s.capacity && !saturated(q) {
        lemma_oldest_evictable_exists(q);
    }
    assert(holds_only(q, p));
    assert forall|i: int| 0 <= i < Priority::NUM implies (#[trigger] t.queues[i]).len()
        <= t.capacity by {
        assert(s.queues[i].len() <= s.capacity);
    }
    assert forall|i: int| 0 <= i < Priority::NUM implies holds_only(#[trigger] t.queues[i], i) by {
        assert(holds_only(s.queues[i], i));
    }
}

/// Whatever is popped, no queue ever holds more than it may, nor a message of
/// another priority.
pub proof fn law_pop_keeps_bound<B>(s: TxQueueState<B>, prio: int)
    requires
        s.valid(),
        0 <= prio < Priority::NUM,
    ensures
        s.after_pop(prio).valid(),
{
    let t = s.after_pop(prio);
    assert forall|i: int| 0 <= i < Priority::NUM implies (#[trigger] t.queues[i]).len()
        <= t.capacity by {
        assert(s.queues[i].len() <= s.capacity);
    }
    assert forall|i: int| 0 <= i < Priority::NUM implies holds_only(#[trigger] t.queues[i], i) by {
        assert(holds_only(s.queues[i], i));
    }
}

/// The staging queues of one link.
pub struct TxQueue<B> {
    queues: Vec<PriorityQueue<B>>,
    capacity: usize,
    disabled: bool,
    notified: bool,
}

impl<B> View for TxQueue<B> {
    type V = TxQueueState<B>;

    closed spec fn view(&self) -> TxQueueState<B> {
        TxQueueState {
            queues: self.queues@.map_values(|q: PriorityQueue<B>| q@),
            capacity: self.capacity as nat,
            disabled: self.disabled,
            notified: self.notified,
        }
    }
}

impl<B> TxQueue<B> {
    /// Every queue exists, is within its bound and holds its own priority only.
    pub open spec fn wf(self) -> bool {
        self@.valid()
    }

    /// Empty queues of the depth that the setting `len_var` asks for (`None` where
    /// it is not set).
    pub fn new(len_var: Option<&str>) -> (r: Self)
        ensures
            r.wf(),
            r@ == (TxQueueState::<B> {
                queues: Seq::new(Priority::NUM as nat, |i: int| Seq::empty()),
                capacity: TxQueueLen::of(text_of(len_var)).depth(),
                disabled: false,
                notified: false,
            }),
            len_var matches Some(text) ==> (unsigned_value(text@, usize::MAX as nat) matches Some(n)
                ==> n > 0 ==> r@.capacity == n),
            len_var matches Some(text) ==> (unsigned_value(text@, usize::MAX as nat) matches Some(n)
                ==> n == 0 ==> r@.capacity == DEFAULT_TX_QUEUE_LEN),
            len_var matches Some(text) ==> (unsigned_value(text@, usize::MAX as nat) is None
                ==> r@.capacity == DEFAULT_TX_QUEUE_LEN),
            len_var is None ==> r@.capacity == DEFAULT_TX_QUEUE_LEN,
    {
        Self::with_capacity(tx_queue_len(len_var))
    }

    /// Empty queues for `capacity` messages each.
    pub fn with_capacity(capacity: usize) -> (r: Self)
        requires
            capacity > 0,
        ensures
            r.wf(),
            r@ == (TxQueueState::<B> {
                queues: Seq::new(Priority::NUM as nat, |i: int| Seq::empty()),
                capacity: capacity as nat,
                disabled: false,
                notified: false,
            }),
    {
        let mut queues: Vec<PriorityQueue<B>> = Vec::new();
        while queues.len() < Priority::NUM
            invariant
                queues@.len() <= Priority::NUM,
                forall|i: int|
                    0 <= i < queues@.len() ==> (#[trigger] queues@[i])@
                        == Seq::<Message<B>>::empty(),
            decreases Priority::NUM - queues@.len(),
        {
            queues.push(PriorityQueue::new());
        }
        let r = TxQueue { queues, capacity, disabled: false, notified: false };
        assert(r@.queues =~= Seq::new(Priority::NUM as nat, |i: int| Seq::empty()));
        r
    }

    /// Enqueues `msg` in the queue of its priority.
    ///
    /// Never discards a reliable `Block` message on a link that is not shutting
    /// down: such a message has to wait for a slot instead.
    pub fn enqueue(&mut self, msg: Message<B>) -> (r: Enqueue<B>)
        requires
            old(self).wf(),
        ensures
            final(self).wf(),
            r == old(self)@.enqueue_outcome(msg),
            final(self)@ == old(self)@.after_enqueue(msg),
            old(self)@.evicts_for(msg) ==> is_oldest_evictable(
                old(self)@.queues[msg.priority.rank()],
                oldest_evictable(old(self)@.queues[msg.priority.rank()]),
            ),
            final(self)@.capacity == old(self)@.capacity,
            final(self)@.disabled == old(self)@.disabled,
            final(self)@.notified == (old(self)@.notified || r is Queued),
            forall|i: int|
                0 <= i < Priority::NUM && i != msg.priority.rank()
                    ==> #[trigger] final(self)@.queues[i] == old(self)@.queues[i],
            ({
                let was = old(self)@.queues[msg.priority.rank()];
                let now = final(self)@.queues[msg.priority.rank()];
                match r {
                    Enqueue::Queued { evicted: None } => {
                        &&& was.len() < old(self)@.capacity
                        &&& now == was.push(msg)
                    },
                    Enqueue::Queued { evicted: Some(m) } => {
                        &&& was.len() == old(self)@.capacity
                        &&& exists|i: int|
                            {
                                &&& 0 <= i < was.len()
                                &&& !(#[trigger] was[i]).blocks()
                                &&& forall|j: int| 0 <= j < i ==> (#[trigger] was[j]).blocks()
                                &&& m == was[i]
                                &&& now == was.remove(i).push(msg)
                            }
                    },
                    Enqueue::Dropped(m) => {
                        &&& was.len() == old(self)@.capacity
                        &&& forall|j: int| 0 <= j < was.len() ==> (#[trigger] was[j]).blocks()
                        &&& !msg.blocks() || old(self)@.disabled
                        &&& m == msg
                        &&& now == was
                    },
                    Enqueue::Wait(m) => {
                        &&& was.len() == old(self)@.capacity
                        &&& forall|j: int| 0 <= j < was.len() ==> (#[trigger] was[j]).blocks()
                        &&& msg.blocks() && !old(self)@.disabled
                        &&& m == msg
                        &&& now == was
                    },
                }
            }),
    {
        proof {
            law_enqueue_keeps_bound(self@, msg);
        }
        let idx: usize = msg.priority.index();
        assert(self@.queues[idx as int].len() <= self@.capacity);
        let capacity: usize = self.capacity;
        let disabled = self.disabled;
        let r = self.queues[idx].offer(msg, capacity, disabled);
        if let Enqueue::Queued { .. } = r {
            self.notified = true;
        }
        assert(self@ =~= old(self)@.after_enqueue(msg));
        r
    }

    /// Takes the oldest message of the given priority. A freed slot lets one
    /// waiting sender go on.
    pub fn pop(&mut self, prio: usize) -> (r: Option<Message<B>>)
        requires
            old(self).wf(),
            prio < Priority::NUM,
        ensures
            final(self).wf(),
            r == old(self)@.pop_result(prio as int),
            final(self)@ == old(self)@.after_pop(prio as int),
            r is None <==> old(self)@.queues[prio as int].len() == 0,
            r is None ==> final(self)@ == old(self)@,
            r matches Some(m) ==> {
                &&& m == old(self)@.queues[prio as int][0]
                &&& final(self)@ == (TxQueueState::<B> {
                    queues: old(self)@.queues.update(
                        prio as int,
                        old(self)@.queues[prio as int].drop_first(),
                    ),
                    ..old(self)@
                })
            },
    {
        proof {
            law_pop_keeps_bound(self@, prio as int);
        }
        let r = self.queues[prio].pop();
        assert(self@ =~= old(self)@.after_pop(prio as int));
        r
    }

    /// Shuts the queues down: nobody has to wait for a slot any longer, and the
    /// drain worker is woken so that it can stop.
    pub fn disable(&mut self)
        requires
            old(self).wf(),
        ensures
            final(self).wf(),
            final(self)@ == old(self)@.after_disable(),
            final(self)@ == (TxQueueState::<B> { disabled: true, notified: true, ..old(self)@ }),
    {
        self.disabled = true;
        self.notified = true;
    }

    /// Whether the link is shutting down.
    pub fn is_disabled(&self) -> (r: bool)
        ensures
            r == self@.disabled,
    {
        self.disabled
    }

    /// Takes the pending wake-up of the drain worker, if there is one.
    pub fn take_notification(&mut self) -> (r: bool)
        requires
            old(self).wf(),
        ensures
            final(self).wf(),
            r == old(self)@.notified,
            final(self)@ == (TxQueueState::<B> { notified: false, ..old(self)@ }),
    {
        let r = self.notified;
        self.notified = false;
        r
    }
}

} // verus!
