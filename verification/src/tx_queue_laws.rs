//! What holds of the staging queues over any history of enqueues, pops and
//! shutdowns.
use vstd::prelude::*;

use crate::message::{law_rank_identifies_priority, Message, Priority};
use crate::tx_queue::{
    is_oldest_evictable, law_enqueue_keeps_bound, law_pop_keeps_bound,
    lemma_oldest_evictable_exists, lemma_oldest_evictable_is, offer_outcome, offer_queue,
    oldest_evictable, saturated, Enqueue, TxQueueState,
};

verus! {

/// One operation on the staging queues.
pub enum TxOp<B> {
    Enqueue(Message<B>),
    Pop(Priority),
    Disable,
}

/// The state after one operation.
pub open spec fn step<B>(s: TxQueueState<B>, op: TxOp<B>) -> TxQueueState<B> {
    match op {
        TxOp::Enqueue(m) => s.after_enqueue(m),
        TxOp::Pop(p) => s.after_pop(p.rank()),
        TxOp::Disable => s.after_disable(),
    }
}

/// The state after a history of operations.
pub open spec fn after<B>(s: TxQueueState<B>, ops: Seq<TxOp<B>>) -> TxQueueState<B>
    decreases ops.len(),
{
    if ops.len() == 0 {
        s
    } else {
        step(after(s, ops.drop_last()), ops.last())
    }
}

/// The messages of priority `p` that were enqueued over a history and did not
/// have to wait, in order.
pub open spec fn taken<B>(s: TxQueueState<B>, ops: Seq<TxOp<B>>, p: Priority) -> Seq<Message<B>>
    decreases ops.len(),
{
    if ops.len() == 0 {
        Seq::empty()
    } else {
        let before = taken(s, ops.drop_last(), p);
        match ops.last() {
            TxOp::Enqueue(m) => if m.priority == p && !(after(
                s,
                ops.drop_last(),
            ).enqueue_outcome(m) is Wait) {
                before.push(m)
            } else {
                before
            },
            TxOp::Pop(_) | TxOp::Disable => before,
        }
    }
}

/// The messages of priority `p` that were queued over a history, in order.
pub open spec fn queued<B>(s: TxQueueState<B>, ops: Seq<TxOp<B>>, p: Priority) -> Seq<Message<B>>
    decreases ops.len(),
{
    if ops.len() == 0 {
        Seq::empty()
    } else {
        let before = queued(s, ops.drop_last(), p);
        match ops.last() {
            TxOp::Enqueue(m) => if m.priority == p && after(s, ops.drop_last()).enqueue_outcome(
                m,
            ) is Queued {
                before.push(m)
            } else {
                before
            },
            TxOp::Pop(_) | TxOp::Disable => before,
        }
    }
}

/// The messages of priority `p` that were popped over a history, in order.
pub open spec fn popped<B>(s: TxQueueState<B>, ops: Seq<TxOp<B>>, p: Priority) -> Seq<Message<B>>
    decreases ops.len(),
{
    if ops.len() == 0 {
        Seq::empty()
    } else {
        let before = popped(s, ops.drop_last(), p);
        match ops.last() {
            TxOp::Enqueue(_) | TxOp::Disable => before,
            TxOp::Pop(q) => match after(s, ops.drop_last()).pop_result(q.rank()) {
                Some(m) if q == p => before.push(m),
                _ => before,
            },
        }
    }
}

/// The reliable `Block` messages of a sequence, in order.
pub open spec fn blocking<B>(q: Seq<Message<B>>) -> Seq<Message<B>> {
    q.filter(|m: Message<B>| m.blocks())
}

/// `a` is what is left of `b` when some of its elements are taken out.
#[verifier::opaque]
pub open spec fn is_subsequence<T>(a: Seq<T>, b: Seq<T>) -> bool
    decreases b.len(),
{
    if a.len() == 0 {
        true
    } else if b.len() == 0 {
        false
    } else {
        ||| a.last() == b.last() && is_subsequence(a.drop_last(), b.drop_last())
        ||| is_subsequence(a, b.drop_last())
    }
}

/// Every queue stays within its bound over any history, and a link that has begun
/// to shut down stays so.
pub proof fn law_bound_holds<B>(s: TxQueueState<B>, ops: Seq<TxOp<B>>)
    requires
        s.valid(),
    ensures
        after(s, ops).valid(),
        after(s, ops).capacity == s.capacity,
        s.disabled ==> after(s, ops).disabled,
    decreases ops.len(),
{
    if ops.len() > 0 {
        law_bound_holds(s, ops.drop_last());
        let t = after(s, ops.drop_last());
        match ops.last() {
            TxOp::Enqueue(m) => law_enqueue_keeps_bound(t, m),
            TxOp::Pop(p) => law_pop_keeps_bound(t, p.rank()),
            TxOp::Disable => {},
        }
    }
}

/// With room left, a message goes to the end of the queue of its priority, nothing
/// is discarded for it, and the worker is woken.
pub proof fn law_room_takes_any_message<B>(s: TxQueueState<B>, msg: Message<B>)
    requires
        s.valid(),
        s.queues[msg.priority.rank()].len() < s.capacity,
    ensures
        s.enqueue_outcome(msg) == (Enqueue::Queued::<B> { evicted: None }),
        s.after_enqueue(msg) == (TxQueueState {
            queues: s.queues.update(
                msg.priority.rank(),
                s.queues[msg.priority.rank()].push(msg),
            ),
            notified: true,
            ..s
        }),
{
}

/// Overflow discards the oldest message that may be discarded, whatever the message
/// that comes: in a full queue in which all messages before position `i` are reliable
/// `Block` messages and the one at `i` is not, that one leaves, all others keep their
/// order, the new message goes to the end, and the worker is woken.
pub proof fn law_overflow_evicts_oldest<B>(s: TxQueueState<B>, msg: Message<B>, i: int)
    requires
        s.valid(),
        s.queues[msg.priority.rank()].len() == s.capacity,
        0 <= i < s.queues[msg.priority.rank()].len(),
        !s.queues[msg.priority.rank()][i].blocks(),
        forall|j: int| 0 <= j < i ==> (#[trigger] s.queues[msg.priority.rank()][j]).blocks(),
    ensures
        s.enqueue_outcome(msg) == (Enqueue::Queued::<B> {
            evicted: Some(s.queues[msg.priority.rank()][i]),
        }),
        s.after_enqueue(msg) == (TxQueueState {
            queues: s.queues.update(
                msg.priority.rank(),
                s.queues[msg.priority.rank()].remove(i).push(msg),
            ),
            notified: true,
            ..s
        }),
{
    let q = s.queues[msg.priority.rank()];
    assert(is_oldest_evictable(q, i));
    lemma_oldest_evictable_is(q, i);
}

/// The same holds of a single queue, also of one that holds more than `capacity`.
pub proof fn law_full_queue_evicts_oldest<B>(
    queue: Seq<Message<B>>,
    msg: Message<B>,
    capacity: nat,
    disabled: bool,
    i: int,
)
    requires
        queue.len() >= capacity,
        0 <= i < queue.len(),
        !queue[i].blocks(),
        forall|j: int| 0 <= j < i ==> (#[trigger] queue[j]).blocks(),
    ensures
        offer_outcome(queue, msg, capacity, disabled) == (Enqueue::Queued::<B> {
            evicted: Some(queue[i]),
        }),
        offer_queue(queue, msg, capacity) == queue.remove(i).push(msg),
{
    assert(is_oldest_evictable(queue, i));
    lemma_oldest_evictable_is(queue, i);
}

/// A full queue of reliable `Block` messages stays as it is, and the worker is not
/// woken: a message of another kind is handed back as dropped, a reliable `Block`
/// message is handed back to wait, or as dropped once the link shuts down.
pub proof fn law_saturated_queue_is_left_alone<B>(s: TxQueueState<B>, msg: Message<B>)
    requires
        s.valid(),
        s.queues[msg.priority.rank()].len() == s.capacity,
        forall|j: int|
            0 <= j < s.capacity ==> (#[trigger] s.queues[msg.priority.rank()][j]).blocks(),
    ensures
        s.after_enqueue(msg) == s,
        msg.blocks() && !s.disabled ==> s.enqueue_outcome(msg) == Enqueue::Wait(msg),
        !msg.blocks() || s.disabled ==> s.enqueue_outcome(msg) == Enqueue::Dropped(msg),
{
    let q = s.queues[msg.priority.rank()];
    assert(saturated(q));
    assert(s.queues.update(msg.priority.rank(), q) =~= s.queues);
}

/// A pop takes the oldest message of its priority out, and changes nothing else; an
/// empty queue gives nothing.
pub proof fn law_pop_takes_oldest<B>(s: TxQueueState<B>, p: Priority)
    requires
        s.valid(),
    ensures
        s.queues[p.rank()].len() == 0 ==> s.pop_result(p.rank()) is None && s.after_pop(p.rank())
            == s,
        s.queues[p.rank()].len() > 0 ==> {
            &&& s.pop_result(p.rank()) == Some(s.queues[p.rank()][0])
            &&& s.after_pop(p.rank()) == (TxQueueState {
                queues: s.queues.update(p.rank(), s.queues[p.rank()].drop_first()),
                ..s
            })
        },
{
}

/// Shutting down leaves all messages where they are, in any state, wakes the worker,
/// and from then on no message has to wait.
pub proof fn law_shutdown_frees_senders<B>(s: TxQueueState<B>, msg: Message<B>)
    ensures
        s.after_disable().disabled,
        s.after_disable().notified,
        s.after_disable().queues == s.queues,
        s.after_disable().capacity == s.capacity,
        !(s.after_disable().enqueue_outcome(msg) is Wait),
{
}

/// What is enqueued at a priority of empty queues comes out of it, unchanged.
pub proof fn law_pop_gives_what_was_enqueued<B>(s: TxQueueState<B>, msg: Message<B>)
    requires
        s.valid(),
        s.queues[msg.priority.rank()].len() == 0,
    ensures
        s.after_enqueue(msg).pop_result(msg.priority.rank()) == Some(msg),
        s.after_enqueue(msg).after_pop(msg.priority.rank()).queues == s.queues,
{
    let p = msg.priority.rank();
    assert(s.queues[p].push(msg).drop_first() =~= s.queues[p]);
    assert(s.after_enqueue(msg).after_pop(p).queues =~= s.queues);
}

/// Only a reliable `Block` message ever has to wait, and only in a full queue
/// that holds nothing but such messages, on a link that is not shutting down.
pub proof fn law_who_waits<B>(s: TxQueueState<B>, msg: Message<B>)
    requires
        s.valid(),
    ensures
        s.enqueue_outcome(msg) is Wait <==> {
            &&& msg.blocks()
            &&& !s.disabled
            &&& s.queues[msg.priority.rank()].len() == s.capacity
            &&& saturated(s.queues[msg.priority.rank()])
        },
{
    assert(s.queues[msg.priority.rank()].len() <= s.capacity);
}

/// On a link that is not shutting down, a message that an enqueue discards,
/// queued before or just offered, is never a reliable `Block` message.
pub proof fn law_discards_only_evictable<B>(s: TxQueueState<B>, msg: Message<B>)
    requires
        s.valid(),
        !s.disabled,
    ensures
        match s.enqueue_outcome(msg) {
            Enqueue::Queued { evicted: Some(m) } => !m.blocks(),
            Enqueue::Queued { evicted: None } => true,
            Enqueue::Dropped(m) => !m.blocks(),
            Enqueue::Wait(_) => true,
        },
{
    let q = s.queues[msg.priority.rank()];
    if !saturated(q) {
        lemma_oldest_evictable_exists(q);
    }
}

/// A pop that takes a message makes room: whatever is then enqueued at that
/// priority is queued, and nothing is discarded for it.
pub proof fn law_freed_slot_admits<B>(s: TxQueueState<B>, p: Priority, msg: Message<B>)
    requires
        s.valid(),
        s.pop_result(p.rank()) is Some,
        msg.priority == p,
    ensures
        s.after_pop(p.rank()).enqueue_outcome(msg) == (Enqueue::Queued::<B> { evicted: None }),
{
    assert(s.queues[p.rank()].len() <= s.capacity);
}

/// An operation at one priority leaves the queues of the others as they are, and
/// a shutdown leaves all of them so.
pub proof fn law_priorities_are_isolated<B>(s: TxQueueState<B>, op: TxOp<B>, other: Priority)
    requires
        s.valid(),
        match op {
            TxOp::Enqueue(m) => m.priority != other,
            TxOp::Pop(p) => p != other,
            TxOp::Disable => true,
        },
    ensures
        step(s, op).queues[other.rank()] == s.queues[other.rank()],
{
    match op {
        TxOp::Enqueue(m) => if m.priority.rank() == other.rank() {
            law_rank_identifies_priority(m.priority, other);
        },
        TxOp::Pop(p) => if p.rank() == other.rank() {
            law_rank_identifies_priority(p, other);
        },
        TxOp::Disable => {},
    }
}

/// Taking out a message that may be evicted leaves the reliable `Block`
/// messages as they are.
proof fn lemma_blocking_remove<B>(q: Seq<Message<B>>, i: int)
    requires
        0 <= i < q.len(),
        !q[i].blocks(),
    ensures
        blocking(q.remove(i)) == blocking(q),
{
    let pred = |m: Message<B>| m.blocks();
    let front = q.take(i);
    let back = q.skip(i + 1);
    assert(q =~= front.push(q[i]) + back);
    assert(q.remove(i) =~= front + back);
    Seq::filter_distributes_over_add(front.push(q[i]), back, pred);
    Seq::filter_distributes_over_add(front, back, pred);
    lemma_blocking_push(front, q[i]);
}

/// Appending a message appends it to the reliable `Block` messages if it is one.
proof fn lemma_blocking_push<B>(q: Seq<Message<B>>, m: Message<B>)
    ensures
        blocking(q.push(m)) == if m.blocks() {
            blocking(q).push(m)
        } else {
            blocking(q)
        },
{
    reveal(Seq::filter);
    assert(q.push(m).drop_last() =~= q);
}

/// The reliable `Block` messages of a queue start with its front if that is one.
proof fn lemma_blocking_front<B>(q: Seq<Message<B>>)
    requires
        q.len() > 0,
    ensures
        blocking(q) == blocking(seq![q[0]]) + blocking(q.drop_first()),
{
    assert(q =~= seq![q[0]] + q.drop_first());
    Seq::filter_distributes_over_add(
        seq![q[0]],
        q.drop_first(),
        |m: Message<B>| m.blocks(),
    );
}

/// A reliable `Block` message that is queued is never lost, whatever else is
/// enqueued and whether or not the link shuts down: over any history those popped
/// so far, followed by those still queued, are exactly those queued at the start
/// followed by those queued since, in order.
pub proof fn law_queued_block_messages_survive<B>(
    s: TxQueueState<B>,
    ops: Seq<TxOp<B>>,
    p: Priority,
)
    requires
        s.valid(),
    ensures
        blocking(popped(s, ops, p)) + blocking(after(s, ops).queues[p.rank()]) == blocking(
            s.queues[p.rank()],
        ) + blocking(queued(s, ops, p)),
    decreases ops.len(),
{
    let i = p.rank();
    let start = blocking(s.queues[i]);
    if ops.len() == 0 {
        reveal(Seq::filter);
        assert(blocking(popped(s, ops, p)) =~= Seq::empty());
        assert(blocking(queued(s, ops, p)) =~= Seq::empty());
        assert(Seq::<Message<B>>::empty() + start =~= start + Seq::<Message<B>>::empty());
    } else {
        let before = ops.drop_last();
        law_queued_block_messages_survive(s, before, p);
        law_bound_holds(s, before);
        let t = after(s, before);
        let out = popped(s, before, p);
        let inn = queued(s, before, p);
        match ops.last() {
            TxOp::Disable => {},
            TxOp::Enqueue(m) => {
                if m.priority == p {
                    let q = t.queues[i];
                    if q.len() < t.capacity {
                        lemma_blocking_push(q, m);
                    } else if !saturated(q) {
                        lemma_oldest_evictable_exists(q);
                        let k = oldest_evictable(q);
                        lemma_blocking_remove(q, k);
                        lemma_blocking_push(q.remove(k), m);
                    }
                    lemma_blocking_push(inn, m);
                    assert(blocking(out) + blocking(q).push(m) =~= (blocking(out) + blocking(
                        q,
                    )).push(m));
                    assert(start + blocking(inn).push(m) =~= (start + blocking(inn)).push(m));
                } else {
                    law_priorities_are_isolated(t, ops.last(), p);
                }
            },
            TxOp::Pop(r) => {
                if r == p {
                    let q = t.queues[i];
                    if q.len() > 0 {
                        lemma_blocking_front(q);
                        lemma_blocking_push(out, q[0]);
                        lemma_blocking_push(Seq::empty(), q[0]);
                        assert(Seq::empty().push(q[0]) =~= seq![q[0]]);
                        assert(blocking(Seq::<Message<B>>::empty()) =~= Seq::empty()) by {
                            reveal(Seq::filter);
                        }
                        assert(blocking(out.push(q[0])) + blocking(q.drop_first()) =~= blocking(
                            out,
                        ) + blocking(q));
                    }
                } else {
                    law_priorities_are_isolated(t, ops.last(), p);
                }
            },
        }
    }
}

/// Reliable `Block` messages are never lost: over any history on a link that does
/// not shut down, those popped so far, followed by those still queued, are exactly
/// those queued at the start followed by those enqueued since, in order.
pub proof fn law_block_messages_survive<B>(s: TxQueueState<B>, ops: Seq<TxOp<B>>, p: Priority)
    requires
        s.valid(),
        !after(s, ops).disabled,
    ensures
        blocking(popped(s, ops, p)) + blocking(after(s, ops).queues[p.rank()]) == blocking(
            s.queues[p.rank()],
        ) + blocking(taken(s, ops, p)),
{
    law_queued_block_messages_survive(s, ops, p);
    lemma_enabled_takes_are_queued(s, ops, p);
}

/// On a link that does not shut down, the reliable `Block` messages that need not
/// wait are queued.
proof fn lemma_enabled_takes_are_queued<B>(s: TxQueueState<B>, ops: Seq<TxOp<B>>, p: Priority)
    requires
        s.valid(),
        !after(s, ops).disabled,
    ensures
        blocking(taken(s, ops, p)) == blocking(queued(s, ops, p)),
    decreases ops.len(),
{
    if ops.len() > 0 {
        let before = ops.drop_last();
        law_bound_holds(s, before);
        lemma_enabled_takes_are_queued(s, before, p);
        if let TxOp::Enqueue(m) = ops.last() {
            lemma_blocking_push(taken(s, before, p), m);
            lemma_blocking_push(queued(s, before, p), m);
        }
    }
}

proof fn lemma_subsequence_self<T>(a: Seq<T>)
    ensures
        is_subsequence(a, a),
    decreases a.len(),
{
    reveal(is_subsequence);
    if a.len() > 0 {
        lemma_subsequence_self(a.drop_last());
    }
}

proof fn lemma_subsequence_push<T>(a: Seq<T>, b: Seq<T>, x: T)
    requires
        is_subsequence(a, b),
    ensures
        is_subsequence(a.push(x), b.push(x)),
        is_subsequence(a, b.push(x)),
{
    reveal(is_subsequence);
    assert(a.push(x).drop_last() =~= a);
    assert(b.push(x).drop_last() =~= b);
}

proof fn lemma_subsequence_remove<T>(a: Seq<T>, b: Seq<T>, k: int)
    requires
        is_subsequence(a, b),
        0 <= k < a.len(),
    ensures
        is_subsequence(a.remove(k), b),
    decreases b.len(),
{
    reveal(is_subsequence);
    if a.last() == b.last() && is_subsequence(a.drop_last(), b.drop_last()) {
        if k == a.len() - 1 {
            assert(a.remove(k) =~= a.drop_last());
            assert(b =~= b.drop_last().push(b.last()));
            lemma_subsequence_push(a.drop_last(), b.drop_last(), b.last());
        } else {
            lemma_subsequence_remove(a.drop_last(), b.drop_last(), k);
            assert(a.remove(k).drop_last() =~= a.drop_last().remove(k));
            assert(a.remove(k).last() == a.last());
        }
    } else {
        lemma_subsequence_remove(a, b.drop_last(), k);
        assert(b =~= b.drop_last().push(b.last()));
        lemma_subsequence_push(a.remove(k), b.drop_last(), b.last());
    }
}

/// First in, first out: over any history the messages popped at a priority,
/// followed by those still queued there, are what is left of those queued at the
/// start and enqueued since, in the order in which they came.
pub proof fn law_order_is_kept<B>(s: TxQueueState<B>, ops: Seq<TxOp<B>>, p: Priority)
    requires
        s.valid(),
    ensures
        is_subsequence(
            popped(s, ops, p) + after(s, ops).queues[p.rank()],
            s.queues[p.rank()] + taken(s, ops, p),
        ),
    decreases ops.len(),
{
    let i = p.rank();
    let start = s.queues[i];
    if ops.len() == 0 {
        assert(popped(s, ops, p) + start =~= start);
        assert(start + taken(s, ops, p) =~= start);
        lemma_subsequence_self(start);
    } else {
        let before = ops.drop_last();
        law_order_is_kept(s, before, p);
        law_bound_holds(s, before);
        let t = after(s, before);
        let out = popped(s, before, p);
        let inn = taken(s, before, p);
        let q = t.queues[i];
        match ops.last() {
            TxOp::Disable => {},
            TxOp::Enqueue(m) => {
                if m.priority == p {
                    lemma_subsequence_push(out + q, start + inn, m);
                    assert((start + inn).push(m) =~= start + inn.push(m));
                    assert((out + q).push(m) =~= out + q.push(m));
                    if q.len() >= t.capacity && !saturated(q) {
                        lemma_oldest_evictable_exists(q);
                        let k = oldest_evictable(q);
                        lemma_subsequence_remove(out + q.push(m), start + inn.push(m), out.len() + k);
                        assert((out + q.push(m)).remove(out.len() + k) =~= out + q.remove(k).push(m));
                    }
                } else {
                    law_priorities_are_isolated(t, ops.last(), p);
                }
            },
            TxOp::Pop(r) => {
                if r == p {
                    if q.len() > 0 {
                        assert(out.push(q[0]) + q.drop_first() =~= out + q);
                    }
                } else {
                    law_priorities_are_isolated(t, ops.last(), p);
                }
            },
        }
    }
}

} // verus!
