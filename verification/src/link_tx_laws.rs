//! What holds of the egress queues over several pushes, pops and closes.
use vstd::prelude::*;

use crate::backlog::{
    all_empty, first_nonempty, is_first_nonempty, lemma_first_nonempty_exists,
    lemma_first_nonempty_is,
};
use crate::link_tx_queues::{
    evicts, law_pop_takes_most_urgent, law_push_keeps_bound, logs_eviction, LinkTxState, Popped,
    Pushed,
};
use crate::message::{law_rank_identifies_priority, Priority};
use crate::settings::at_least;

verus! {

/// The state after all of `msgs` have been pushed at one priority, in order.
pub open spec fn after_pushes<M>(s: LinkTxState<M>, p: Priority, msgs: Seq<M>) -> LinkTxState<M>
    decreases msgs.len(),
{
    if msgs.len() == 0 {
        s
    } else {
        after_pushes(s, p, msgs.drop_last()).after_push(p, msgs.last())
    }
}

/// The messages that those pushes returned as evicted, in order.
pub open spec fn evicted_by<M>(s: LinkTxState<M>, p: Priority, msgs: Seq<M>) -> Seq<M>
    decreases msgs.len(),
{
    if msgs.len() == 0 {
        Seq::empty()
    } else {
        let before = evicted_by(s, p, msgs.drop_last());
        match after_pushes(s, p, msgs.drop_last()).push_result(p, msgs.last()).evicted {
            Some(m) => before.push(m),
            None => before,
        }
    }
}

/// The state after `n` pops.
pub open spec fn after_pops<M>(s: LinkTxState<M>, n: nat) -> LinkTxState<M>
    decreases n,
{
    if n == 0 {
        s
    } else {
        after_pops(s.after_pop(), (n - 1) as nat)
    }
}

/// One operation on the egress queues.
pub enum LinkTxOp<M> {
    Push(Priority, M),
    Pop,
    Close,
}

/// The state after one operation.
pub open spec fn step<M>(s: LinkTxState<M>, op: LinkTxOp<M>) -> LinkTxState<M> {
    match op {
        LinkTxOp::Push(p, m) => s.after_push(p, m),
        LinkTxOp::Pop => s.after_pop(),
        LinkTxOp::Close => s.after_close(),
    }
}

/// The state after a history of operations.
pub open spec fn after<M>(s: LinkTxState<M>, ops: Seq<LinkTxOp<M>>) -> LinkTxState<M>
    decreases ops.len(),
{
    if ops.len() == 0 {
        s
    } else {
        step(after(s, ops.drop_last()), ops.last())
    }
}

/// The messages pushed at priority `p` over a history and queued there, in order.
pub open spec fn accepted<M>(s: LinkTxState<M>, ops: Seq<LinkTxOp<M>>, p: Priority) -> Seq<M>
    decreases ops.len(),
{
    if ops.len() == 0 {
        Seq::empty()
    } else {
        let before = accepted(s, ops.drop_last(), p);
        match ops.last() {
            LinkTxOp::Push(q, m) => if q == p && after(s, ops.drop_last()).push_result(
                q,
                m,
            ).queued {
                before.push(m)
            } else {
                before
            },
            LinkTxOp::Pop | LinkTxOp::Close => before,
        }
    }
}

/// The messages that left the queue of priority `p` over a history, in order: those
/// that a push evicted, and those that were popped.
pub open spec fn departed<M>(s: LinkTxState<M>, ops: Seq<LinkTxOp<M>>, p: Priority) -> Seq<M>
    decreases ops.len(),
{
    if ops.len() == 0 {
        Seq::empty()
    } else {
        let before = departed(s, ops.drop_last(), p);
        let t = after(s, ops.drop_last());
        match ops.last() {
            LinkTxOp::Push(q, m) => match t.push_result(q, m).evicted {
                Some(e) if q == p && t.push_result(q, m).queued => before.push(e),
                _ => before,
            },
            LinkTxOp::Pop => match t.pop_result() {
                Popped::Ready(m) if first_nonempty(t.queues, 0) == p.rank() => before.push(m),
                _ => before,
            },
            LinkTxOp::Close => before,
        }
    }
}

/// First in, first out, and nothing lost unseen: over any history of pushes at any
/// priority, pops and closes, the messages that left the queue of a priority, evicted
/// or popped, followed by those still queued there, are exactly those queued at the
/// start followed by those accepted since, in order. A push that is refused hands its
/// own message back. Every queue stays within its bound, and closed queues stay
/// closed.
pub proof fn law_every_message_is_accounted_for<M>(
    s: LinkTxState<M>,
    ops: Seq<LinkTxOp<M>>,
    p: Priority,
)
    requires
        s.valid(),
    ensures
        after(s, ops).valid(),
        after(s, ops).capacity == s.capacity,
        s.closed ==> after(s, ops).closed,
        forall|r: Priority, m: M|
            !(#[trigger] after(s, ops).push_result(r, m)).queued ==> after(s, ops).push_result(
                r,
                m,
            ).evicted == Some(m),
        departed(s, ops, p) + after(s, ops).queues[p.rank()] == s.queues[p.rank()] + accepted(
            s,
            ops,
            p,
        ),
    decreases ops.len(),
{
    let i = p.rank();
    let start = s.queues[i];
    if ops.len() == 0 {
        assert(departed(s, ops, p) + start =~= start + accepted(s, ops, p));
    } else {
        let before = ops.drop_last();
        law_every_message_is_accounted_for(s, before, p);
        let t = after(s, before);
        let out = departed(s, before, p);
        let inn = accepted(s, before, p);
        let q = t.queues[i];
        match ops.last() {
            LinkTxOp::Push(r, m) => {
                law_push_keeps_bound(t, r, m);
                if r != p {
                    law_push_is_isolated(t, r, m, p);
                } else if !t.closed {
                    assert(start + inn.push(m) =~= (start + inn).push(m));
                    if evicts(q, t.capacity) {
                        assert(out.push(q[0]) + q.drop_first().push(m) =~= (out + q).push(m));
                    } else {
                        assert(out + q.push(m) =~= (out + q).push(m));
                    }
                }
            },
            LinkTxOp::Pop => {
                law_pop_takes_most_urgent(t);
                if !all_empty(t.queues, 0) {
                    lemma_first_nonempty_exists(t.queues, 0);
                    if first_nonempty(t.queues, 0) == i {
                        assert(out.push(q[0]) + q.drop_first() =~= out + q);
                    }
                }
            },
            LinkTxOp::Close => {},
        }
    }
}

/// Drop-oldest: on open queues, the messages evicted by a series of pushes,
/// followed by those then queued, are exactly those queued before followed by
/// those pushed, in order. So the newest messages are the ones kept, every
/// evicted message is returned, and as many are kept as there is room for.
pub proof fn law_newest_are_kept<M>(s: LinkTxState<M>, p: Priority, msgs: Seq<M>)
    requires
        s.valid(),
        !s.closed,
    ensures
        after_pushes(s, p, msgs).valid(),
        !after_pushes(s, p, msgs).closed,
        after_pushes(s, p, msgs).capacity == s.capacity,
        evicted_by(s, p, msgs) + after_pushes(s, p, msgs).queues[p.rank()] == s.queues[p.rank()]
            + msgs,
        after_pushes(s, p, msgs).queues[p.rank()].len() == if s.queues[p.rank()].len() + msgs.len()
            <= at_least(s.capacity, 1) {
            s.queues[p.rank()].len() + msgs.len()
        } else {
            at_least(s.capacity, 1)
        },
    decreases msgs.len(),
{
    let i = p.rank();
    if msgs.len() == 0 {
        assert(evicted_by(s, p, msgs) + s.queues[i] =~= s.queues[i] + msgs);
        assert(s.queues[i].len() <= at_least(s.capacity, 1));
    } else {
        let before = msgs.drop_last();
        law_newest_are_kept(s, p, before);
        let t = after_pushes(s, p, before);
        let out = evicted_by(s, p, before);
        let q = t.queues[i];
        let m = msgs.last();
        law_push_keeps_bound(t, p, m);
        assert(q.len() <= at_least(t.capacity, 1));
        assert(s.queues[i] + msgs =~= (s.queues[i] + before).push(m));
        if evicts(q, t.capacity) {
            assert(out.push(q[0]) + q.drop_first().push(m) =~= (out + q).push(m));
        } else {
            assert(out + q.push(m) =~= (out + q).push(m));
        }
    }
}

/// With room left in its queue, a pushed message goes to the end of it, and nothing
/// else changes. A queue that is configured to hold nothing has room for one message.
pub proof fn law_push_with_room<M>(s: LinkTxState<M>, p: Priority, msg: M)
    requires
        s.valid(),
        !s.closed,
        s.queues[p.rank()].len() < s.capacity || s.queues[p.rank()].len() == 0,
    ensures
        s.push_result(p, msg) == (Pushed::<M> { queued: true, evicted: None, log: None }),
        s.after_push(p, msg) == (LinkTxState {
            queues: s.queues.update(p.rank(), s.queues[p.rank()].push(msg)),
            ..s
        }),
{
}

/// A push to a full queue never waits: it evicts the oldest message, which is
/// returned, appends the new one, and counts the eviction. Where the evictions before
/// are a multiple of the log interval, the new count is to be logged.
pub proof fn law_push_evicts_oldest<M>(s: LinkTxState<M>, p: Priority, msg: M)
    requires
        s.valid(),
        !s.closed,
        s.queues[p.rank()].len() > 0,
        s.queues[p.rank()].len() >= s.capacity,
    ensures
        s.push_result(p, msg).queued,
        s.push_result(p, msg).evicted == Some(s.queues[p.rank()][0]),
        s.push_result(p, msg).log is Some <==> s.evicted_count % s.log_every == 0,
        s.push_result(p, msg).log matches Some(total) ==> total == s.after_push(
            p,
            msg,
        ).evicted_count,
        s.after_push(p, msg).evicted_count == if s.evicted_count < u64::MAX {
            s.evicted_count + 1
        } else {
            0
        },
        s.after_push(p, msg) == (LinkTxState {
            queues: s.queues.update(p.rank(), s.queues[p.rank()].drop_first().push(msg)),
            evicted_count: s.after_push(p, msg).evicted_count,
            ..s
        }),
{
}

/// Where the queues before queue `i` are empty and that one is not, a pop gives its
/// oldest message and takes just that one out, on open and closed queues alike.
pub proof fn law_pop_is_front_of_first<M>(s: LinkTxState<M>, i: int)
    requires
        s.valid(),
        0 <= i < Priority::NUM,
        s.queues[i].len() > 0,
        forall|j: int| 0 <= j < i ==> (#[trigger] s.queues[j]).len() == 0,
    ensures
        s.pop_result() == Popped::Ready(s.queues[i][0]),
        s.after_pop() == (LinkTxState {
            queues: s.queues.update(i, s.queues[i].drop_first()),
            ..s
        }),
{
    assert(is_first_nonempty(s.queues, 0, i));
    lemma_first_nonempty_is(s.queues, 0, i);
}

/// A pop from empty queues changes nothing, and tells the consumer to wait unless the
/// queues are closed.
pub proof fn law_pop_from_empty<M>(s: LinkTxState<M>)
    requires
        s.valid(),
        forall|j: int| 0 <= j < Priority::NUM ==> (#[trigger] s.queues[j]).len() == 0,
    ensures
        s.pop_result() is Closed <==> s.closed,
        s.pop_result() is Wait <==> !s.closed,
        s.after_pop() == s,
{
}

/// Closing closes, in any state, and leaves what is queued: every later push is
/// refused and hands its message back, and the consumer is told that the queues are
/// closed as soon as nothing is pending.
pub proof fn law_close_closes<M>(s: LinkTxState<M>, p: Priority, msg: M)
    requires
        s.valid(),
    ensures
        s.after_close().closed,
        s.after_close().queues == s.queues,
        s.after_close().capacity == s.capacity,
        s.after_close().evicted_count == s.evicted_count,
        s.after_close().log_every == s.log_every,
        s.after_close().push_result(p, msg) == (Pushed {
            queued: false,
            evicted: Some(msg),
            log: None,
        }),
        s.after_close().after_push(p, msg) == s.after_close(),
        s.after_close().pop_result() is Closed <==> s.pending().len() == 0,
        !(s.after_close().pop_result() is Wait),
{
    law_pop_takes_most_urgent(s.after_close());
}

/// Once closed, the queues stay so over any history, and refuse every push.
pub proof fn law_nothing_reopens<M>(s: LinkTxState<M>, ops: Seq<LinkTxOp<M>>, p: Priority, msg: M)
    requires
        s.valid(),
    ensures
        after(s.after_close(), ops).closed,
        !after(s.after_close(), ops).push_result(p, msg).queued,
        after(s.after_close(), ops).push_result(p, msg).evicted == Some(msg),
        accepted(s.after_close(), ops, p) == Seq::<M>::empty(),
    decreases ops.len(),
{
    law_every_message_is_accounted_for(s.after_close(), ops, p);
    if ops.len() > 0 {
        law_nothing_reopens(s, ops.drop_last(), p, msg);
        if let LinkTxOp::Push(q, m) = ops.last() {
            law_nothing_reopens(s, ops.drop_last(), q, m);
        }
    }
}

/// A push at one priority leaves the queues of the others as they are.
pub proof fn law_push_is_isolated<M>(s: LinkTxState<M>, p: Priority, msg: M, other: Priority)
    requires
        s.valid(),
        p != other,
    ensures
        s.after_push(p, msg).queues[other.rank()] == s.queues[other.rank()],
{
    if p.rank() == other.rank() {
        law_rank_identifies_priority(p, other);
    }
}

/// A push to closed queues changes nothing and hands the message back.
pub proof fn law_closed_refuses<M>(s: LinkTxState<M>, p: Priority, msg: M)
    requires
        s.valid(),
        s.closed,
    ensures
        s.after_push(p, msg) == s,
        !s.push_result(p, msg).queued,
        s.push_result(p, msg).evicted == Some(msg),
        s.push_result(p, msg).log is None,
{
}

/// With no push in between, a series of pops takes the pending messages one by
/// one in strict priority order, oldest first within a priority.
pub proof fn law_pops_follow_priority<M>(s: LinkTxState<M>, n: nat)
    requires
        s.valid(),
        n <= s.pending().len(),
    ensures
        after_pops(s, n).valid(),
        after_pops(s, n).closed == s.closed,
        after_pops(s, n).pending() == s.pending().skip(n as int),
        n < s.pending().len() ==> after_pops(s, n).pop_result() == Popped::Ready(s.pending()[n as int]),
    decreases n,
{
    law_pop_takes_most_urgent(s);
    if n == 0 {
        assert(s.pending().skip(0) =~= s.pending());
    } else {
        let t = s.after_pop();
        let m = s.pop_result()->Ready_0;
        assert(s.pending() == seq![m] + t.pending());
        law_pops_follow_priority(t, (n - 1) as nat);
        assert(s.pending().skip(n as int) =~= t.pending().skip(n - 1));
    }
}

/// Closed queues are drained completely: the consumer is told that they are
/// closed once it has taken every message that was pending, and not before.
pub proof fn law_closed_queues_drain<M>(s: LinkTxState<M>, n: nat)
    requires
        s.valid(),
        s.closed,
        n <= s.pending().len(),
    ensures
        after_pops(s, n).pop_result() is Closed <==> n == s.pending().len(),
{
    law_pops_follow_priority(s, n);
    law_pop_takes_most_urgent(after_pops(s, n));
}

/// Of any `log_every` evictions in a row, exactly one is logged.
pub proof fn law_one_eviction_in_every_is_logged(count: int, log_every: int)
    requires
        count >= 0,
        log_every > 0,
    ensures
        exists|k: int| count <= k < count + log_every && #[trigger] logs_eviction(k, log_every),
        forall|a: int, b: int|
            #![trigger logs_eviction(a, log_every), logs_eviction(b, log_every)]
            count <= a < count + log_every && count <= b < count + log_every && logs_eviction(
                a,
                log_every,
            ) && logs_eviction(b, log_every) ==> a == b,
{
    let r = count % log_every;
    let k = if r == 0 {
        count
    } else {
        count + log_every - r
    };
    assert(logs_eviction(k, log_every) && count <= k < count + log_every) by {
        vstd::arithmetic::div_mod::lemma_fundamental_div_mod(count, log_every);
        let q = count / log_every;
        if r != 0 {
            assert(k == log_every * (q + 1)) by (nonlinear_arith)
                requires
                    count == log_every * q + r,
                    k == count + log_every - r,
            ;
            vstd::arithmetic::div_mod::lemma_mod_multiples_basic(q + 1, log_every);
            assert((q + 1) * log_every == log_every * (q + 1)) by (nonlinear_arith);
        }
        assert(0 <= r < log_every) by (nonlinear_arith)
            requires
                log_every > 0,
                r == count % log_every,
        ;
    }
    assert forall|a: int, b: int|
        #![trigger logs_eviction(a, log_every), logs_eviction(b, log_every)]
        count <= a < count + log_every && count <= b < count + log_every && logs_eviction(
            a,
            log_every,
        ) && logs_eviction(b, log_every) implies a == b by {
        vstd::arithmetic::div_mod::lemma_fundamental_div_mod(a, log_every);
        vstd::arithmetic::div_mod::lemma_fundamental_div_mod(b, log_every);
        let x = a / log_every;
        let y = b / log_every;
        assert(x == y) by (nonlinear_arith)
            requires
                a == log_every * x,
                b == log_every * y,
                log_every > 0,
                -log_every < a - b < log_every,
        ;
    }
}

} // verus!
