//! The messages waiting in a row of queues, taken in strict priority order.
use vstd::prelude::*;

verus! {

/// The first queue at or after `from` that holds something is queue `i`.
pub open spec fn is_first_nonempty<M>(queues: Seq<Seq<M>>, from: int, i: int) -> bool {
    &&& from <= i < queues.len()
    &&& queues[i].len() > 0
    &&& forall|j: int| from <= j < i ==> (#[trigger] queues[j]).len() == 0
}

/// The first queue at or after `from` that holds something, if there is one.
pub open spec fn first_nonempty<M>(queues: Seq<Seq<M>>, from: int) -> int {
    choose|i: int| is_first_nonempty(queues, from, i)
}

/// All queues from `from` on are empty.
pub open spec fn all_empty<M>(queues: Seq<Seq<M>>, from: int) -> bool {
    forall|j: int| from <= j < queues.len() ==> (#[trigger] queues[j]).len() == 0
}

/// The messages of the queues from `from` on: all of one queue, oldest first,
/// before any of the next.
pub open spec fn backlog<M>(queues: Seq<Seq<M>>, from: int) -> Seq<M> {
    queues.skip(from).flatten()
}

/// The queues after the oldest message of queue `i` has been taken.
pub open spec fn take_front<M>(queues: Seq<Seq<M>>, i: int) -> Seq<Seq<M>> {
    queues.update(i, queues[i].drop_first())
}

/// There is only one first non-empty queue.
pub proof fn lemma_first_nonempty_is<M>(queues: Seq<Seq<M>>, from: int, i: int)
    requires
        is_first_nonempty(queues, from, i),
    ensures
        first_nonempty(queues, from) == i,
        !all_empty(queues, from),
{
    let k = first_nonempty(queues, from);
    assert(is_first_nonempty(queues, from, k));
    if i < k {
        assert(queues[i].len() == 0);
    }
    if k < i {
        assert(queues[k].len() == 0);
    }
}

/// Either all queues are empty, or there is a first one that is not.
pub proof fn lemma_first_nonempty_exists<M>(queues: Seq<Seq<M>>, from: int)
    requires
        0 <= from <= queues.len(),
        !all_empty(queues, from),
    ensures
        is_first_nonempty(queues, from, first_nonempty(queues, from)),
    decreases queues.len() - from,
{
    if queues[from].len() > 0 {
        assert(is_first_nonempty(queues, from, from));
    } else {
        lemma_first_nonempty_exists(queues, from + 1);
        let i = first_nonempty(queues, from + 1);
        assert(is_first_nonempty(queues, from, i));
    }
}

/// The backlog is that of the first queue followed by that of the rest.
pub proof fn lemma_backlog_unfold<M>(queues: Seq<Seq<M>>, from: int)
    requires
        0 <= from < queues.len(),
    ensures
        backlog(queues, from) == queues[from] + backlog(queues, from + 1),
{
    assert(queues.skip(from).drop_first() =~= queues.skip(from + 1));
}

/// Empty queues add nothing to the backlog.
pub proof fn lemma_backlog_skip_empty<M>(queues: Seq<Seq<M>>, from: int, to: int)
    requires
        0 <= from <= to <= queues.len(),
        forall|j: int| from <= j < to ==> (#[trigger] queues[j]).len() == 0,
    ensures
        backlog(queues, from) == backlog(queues, to),
    decreases to - from,
{
    if from < to {
        lemma_backlog_unfold(queues, from);
        lemma_backlog_skip_empty(queues, from + 1, to);
        assert(queues[from].len() == 0);
        assert(queues[from] + backlog(queues, from + 1) =~= backlog(queues, from + 1));
    }
}

/// There is a backlog unless all queues are empty.
pub proof fn lemma_backlog_empty<M>(queues: Seq<Seq<M>>, from: int)
    requires
        0 <= from <= queues.len(),
    ensures
        backlog(queues, from).len() == 0 <==> all_empty(queues, from),
{
    if all_empty(queues, from) {
        lemma_backlog_skip_empty(queues, from, queues.len() as int);
        assert(queues.skip(queues.len() as int).len() == 0);
    } else {
        lemma_first_nonempty_exists(queues, from);
        let i = first_nonempty(queues, from);
        lemma_backlog_skip_empty(queues, from, i);
        lemma_backlog_unfold(queues, i);
    }
}

/// Taking the front of the first non-empty queue takes the front of the backlog.
pub proof fn lemma_backlog_take<M>(queues: Seq<Seq<M>>, from: int, i: int)
    requires
        0 <= from,
        is_first_nonempty(queues, from, i),
    ensures
        backlog(queues, from) == seq![queues[i][0]] + backlog(take_front(queues, i), i),
        backlog(take_front(queues, i), from) == backlog(take_front(queues, i), i),
{
    let rest = take_front(queues, i);
    lemma_backlog_skip_empty(queues, from, i);
    lemma_backlog_unfold(queues, i);
    assert forall|j: int| from <= j < i implies (#[trigger] rest[j]).len() == 0 by {
        assert(rest[j] == queues[j]);
    }
    lemma_backlog_skip_empty(rest, from, i);
    lemma_backlog_unfold(rest, i);
    assert(rest.skip(i + 1) =~= queues.skip(i + 1));
    assert(queues[i] + backlog(queues, i + 1) =~= seq![queues[i][0]] + (queues[i].drop_first()
        + backlog(queues, i + 1)));
}

} // verus!
