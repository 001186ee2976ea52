//! What holds of a write or read loop together with the timer that it shares
//! with the other loops of its link: silence is acted upon only when there was
//! silence.
use vstd::prelude::*;

use crate::read_loop::{ReadAction, ReadEvent, ReadState};
use crate::timeout::{Timer, TimerEvent, WaitIf};
use crate::write_loop::{speaks_for_link, WriteAction, WriteEvent, WriteState};

verus! {

/// A write loop with the keep-alive timer of its link, and when a batch was last
/// sent on the link.
pub struct Writing {
    pub write: WriteState,
    pub timer: Timer,
    pub last_sent: Option<nat>,
}

/// One thing that happens to them, at the given time.
pub enum WritingStep<E> {
    /// An event of the loop. Its actions on the timer are performed at once.
    Own(WriteEvent<E>, nat),
    /// Another loop of the link has sent a batch.
    OtherSent(nat),
    /// The ticker looks.
    Tick(nat),
}

impl Writing {
    /// The timer is paired, up to date and has the loop's period, and it was
    /// restarted no earlier than a batch was last sent.
    pub open spec fn valid(self) -> bool {
        &&& self.write.valid()
        &&& self.timer.paired()
        &&& self.timer.up_to_date()
        &&& self.timer.tracker.timeout == self.write.period
        &&& self.last_sent matches Some(t) ==> t <= self.timer.tracker.latest_reset
    }

    /// What an event of the loop does to the timer: a loop that is told of a
    /// timeout takes it, and a sent batch restarts it.
    pub open spec fn own_timer_event<E>(self, event: WriteEvent<E>, at: nat) -> TimerEvent {
        if self.write.actions(event).contains(WriteAction::ResetKeepAlive) {
            TimerEvent::Restart(at)
        } else {
            TimerEvent::Wait(at, event is KeepAliveElapsed)
        }
    }

    /// What the step does to the timer.
    pub open spec fn timer_event<E>(self, step: WritingStep<E>) -> TimerEvent {
        match step {
            WritingStep::Own(event, at) => self.own_timer_event(event, at),
            WritingStep::OtherSent(at) => TimerEvent::Restart(at),
            WritingStep::Tick(at) => TimerEvent::Tick(at),
        }
    }

    /// The step can happen next; the keep-alive period has elapsed for the loop
    /// only if the tracker tells it so.
    pub open spec fn enabled<E>(self, step: WritingStep<E>) -> bool {
        &&& self.timer.enabled(self.timer_event(step))
        &&& step matches WritingStep::Own(event, _) ==> {
            &&& self.write.accepts(event)
            &&& event is KeepAliveElapsed ==> self.timer.tracker.wait_result(
                speaks_for_link(self.write.write_priority),
            ) == WaitIf::Ready
        }
    }

    /// What the step leads to.
    pub open spec fn after<E>(self, step: WritingStep<E>) -> Writing {
        Writing {
            write: match step {
                WritingStep::Own(event, _) => self.write.after(event),
                _ => self.write,
            },
            timer: self.timer.after(self.timer_event(step)),
            last_sent: match step {
                WritingStep::Own(WriteEvent::BatchSent(Ok(_)), at) => Some(at),
                WritingStep::OtherSent(at) => Some(at),
                _ => self.last_sent,
            },
        }
    }

    /// What a history of steps leads to.
    pub open spec fn after_all<E>(self, steps: Seq<WritingStep<E>>) -> Writing
        decreases steps.len(),
    {
        if steps.len() == 0 {
            self
        } else {
            self.after_all(steps.drop_last()).after(steps.last())
        }
    }

    /// Each step of the history could happen in its turn.
    pub open spec fn all_enabled<E>(self, steps: Seq<WritingStep<E>>) -> bool
        decreases steps.len(),
    {
        steps.len() == 0 || self.all_enabled(steps.drop_last()) && self.after_all(
            steps.drop_last(),
        ).enabled(steps.last())
    }
}

/// The timer never lags behind what the link has sent.
pub proof fn law_timer_follows_batches<E>(s: Writing, steps: Seq<WritingStep<E>>)
    requires
        s.valid(),
        s.all_enabled(steps),
    ensures
        s.after_all(steps).valid(),
        s.after_all(steps).write.period == s.write.period,
    decreases steps.len(),
{
    if steps.len() > 0 {
        law_timer_follows_batches(s, steps.drop_last());
        let t = s.after_all(steps.drop_last());
        if let WritingStep::Own(event, at) = steps.last() {
            if let WriteEvent::BatchSent(Ok(traffic)) = event {
                assert(t.write.actions(event)[0] == WriteAction::<E>::ResetKeepAlive);
            }
        }
    }
}

/// A keep-alive is sent only if the link has sent no batch for the whole
/// keep-alive period, however long each batch took to send and whatever other
/// loops of the link do.
pub proof fn law_keep_alive_follows_silence<E>(
    s: Writing,
    steps: Seq<WritingStep<E>>,
    event: WriteEvent<E>,
    at: nat,
    i: int,
)
    requires
        s.valid(),
        s.all_enabled(steps),
        s.after_all(steps).enabled(WritingStep::Own(event, at)),
        0 <= i < s.after_all(steps).write.actions(event).len(),
        s.after_all(steps).write.actions(event)[i] is SendKeepAlive,
    ensures
        s.after_all(steps).last_sent matches Some(t) ==> t + s.write.period <= at,
{
    law_timer_follows_batches(s, steps);
}

/// A read loop with the lease timer of its link, and what was received on the link.
pub struct Reading {
    pub read: ReadState,
    pub timer: Timer,
    /// When a batch was last received.
    pub last_received: Option<nat>,
    /// When the ticker last found that the lease had elapsed, and when a batch had
    /// last been received then.
    pub silence: Option<(nat, Option<nat>)>,
}

/// One thing that happens to them, at the given time.
pub enum ReadingStep<E> {
    /// An event of the loop. Its actions on the timer are performed at once.
    Own(ReadEvent<E>, nat),
    /// Another loop of the link has received a batch.
    OtherReceived(nat),
    /// The ticker looks.
    Tick(nat),
}

impl Reading {
    /// The timer is paired and has the loop's lease, it was reset no earlier than a
    /// batch was last received, and a timeout to be reported was found after a whole
    /// lease of silence.
    pub open spec fn valid(self) -> bool {
        &&& self.timer.paired()
        &&& self.timer.tracker.timeout == self.read.lease
        &&& self.last_received matches Some(t) ==> t <= self.timer.tracker.latest_reset
        &&& self.timer.tracker.has_timed_out ==> self.silence is Some
        &&& self.silence matches Some((found, before)) ==> {
            &&& found <= self.timer.now
            &&& before matches Some(t) ==> t + self.read.lease <= found
        }
    }

    /// What an event of the loop does to the timer: a loop that is told of a
    /// timeout takes it, and a received batch resets it.
    pub open spec fn own_timer_event<E>(self, event: ReadEvent<E>, at: nat) -> TimerEvent {
        if self.read.actions(event).contains(ReadAction::ResetLease) {
            TimerEvent::Reset(at)
        } else {
            TimerEvent::Wait(at, event is LeaseElapsed)
        }
    }

    /// What the step does to the timer.
    pub open spec fn timer_event<E>(self, step: ReadingStep<E>) -> TimerEvent {
        match step {
            ReadingStep::Own(event, at) => self.own_timer_event(event, at),
            ReadingStep::OtherReceived(at) => TimerEvent::Reset(at),
            ReadingStep::Tick(at) => TimerEvent::Tick(at),
        }
    }

    /// The step can happen next; the lease has elapsed for the loop only if the
    /// tracker tells it so.
    pub open spec fn enabled<E>(self, step: ReadingStep<E>) -> bool {
        &&& self.timer.enabled(self.timer_event(step))
        &&& step matches ReadingStep::Own(event, _) ==> {
            &&& self.read.accepts(event)
            &&& event is LeaseElapsed ==> self.timer.tracker.wait_result(
                speaks_for_link(self.read.priority),
            ) == WaitIf::Ready
        }
    }

    /// What the step leads to.
    pub open spec fn after<E>(self, step: ReadingStep<E>) -> Reading {
        Reading {
            read: match step {
                ReadingStep::Own(event, _) => self.read.after(event),
                _ => self.read,
            },
            timer: self.timer.after(self.timer_event(step)),
            last_received: match step {
                ReadingStep::Own(ReadEvent::Read(Ok(_)), at) => Some(at),
                ReadingStep::OtherReceived(at) => Some(at),
                _ => self.last_received,
            },
            silence: match step {
                ReadingStep::Tick(at) => if self.timer.ticker.expires(self.timer.tracker) {
                    Some((at, self.last_received))
                } else {
                    self.silence
                },
                _ => self.silence,
            },
        }
    }

    /// What a history of steps leads to.
    pub open spec fn after_all<E>(self, steps: Seq<ReadingStep<E>>) -> Reading
        decreases steps.len(),
    {
        if steps.len() == 0 {
            self
        } else {
            self.after_all(steps.drop_last()).after(steps.last())
        }
    }

    /// Each step of the history could happen in its turn.
    pub open spec fn all_enabled<E>(self, steps: Seq<ReadingStep<E>>) -> bool
        decreases steps.len(),
    {
        steps.len() == 0 || self.all_enabled(steps.drop_last()) && self.after_all(
            steps.drop_last(),
        ).enabled(steps.last())
    }

    /// No batch of the history was received while a timeout was pending.
    pub open spec fn none_outdates<E>(self, steps: Seq<ReadingStep<E>>) -> bool
        decreases steps.len(),
    {
        steps.len() == 0 || {
            let before = self.after_all(steps.drop_last());
            &&& self.none_outdates(steps.drop_last())
            &&& !before.timer.outdates(before.timer_event(steps.last()))
        }
    }
}

/// The timer never lags behind what the link has received, and it is up to date
/// unless a batch was received while a timeout was pending.
pub proof fn law_timer_follows_reads<E>(s: Reading, steps: Seq<ReadingStep<E>>)
    requires
        s.valid(),
        s.all_enabled(steps),
    ensures
        s.after_all(steps).valid(),
        s.after_all(steps).read.lease == s.read.lease,
        s.timer.up_to_date() && s.none_outdates(steps) ==> s.after_all(steps).timer.up_to_date(),
    decreases steps.len(),
{
    if steps.len() > 0 {
        law_timer_follows_reads(s, steps.drop_last());
        let t = s.after_all(steps.drop_last());
        if let ReadingStep::Own(event, at) = steps.last() {
            if let ReadEvent::Read(Ok(len)) = event {
                assert(t.read.actions(event)[0] == ReadAction::<E>::ResetLease);
            }
        }
    }
}

/// A link expires only after a whole lease without a batch: when the ticker found
/// that the lease had elapsed, none had been received for that long. A batch that
/// comes between that and the expiry does not save the link.
pub proof fn law_expiry_follows_silence<E>(s: Reading, steps: Seq<ReadingStep<E>>, at: nat)
    requires
        s.valid(),
        s.all_enabled(steps),
        s.after_all(steps).enabled(ReadingStep::<E>::Own(ReadEvent::LeaseElapsed, at)),
    ensures
        s.after_all(steps).silence matches Some((found, before)) && {
            &&& found <= at
            &&& before matches Some(t) ==> t + s.read.lease <= found
        },
{
    law_timer_follows_reads(s, steps);
}

/// Where no batch is received while a timeout is pending, a link expires only if it
/// has received no batch for the whole lease just before.
pub proof fn law_expiry_is_up_to_date<E>(s: Reading, steps: Seq<ReadingStep<E>>, at: nat)
    requires
        s.valid(),
        s.timer.up_to_date(),
        s.all_enabled(steps),
        s.none_outdates(steps),
        s.after_all(steps).enabled(ReadingStep::<E>::Own(ReadEvent::LeaseElapsed, at)),
    ensures
        s.after_all(steps).last_received matches Some(t) ==> t + s.read.lease <= at,
{
    law_timer_follows_reads(s, steps);
}

} // verus!
