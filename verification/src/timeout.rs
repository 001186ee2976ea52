//! Noticing that nothing has happened for a while: the basis of keep-alives and
//! of lease expiry.
//!
//! Points in time are nanoseconds since an origin of the caller's choice.
use vstd::prelude::*;

verus! {

/// The abstract state of a [`TimeoutTracker`].
pub struct TrackerState {
    /// How long nothing may happen before it counts as a timeout.
    pub timeout: nat,
    /// When something last happened.
    pub latest_reset: nat,
    /// A timeout has occurred that no waiter has been told of.
    pub has_timed_out: bool,
}

/// The abstract state of a [`TimeoutTicker`].
pub struct TickerState {
    /// How long nothing may happen before it counts as a timeout.
    pub timeout: nat,
    /// The point in time from which the ticker measures.
    pub since: nat,
}

impl TrackerState {
    /// Something happens at time `now`. A timeout that was found before is still
    /// to be reported.
    pub open spec fn after_reset(self, now: nat) -> TrackerState {
        TrackerState { latest_reset: now, ..self }
    }

    /// Something happens at time `now`, and a timeout that was found before, and
    /// that no waiter has been told of, no longer counts.
    pub open spec fn after_restart(self, now: nat) -> TrackerState {
        TrackerState { latest_reset: now, has_timed_out: false, ..self }
    }

    /// What a waiter is told.
    pub open spec fn wait_result(self, predicate: bool) -> WaitIf {
        if !predicate {
            WaitIf::Never
        } else if self.has_timed_out {
            WaitIf::Ready
        } else {
            WaitIf::Pending
        }
    }

    /// The waiter has been told.
    pub open spec fn after_wait(self, predicate: bool) -> TrackerState {
        TrackerState { has_timed_out: self.has_timed_out && !predicate, ..self }
    }

    /// The ticker has looked.
    pub open spec fn after_tick(self, ticker: TickerState) -> TrackerState {
        TrackerState { has_timed_out: self.has_timed_out || ticker.expires(self), ..self }
    }
}

impl TickerState {
    /// When the ticker has to look next.
    pub open spec fn deadline(self) -> nat {
        self.since + self.timeout
    }

    /// Nothing has happened since the ticker started to measure.
    pub open spec fn expires(self, tracker: TrackerState) -> bool {
        tracker.latest_reset <= self.since
    }

    /// The ticker has looked at time `now`. After a timeout it measures from now
    /// on, else from when something last happened.
    pub open spec fn after_tick(self, tracker: TrackerState, now: nat) -> TickerState {
        TickerState {
            since: if self.expires(tracker) {
                now
            } else {
                tracker.latest_reset
            },
            ..self
        }
    }
}

/// What a waiter is told.
#[derive(Clone, Copy, Debug, PartialEq, Eq, Structural)]
pub enum WaitIf {
    /// This waiter is never told of timeouts.
    Never,
    /// There is no timeout yet.
    Pending,
    /// A timeout has occurred.
    Ready,
}

/// What the tasks of a link share: when something last happened, and whether a
/// timeout is to be reported.
pub struct TimeoutTracker {
    timeout: u128,
    latest_reset: u128,
    has_timed_out: bool,
}

/// What the background task that watches a tracker keeps for itself.
pub struct TimeoutTicker {
    timeout: u128,
    since: u128,
}

impl View for TimeoutTracker {
    type V = TrackerState;

    closed spec fn view(&self) -> TrackerState {
        TrackerState {
            timeout: self.timeout as nat,
            latest_reset: self.latest_reset as nat,
            has_timed_out: self.has_timed_out,
        }
    }
}

impl View for TimeoutTicker {
    type V = TickerState;

    closed spec fn view(&self) -> TickerState {
        TickerState { timeout: self.timeout as nat, since: self.since as nat }
    }
}

impl TimeoutTracker {
    /// A tracker that was last reset at time `now`, and its ticker.
    pub fn new(timeout: u128, now: u128) -> (r: (TimeoutTracker, TimeoutTicker))
        ensures
            r.0@ == (TrackerState {
                timeout: timeout as nat,
                latest_reset: now as nat,
                has_timed_out: false,
            }),
            r.1@ == (TickerState { timeout: timeout as nat, since: now as nat }),
    {
        let tracker = TimeoutTracker { timeout, latest_reset: now, has_timed_out: false };
        let ticker = TimeoutTicker { timeout, since: now };
        (tracker, ticker)
    }

    /// How long nothing may happen before it counts as a timeout.
    pub fn timeout(&self) -> (r: u128)
        ensures
            r == self@.timeout,
    {
        self.timeout
    }

    /// Takes note that something has happened at time `now`. A timeout that was
    /// found before is still reported.
    pub fn reset(&mut self, now: u128)
        ensures
            final(self)@ == old(self)@.after_reset(now as nat),
            final(self)@.latest_reset == now,
            final(self)@.timeout == old(self)@.timeout,
            final(self)@.has_timed_out == old(self)@.has_timed_out,
    {
        self.latest_reset = now;
    }

    /// Takes note that something has happened at time `now`, and withdraws a timeout
    /// that was found before and that no waiter has been told of.
    pub fn restart(&mut self, now: u128)
        ensures
            final(self)@ == old(self)@.after_restart(now as nat),
            final(self)@.latest_reset == now,
            final(self)@.timeout == old(self)@.timeout,
            !final(self)@.has_timed_out,
    {
        self.latest_reset = now;
        self.has_timed_out = false;
    }

    /// Tells a waiter whether a timeout has occurred, and if so only once. A
    /// waiter whose `predicate` does not hold is never told, and leaves the
    /// timeout to others.
    pub fn wait_if(&mut self, predicate: bool) -> (r: WaitIf)
        ensures
            r == old(self)@.wait_result(predicate),
            final(self)@ == old(self)@.after_wait(predicate),
            r is Never <==> !predicate,
            r is Ready <==> predicate && old(self)@.has_timed_out,
            final(self)@ == (TrackerState {
                has_timed_out: old(self)@.has_timed_out && !(r is Ready),
                ..old(self)@
            }),
    {
        if !predicate {
            return WaitIf::Never;
        }
        if self.has_timed_out {
            self.has_timed_out = false;
            return WaitIf::Ready;
        }
        WaitIf::Pending
    }
}

impl TimeoutTicker {
    /// When the ticker has to look next.
    pub fn deadline(&self) -> (r: u128)
        requires
            self@.deadline() <= u128::MAX,
        ensures
            r == self@.deadline(),
            r == self@.since + self@.timeout,
    {
        self.since + self.timeout
    }

    /// Looks at the tracker at time `now`; `true` if that is a timeout, of which
    /// a waiter is then to be told.
    pub fn tick(&mut self, tracker: &mut TimeoutTracker, now: u128) -> (r: bool)
        ensures
            r == old(self)@.expires(old(tracker)@),
            final(tracker)@ == old(tracker)@.after_tick(old(self)@),
            final(self)@ == old(self)@.after_tick(old(tracker)@, now as nat),
            r <==> old(tracker)@.latest_reset <= old(self)@.since,
            final(tracker)@ == (TrackerState {
                has_timed_out: old(tracker)@.has_timed_out || r,
                ..old(tracker)@
            }),
            final(self)@.timeout == old(self)@.timeout,
            r ==> final(self)@.since == now,
            !r ==> final(self)@.since == old(tracker)@.latest_reset,
    {
        let prev: u128 = self.since;
        self.since = tracker.latest_reset;
        if self.since <= prev {
            self.since = now;
            tracker.has_timed_out = true;
            return true;
        }
        false
    }
}

/// A tracker with its ticker, and the time.
pub struct Timer {
    pub tracker: TrackerState,
    pub ticker: TickerState,
    pub now: nat,
}

/// One thing that happens to them, at the given time.
pub enum TimerEvent {
    /// Something happens that resets the tracker.
    Reset(nat),
    /// Something happens that resets the tracker and withdraws a pending timeout.
    Restart(nat),
    /// The ticker looks.
    Tick(nat),
    /// A waiter with this predicate asks.
    Wait(nat, bool),
}

impl TimerEvent {
    /// When it happens.
    pub open spec fn at(self) -> nat {
        match self {
            TimerEvent::Reset(t) => t,
            TimerEvent::Restart(t) => t,
            TimerEvent::Tick(t) => t,
            TimerEvent::Wait(t, _) => t,
        }
    }
}

impl Timer {
    /// What always holds of a tracker and its ticker: they have the same timeout,
    /// and nothing they remember lies in the future.
    pub open spec fn paired(self) -> bool {
        &&& self.tracker.timeout == self.ticker.timeout
        &&& self.tracker.latest_reset <= self.now
        &&& self.ticker.since <= self.now
    }

    /// A timeout to be reported means that nothing has happened for at least the
    /// whole timeout.
    pub open spec fn up_to_date(self) -> bool {
        self.tracker.has_timed_out ==> self.tracker.latest_reset + self.tracker.timeout <= self.now
    }

    /// The event resets the tracker while a timeout is pending, and leaves it so.
    pub open spec fn outdates(self, event: TimerEvent) -> bool {
        event is Reset && self.tracker.has_timed_out
    }

    /// The event can happen next: time does not go back, and the ticker does not
    /// look before its deadline.
    pub open spec fn enabled(self, event: TimerEvent) -> bool {
        &&& self.now <= event.at()
        &&& event is Tick ==> self.ticker.deadline() <= event.at()
    }

    /// What the event leads to.
    pub open spec fn after(self, event: TimerEvent) -> Timer {
        Timer {
            tracker: match event {
                TimerEvent::Reset(t) => self.tracker.after_reset(t),
                TimerEvent::Restart(t) => self.tracker.after_restart(t),
                TimerEvent::Tick(_) => self.tracker.after_tick(self.ticker),
                TimerEvent::Wait(_, predicate) => self.tracker.after_wait(predicate),
            },
            ticker: match event {
                TimerEvent::Tick(t) => self.ticker.after_tick(self.tracker, t),
                _ => self.ticker,
            },
            now: event.at(),
        }
    }

    /// What a history of events leads to.
    pub open spec fn after_all(self, events: Seq<TimerEvent>) -> Timer
        decreases events.len(),
    {
        if events.len() == 0 {
            self
        } else {
            self.after_all(events.drop_last()).after(events.last())
        }
    }

    /// Each event of the history could happen in its turn.
    pub open spec fn all_enabled(self, events: Seq<TimerEvent>) -> bool
        decreases events.len(),
    {
        events.len() == 0 || self.all_enabled(events.drop_last()) && self.after_all(
            events.drop_last(),
        ).enabled(events.last())
    }

    /// No event of the history resets the tracker while a timeout is pending, and
    /// leaves it so.
    pub open spec fn none_outdates(self, events: Seq<TimerEvent>) -> bool
        decreases events.len(),
    {
        events.len() == 0 || self.none_outdates(events.drop_last()) && !self.after_all(
            events.drop_last(),
        ).outdates(events.last())
    }

    /// A waiter has been told of a timeout in the course of the history.
    pub open spec fn reported(self, events: Seq<TimerEvent>) -> bool
        decreases events.len(),
    {
        events.len() > 0 && {
            ||| self.reported(events.drop_last())
            ||| events.last() matches TimerEvent::Wait(_, predicate) && self.after_all(
                events.drop_last(),
            ).tracker.wait_result(predicate) == WaitIf::Ready
        }
    }
}

/// The event is something that happens, at time `last`.
pub open spec fn is_activity(event: TimerEvent, last: nat) -> bool {
    event == TimerEvent::Reset(last) || event == TimerEvent::Restart(last)
}

/// Nothing happens in the course of the history: it holds only looks of the ticker
/// and waiters.
pub open spec fn is_silence(events: Seq<TimerEvent>) -> bool {
    forall|i: int|
        0 <= i < events.len() ==> (#[trigger] events[i]) is Tick || events[i] is Wait
}

/// How often the ticker looks in the course of the history.
pub open spec fn ticks(events: Seq<TimerEvent>) -> nat
    decreases events.len(),
{
    if events.len() == 0 {
        0
    } else {
        ticks(events.drop_last()) + (if events.last() is Tick {
            1nat
        } else {
            0
        })
    }
}

/// A new tracker and its ticker are paired.
pub proof fn law_new_is_paired(timeout: nat, now: nat)
    ensures
        (Timer {
            tracker: TrackerState { timeout, latest_reset: now, has_timed_out: false },
            ticker: TickerState { timeout, since: now },
            now,
        }).paired(),
        (Timer {
            tracker: TrackerState { timeout, latest_reset: now, has_timed_out: false },
            ticker: TickerState { timeout, since: now },
            now,
        }).up_to_date(),
{
}

/// Resets, restarts, looks of the ticker and waiters keep a tracker and its ticker
/// paired, and its timeout as it is.
pub proof fn law_pairing_is_kept(s: Timer, events: Seq<TimerEvent>)
    requires
        s.paired(),
        s.all_enabled(events),
    ensures
        s.after_all(events).paired(),
        s.after_all(events).now >= s.now,
        s.after_all(events).tracker.timeout == s.tracker.timeout,
    decreases events.len(),
{
    if events.len() > 0 {
        law_pairing_is_kept(s, events.drop_last());
    }
}

/// No false alarm: a waiter is told of a timeout only if nothing has happened for
/// at least the whole timeout, over any history in which nothing resets the tracker
/// while a timeout is pending, unless it withdraws that timeout.
pub proof fn law_no_false_alarm(s: Timer, events: Seq<TimerEvent>, predicate: bool)
    requires
        s.paired(),
        s.up_to_date(),
        s.all_enabled(events),
        s.none_outdates(events),
    ensures
        s.after_all(events).up_to_date(),
        s.after_all(events).tracker.wait_result(predicate) == WaitIf::Ready ==> s.after_all(
            events,
        ).tracker.latest_reset + s.tracker.timeout <= s.after_all(events).now,
    decreases events.len(),
{
    law_pairing_is_kept(s, events);
    if events.len() > 0 {
        law_pairing_is_kept(s, events.drop_last());
        law_no_false_alarm(s, events.drop_last(), predicate);
    }
}

/// A timeout that is found stays to be reported: a reset does not take it back, a
/// restart does.
pub proof fn law_who_withdraws(s: Timer, at: nat)
    requires
        s.paired(),
        s.tracker.has_timed_out,
    ensures
        s.after(TimerEvent::Reset(at)).tracker.wait_result(true) == WaitIf::Ready,
        s.after(TimerEvent::Restart(at)).tracker.wait_result(true) == WaitIf::Pending,
{
}

/// Activity holds a timeout off: after a restart at time `last`, or a reset with no
/// timeout pending, and nothing later, no waiter is told of a timeout before one
/// timeout after `last`.
pub proof fn law_activity_holds_off(
    s: Timer,
    activity: TimerEvent,
    last: nat,
    events: Seq<TimerEvent>,
    predicate: bool,
)
    requires
        s.paired(),
        is_activity(activity, last),
        s.enabled(activity),
        !s.outdates(activity),
        s.after(activity).all_enabled(events),
        is_silence(events),
    ensures
        ({
            let t = s.after(activity).after_all(events);
            &&& t.tracker.latest_reset == last
            &&& t.tracker.timeout == s.tracker.timeout
            &&& t.now < last + s.tracker.timeout ==> t.tracker.wait_result(predicate)
                != WaitIf::Ready
        }),
{
    let start = s.after(activity);
    lemma_ticker_catches_up(s, activity, last, events);
    lemma_silence_outdates_nothing(start, events);
    law_no_false_alarm(start, events, predicate);
}

/// A history in which nothing happens resets nothing.
proof fn lemma_silence_outdates_nothing(s: Timer, events: Seq<TimerEvent>)
    requires
        is_silence(events),
    ensures
        s.none_outdates(events),
    decreases events.len(),
{
    if events.len() > 0 {
        let before = events.drop_last();
        assert forall|i: int| 0 <= i < before.len() implies (#[trigger] before[i]) is Tick
            || before[i] is Wait by {
            assert(before[i] == events[i]);
        }
        lemma_silence_outdates_nothing(s, before);
        assert(events[events.len() - 1] is Tick || events[events.len() - 1] is Wait);
    }
}

/// After a reset or restart at time `last`, and nothing later, the ticker looks no
/// later than one timeout after `last`, unless it has found a timeout already; and
/// its second look at the latest has found it, so that a waiter has been told or is
/// told when it asks.
pub proof fn law_silence_is_noticed(
    s: Timer,
    activity: TimerEvent,
    last: nat,
    events: Seq<TimerEvent>,
)
    requires
        s.paired(),
        is_activity(activity, last),
        s.enabled(activity),
        s.after(activity).all_enabled(events),
        is_silence(events),
    ensures
        ({
            let start = s.after(activity);
            let t = start.after_all(events);
            let told = start.reported(events) || t.tracker.wait_result(true) == WaitIf::Ready;
            &&& told || t.ticker.deadline() <= last + s.tracker.timeout
            &&& ticks(events) >= 1 && !told ==> t.ticker.deadline() == last + s.tracker.timeout
            &&& ticks(events) >= 2 ==> told
        }),
{
    lemma_ticker_catches_up(s, activity, last, events);
}

/// After activity, the ticker measures from it or from an earlier time until it
/// has found a timeout, and from it on after its first look.
proof fn lemma_ticker_catches_up(
    s: Timer,
    activity: TimerEvent,
    last: nat,
    events: Seq<TimerEvent>,
)
    requires
        s.paired(),
        is_activity(activity, last),
        s.enabled(activity),
        s.after(activity).all_enabled(events),
        is_silence(events),
    ensures
        ({
            let start = s.after(activity);
            let t = start.after_all(events);
            let told = start.reported(events) || t.tracker.has_timed_out;
            &&& t.tracker.latest_reset == last
            &&& t.tracker.timeout == s.tracker.timeout
            &&& t.ticker.timeout == s.ticker.timeout
            &&& told || t.ticker.since <= last
            &&& ticks(events) >= 1 ==> t.ticker.since >= last
            &&& ticks(events) >= 2 ==> told
        }),
    decreases events.len(),
{
    let start = s.after(activity);
    if events.len() > 0 {
        let before = events.drop_last();
        assert forall|i: int| 0 <= i < before.len() implies (#[trigger] before[i]) is Tick
            || before[i] is Wait by {
            assert(before[i] == events[i]);
        }
        lemma_ticker_catches_up(s, activity, last, before);
        assert(events[events.len() - 1] is Tick || events[events.len() - 1] is Wait);
        law_pairing_is_kept(start, before);
    }
}

/// As long as nothing happens, a timeout is found again one timeout after the
/// one before.
pub proof fn law_silence_keeps_expiring(s: Timer, look: nat)
    requires
        s.paired(),
        s.enabled(TimerEvent::Tick(look)),
        s.ticker.expires(s.tracker),
    ensures
        ({
            let t = s.after(TimerEvent::Tick(look));
            &&& t.tracker.has_timed_out
            &&& t.ticker.deadline() == look + s.ticker.timeout
            &&& t.ticker.expires(t.tracker)
        }),
{
}

/// A timeout is reported to one waiter, once: the waiter that is told takes it,
/// and a waiter that is not to be told leaves it.
pub proof fn law_timeout_is_reported_once(tracker: TrackerState, predicate: bool)
    requires
        tracker.has_timed_out,
    ensures
        tracker.after_wait(false).wait_result(true) == WaitIf::Ready,
        tracker.after_wait(true).wait_result(predicate) != WaitIf::Ready,
{
}

/// Activity sets the time from which silence counts, and nothing else; a reset leaves
/// a timeout that was found to be reported, a restart withdraws it.
pub proof fn law_activity_sets_the_time(tracker: TrackerState, now: nat)
    ensures
        tracker.after_reset(now).latest_reset == now,
        tracker.after_reset(now).timeout == tracker.timeout,
        tracker.after_reset(now).has_timed_out == tracker.has_timed_out,
        tracker.after_restart(now).latest_reset == now,
        tracker.after_restart(now).timeout == tracker.timeout,
        !tracker.after_restart(now).has_timed_out,
{
}

/// A waiter is told of a timeout exactly if it is one to be told and a timeout is
/// there to be reported; being told takes the timeout, and asking changes nothing
/// else.
pub proof fn law_waiter_is_told(tracker: TrackerState, predicate: bool)
    ensures
        tracker.wait_result(predicate) is Never <==> !predicate,
        tracker.wait_result(predicate) is Ready <==> predicate && tracker.has_timed_out,
        tracker.after_wait(predicate).timeout == tracker.timeout,
        tracker.after_wait(predicate).latest_reset == tracker.latest_reset,
        tracker.after_wait(predicate).has_timed_out <==> tracker.has_timed_out && !predicate,
{
}

/// A look of the ticker finds a timeout exactly if nothing has happened after the time
/// from which it measures. The next look is one timeout after this one, or after what
/// happened last where no timeout was found.
pub proof fn law_look_finds_silence(tracker: TrackerState, ticker: TickerState, now: nat)
    ensures
        ticker.deadline() == ticker.since + ticker.timeout,
        ticker.expires(tracker) <==> tracker.latest_reset <= ticker.since,
        tracker.after_tick(ticker).has_timed_out <==> tracker.has_timed_out
            || tracker.latest_reset <= ticker.since,
        tracker.after_tick(ticker).timeout == tracker.timeout,
        tracker.after_tick(ticker).latest_reset == tracker.latest_reset,
        ticker.after_tick(tracker, now).timeout == ticker.timeout,
        tracker.latest_reset <= ticker.since ==> ticker.after_tick(tracker, now).deadline() == now
            + ticker.timeout,
        tracker.latest_reset > ticker.since ==> ticker.after_tick(tracker, now).deadline()
            == tracker.latest_reset + ticker.timeout,
{
}

} // verus!
