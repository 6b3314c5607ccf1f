//! Trailing-edge, single-slot coalescing of progress notifications into a
//! bounded rate of redraws. Time is given in milliseconds by the caller,
//! which also runs the one timer that a decision may ask for.

use vstd::prelude::*;

verus! {

/// What the caller does with a notification or a timer expiry.
#[derive(Clone, Copy, Debug, PartialEq, Eq, Structural)]
pub enum DebounceOutcome {
    /// Forward a redraw now.
    Forward,
    /// Start the one timer, to expire at the given time.
    ArmTimer(u64),
    /// Nothing to do: a timer is already armed and covers this signal.
    Coalesced,
}

/// The state of a debouncer: the minimum gap between forwards, the time of
/// the last forward, and whether a delayed forward is armed.
pub struct DebounceView {
    pub interval: u64,
    pub last_forward: Option<u64>,
    pub armed: bool,
}

/// `t + d`, or the largest time where that does not fit.
pub open spec fn due_time(t: u64, d: u64) -> u64 {
    if t + d <= u64::MAX {
        (t + d) as u64
    } else {
        u64::MAX
    }
}

impl DebounceView {
    /// A forward at `now` keeps the minimum gap to the last forward.
    pub open spec fn may_forward(self, now: u64) -> bool {
        match self.last_forward {
            None => true,
            Some(t) => now >= t + self.interval,
        }
    }

    /// An armed timer always follows a forward.
    pub open spec fn wf(self) -> bool {
        self.armed ==> self.last_forward is Some
    }

    pub open spec fn forwarded(self, now: u64) -> DebounceView {
        DebounceView { last_forward: Some(now), armed: false, ..self }
    }

    /// The decision on a progress notification at `now`.
    pub open spec fn notify_outcome(self, now: u64) -> DebounceOutcome {
        if self.may_forward(now) {
            DebounceOutcome::Forward
        } else if self.armed {
            DebounceOutcome::Coalesced
        } else {
            DebounceOutcome::ArmTimer(due_time(self.last_forward->0, self.interval))
        }
    }

    /// The state after a progress notification at `now`.
    pub open spec fn after_notify(self, now: u64) -> DebounceView {
        if self.may_forward(now) {
            self.forwarded(now)
        } else {
            DebounceView { armed: true, ..self }
        }
    }

    /// The decision when the armed timer expires at `now`; an early expiry
    /// arms it again, and one with no armed timer does nothing.
    pub open spec fn fire_outcome(self, now: u64) -> DebounceOutcome {
        if !self.armed {
            DebounceOutcome::Coalesced
        } else if self.may_forward(now) {
            DebounceOutcome::Forward
        } else {
            DebounceOutcome::ArmTimer(due_time(self.last_forward->0, self.interval))
        }
    }

    /// The state after the armed timer expires at `now`.
    pub open spec fn after_fire(self, now: u64) -> DebounceView {
        if self.armed && self.may_forward(now) {
            self.forwarded(now)
        } else {
            self
        }
    }
}

/// Coalesces progress notifications: at most one redraw per interval, and
/// the last notification of a burst is never lost.
pub struct Debouncer {
    interval: u64,
    last_forward: Option<u64>,
    armed: bool,
}

impl View for Debouncer {
    type V = DebounceView;

    closed spec fn view(&self) -> DebounceView {
        DebounceView { interval: self.interval, last_forward: self.last_forward, armed: self.armed }
    }
}

impl Debouncer {
    /// A debouncer that has forwarded nothing yet.
    pub fn new(interval: u64) -> (r: Self)
        ensures
            r@ == (DebounceView { interval, last_forward: None, armed: false }),
    {
        Debouncer { interval, last_forward: None, armed: false }
    }

    fn may_forward(&self, now: u64) -> (r: bool)
        ensures
            r == self@.may_forward(now),
    {
        match self.last_forward {
            None => true,
            Some(t) => now >= t && now - t >= self.interval,
        }
    }

    fn due(&self) -> (r: u64)
        requires
            self@.last_forward is Some,
        ensures
            r == due_time(self@.last_forward->0, self@.interval),
    {
        let t = match self.last_forward {
            Some(t) => t,
            None => 0,
        };
        if t <= u64::MAX - self.interval {
            t + self.interval
        } else {
            u64::MAX
        }
    }

    /// Takes a progress notification at time `now`. Afterwards the
    /// notification has been forwarded or a timer is armed to cover it.
    pub fn notify(&mut self, now: u64) -> (r: DebounceOutcome)
        requires
            old(self)@.wf(),
        ensures
            r == old(self)@.notify_outcome(now),
            final(self)@ == old(self)@.after_notify(now),
            final(self)@.wf(),
            r == DebounceOutcome::Forward || final(self)@.armed,
    {
        if self.may_forward(now) {
            self.last_forward = Some(now);
            self.armed = false;
            DebounceOutcome::Forward
        } else if self.armed {
            DebounceOutcome::Coalesced
        } else {
            self.armed = true;
            DebounceOutcome::ArmTimer(self.due())
        }
    }

    /// Takes the expiry of the armed timer at time `now`.
    pub fn fire(&mut self, now: u64) -> (r: DebounceOutcome)
        requires
            old(self)@.wf(),
        ensures
            r == old(self)@.fire_outcome(now),
            final(self)@ == old(self)@.after_fire(now),
            final(self)@.wf(),
    {
        if !self.armed {
            DebounceOutcome::Coalesced
        } else if self.may_forward(now) {
            self.last_forward = Some(now);
            self.armed = false;
            DebounceOutcome::Forward
        } else {
            DebounceOutcome::ArmTimer(self.due())
        }
    }
}

/// An input to a debouncer: a progress notification, or the expiry of the
/// armed timer, at a time in milliseconds.
pub enum DebounceEvent {
    Notify(u64),
    Fire(u64),
}

pub open spec fn event_time(e: DebounceEvent) -> u64 {
    match e {
        DebounceEvent::Notify(t) => t,
        DebounceEvent::Fire(t) => t,
    }
}

pub open spec fn event_outcome(v: DebounceView, e: DebounceEvent) -> DebounceOutcome {
    match e {
        DebounceEvent::Notify(t) => v.notify_outcome(t),
        DebounceEvent::Fire(t) => v.fire_outcome(t),
    }
}

pub open spec fn after_event(v: DebounceView, e: DebounceEvent) -> DebounceView {
    match e {
        DebounceEvent::Notify(t) => v.after_notify(t),
        DebounceEvent::Fire(t) => v.after_fire(t),
    }
}

/// The state after a sequence of events, the last event applied last.
pub open spec fn run(v: DebounceView, events: Seq<DebounceEvent>) -> DebounceView
    decreases events.len(),
{
    if events.len() == 0 {
        v
    } else {
        after_event(run(v, events.drop_last()), events.last())
    }
}

/// The times at which a sequence of events forwards a redraw, in order.
pub open spec fn forwards(v: DebounceView, events: Seq<DebounceEvent>) -> Seq<u64>
    decreases events.len(),
{
    if events.len() == 0 {
        Seq::empty()
    } else {
        let before = run(v, events.drop_last());
        let rest = forwards(v, events.drop_last());
        if event_outcome(before, events.last()) == DebounceOutcome::Forward {
            rest.push(event_time(events.last()))
        } else {
            rest
        }
    }
}

/// Starting from a fresh debouncer, any two successive forwarded redraws
/// are at least one interval apart, whatever notifications and timer
/// expiries arrive: a burst inside one interval gets at most one redraw,
/// and every forward but the first comes no earlier than the previous
/// forward plus the interval.
pub proof fn lemma_forwards_spaced(interval: u64, events: Seq<DebounceEvent>)
    ensures
        ({
            let f = forwards(DebounceView { interval, last_forward: None, armed: false }, events);
            forall|i: int| 0 <= i < f.len() - 1 ==> #[trigger] f[i + 1] >= f[i] + interval
        }),
{
    lemma_run_from(DebounceView { interval, last_forward: None, armed: false }, events);
}

proof fn lemma_run_from(v: DebounceView, events: Seq<DebounceEvent>)
    requires
        v.wf(),
    ensures
        ({
            let w = run(v, events);
            let f = forwards(v, events);
            &&& w.wf()
            &&& w.interval == v.interval
            &&& (f.len() == 0 ==> w.last_forward == v.last_forward)
            &&& (f.len() > 0 ==> w.last_forward == Some(f.last()))
            &&& (f.len() > 0 && v.last_forward is Some ==> f[0] >= v.last_forward->0
                + v.interval)
            &&& forall|i: int| 0 <= i < f.len() - 1 ==> #[trigger] f[i + 1] >= f[i] + v.interval
        }),
    decreases events.len(),
{
    if events.len() > 0 {
        let rest = events.drop_last();
        lemma_run_from(v, rest);
        let f0 = forwards(v, rest);
        let f = forwards(v, events);
        if f.len() > f0.len() {
            assert forall|i: int| 0 <= i < f.len() - 1 implies #[trigger] f[i + 1] >= f[i]
                + v.interval by {
                if i + 1 < f0.len() {
                    assert(f[i] == f0[i] && f[i + 1] == f0[i + 1]);
                }
            }
            if f0.len() > 0 {
                assert(f[0] == f0[0]);
            }
        }
    }
}

/// After a forward at `t0`, notifications and timer expiries that all come
/// within the next interval, up to `t0 + interval` itself, forward at most
/// one redraw, and not before `t0 + interval`.
pub proof fn lemma_burst_forwards_once(v: DebounceView, events: Seq<DebounceEvent>)
    requires
        v.wf(),
        v.interval > 0,
        v.last_forward is Some,
        forall|i: int|
            0 <= i < events.len() ==> v.last_forward->0 < #[trigger] event_time(events[i])
                <= v.last_forward->0 + v.interval,
    ensures
        forwards(v, events).len() <= 1,
        forall|i: int|
            0 <= i < forwards(v, events).len() ==> #[trigger] forwards(v, events)[i]
                >= v.last_forward->0 + v.interval,
{
    lemma_forwards_are_event_times(v, events);
    lemma_run_from(v, events);
    let f = forwards(v, events);
    if f.len() > 1 {
        let i = 0int;
        assert(f[i + 1] >= f[i] + v.interval);
        let j = choose|j: int| 0 <= j < events.len() && f[1] == event_time(events[j]);
        assert(event_time(events[j]) <= v.last_forward->0 + v.interval);
    }
    assert forall|i: int| 0 <= i < f.len() implies #[trigger] f[i] >= v.last_forward->0
        + v.interval by {
        if i > 0 {
            let k = 0int;
            assert(f[k + 1] >= f[k] + v.interval);
        }
    }
}

proof fn lemma_forwards_are_event_times(v: DebounceView, events: Seq<DebounceEvent>)
    ensures
        forall|i: int|
            0 <= i < forwards(v, events).len() ==> exists|j: int|
                0 <= j < events.len() && #[trigger] forwards(v, events)[i] == event_time(
                    events[j],
                ),
    decreases events.len(),
{
    if events.len() > 0 {
        let rest = events.drop_last();
        lemma_forwards_are_event_times(v, rest);
        let f0 = forwards(v, rest);
        let f = forwards(v, events);
        assert forall|i: int| 0 <= i < f.len() implies exists|j: int|
            0 <= j < events.len() && #[trigger] f[i] == event_time(events[j]) by {
            if i < f0.len() {
                assert(f[i] == f0[i]);
                let j = choose|j: int| 0 <= j < rest.len() && f0[i] == event_time(rest[j]);
                assert(rest[j] == events[j]);
            } else {
                assert(f[i] == event_time(events[events.len() - 1]));
            }
        }
    }
}

/// A notification that is not forwarded leaves a timer armed whose expiry,
/// one interval after the last forward, forwards the redraw: the latest
/// state is never dropped.
pub proof fn lemma_notification_not_lost(v: DebounceView, now: u64)
    requires
        v.wf(),
    ensures
        v.notify_outcome(now) == DebounceOutcome::Forward || ({
            let w = v.after_notify(now);
            let t = w.last_forward->0;
            &&& w.armed
            &&& t + v.interval <= u64::MAX ==> w.fire_outcome(due_time(t, v.interval))
                == DebounceOutcome::Forward
        }),
{
}

} // verus!
