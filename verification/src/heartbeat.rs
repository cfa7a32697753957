//! The watchdog of the event feed.
//!
//! The monitor keeps the time of the last ping sent and of the last pong
//! seen. When the two lie further apart than the timeout, the feed is taken
//! for dead: the monitor reports that once and stops. Times are
//! milliseconds on any clock that does not run backwards.

use crate::random::random_between;
use vstd::prelude::*;

verus! {

/// Milliseconds between two pings, before jitter.
pub const PING_PERIOD_MILLIS: u64 = 60_000;

/// The least jitter, in milliseconds.
pub const JITTER_MIN_MILLIS: u64 = 10;

/// The bound that the jitter stays under, in milliseconds.
pub const JITTER_END_MILLIS: u64 = 1_000;

/// How far ping and pong may lie apart, in milliseconds.
pub const PONG_TIMEOUT_MILLIS: u64 = 10_000;

/// What the program reports to the monitor.
#[derive(Debug, PartialEq, Eq, Structural, Clone, Copy)]
pub enum HeartbeatEvent {
    /// The wait for the next ping is over, at the given time.
    TimerFired(u64),
    /// A pong was seen at the given time.
    Pong(u64),
    /// The ping could not be handed to the writer.
    SendFailed,
    /// Nobody will report pongs any more.
    Closed,
}

/// What the monitor tells the program to do.
#[derive(Debug, PartialEq, Eq, Structural, Clone, Copy)]
pub enum HeartbeatAction {
    /// Send a ping frame and wait for the next interval.
    SendPing,
    /// Go on waiting.
    Wait,
    /// Report that the feed is dead, and end the task.
    ReportFailure,
    /// End the task without a report.
    Stop,
    /// The monitor has stopped before; there is nothing to do.
    Nothing,
}

/// A monitor as mathematical values.
pub struct HeartbeatModel {
    pub last_ping: nat,
    pub last_pong: nat,
    pub timeout: nat,
    pub stopped: bool,
}

/// How far two times lie apart.
pub open spec fn gap(a: nat, b: nat) -> nat {
    if a >= b {
        (a - b) as nat
    } else {
        (b - a) as nat
    }
}

impl HeartbeatModel {
    /// Whether ping and pong lie further apart than the timeout.
    pub open spec fn overdue(self) -> bool {
        gap(self.last_ping, self.last_pong) > self.timeout
    }

    /// The monitor after it stopped.
    pub open spec fn stop(self) -> HeartbeatModel {
        HeartbeatModel { stopped: true, ..self }
    }
}

/// The monitor's rule: the monitor after `event`, and what to do.
///
/// When the timer fires and ping and pong lie too far apart, the feed is
/// reported dead; else a ping is sent and its time kept. A pong's time is
/// kept, and the same test made. A monitor that has stopped stays so.
pub open spec fn beat(h: HeartbeatModel, event: HeartbeatEvent) -> (
    HeartbeatModel,
    HeartbeatAction,
) {
    if h.stopped {
        (h, HeartbeatAction::Nothing)
    } else {
        match event {
            HeartbeatEvent::TimerFired(now) => {
                if h.overdue() {
                    (h.stop(), HeartbeatAction::ReportFailure)
                } else {
                    (HeartbeatModel { last_ping: now as nat, ..h }, HeartbeatAction::SendPing)
                }
            },
            HeartbeatEvent::Pong(at) => {
                let seen = HeartbeatModel { last_pong: at as nat, ..h };
                if seen.overdue() {
                    (seen.stop(), HeartbeatAction::ReportFailure)
                } else {
                    (seen, HeartbeatAction::Wait)
                }
            },
            HeartbeatEvent::SendFailed => (h.stop(), HeartbeatAction::Stop),
            HeartbeatEvent::Closed => (h.stop(), HeartbeatAction::Stop),
        }
    }
}

/// What the monitor asks for, one action for each of `events` in turn.
pub open spec fn run(h: HeartbeatModel, events: Seq<HeartbeatEvent>) -> Seq<HeartbeatAction>
    decreases events.len(),
{
    if events.len() == 0 {
        Seq::empty()
    } else {
        seq![beat(h, events[0]).1] + run(beat(h, events[0]).0, events.drop_first())
    }
}

/// How many of `actions` report a failure.
pub open spec fn failures(actions: Seq<HeartbeatAction>) -> nat
    decreases actions.len(),
{
    if actions.len() == 0 {
        0
    } else if actions[0] == HeartbeatAction::ReportFailure {
        1 + failures(actions.drop_first())
    } else {
        failures(actions.drop_first())
    }
}

/// The wait before the next ping for a given jitter.
pub open spec fn interval_for(jitter: nat) -> int {
    PING_PERIOD_MILLIS - jitter
}

/// A ping that went without a pong for longer than the timeout is reported
/// when the timer fires next, and the monitor stops with that report.
pub proof fn lemma_overdue_reported(h: HeartbeatModel, now: u64)
    requires
        !h.stopped,
        h.overdue(),
    ensures
        beat(h, HeartbeatEvent::TimerFired(now)) == (h.stop(), HeartbeatAction::ReportFailure),
{
}

/// A failure is reported only in the step in which the monitor stops.
pub proof fn lemma_report_stops(h: HeartbeatModel, event: HeartbeatEvent)
    ensures
        beat(h, event).1 == HeartbeatAction::ReportFailure ==> !h.stopped && beat(
            h,
            event,
        ).0.stopped,
        h.stopped ==> beat(h, event) == (h, HeartbeatAction::Nothing),
{
}

/// A monitor that has stopped asks for nothing, whatever comes.
pub proof fn lemma_stopped_is_silent(h: HeartbeatModel, events: Seq<HeartbeatEvent>)
    requires
        h.stopped,
    ensures
        run(h, events).len() == events.len(),
        forall|i: int| 0 <= i < events.len() ==> run(h, events)[i] == HeartbeatAction::Nothing,
        failures(run(h, events)) == 0,
    decreases events.len(),
{
    if events.len() > 0 {
        let rest = events.drop_first();
        lemma_stopped_is_silent(h, rest);
        let tail = run(h, rest);
        let all = run(h, events);
        assert(all =~= seq![HeartbeatAction::Nothing] + tail);
        assert(all.drop_first() =~= tail);
        assert forall|i: int| 0 <= i < events.len() implies all[i]
            == HeartbeatAction::Nothing by {
            if i > 0 {
                assert(all[i] == tail[i - 1]);
            }
        }
    }
}

/// Whatever happens, a monitor reports at most one failure in its life.
pub proof fn lemma_at_most_one_failure(h: HeartbeatModel, events: Seq<HeartbeatEvent>)
    ensures
        failures(run(h, events)) <= 1,
    decreases events.len(),
{
    if events.len() > 0 {
        let step = beat(h, events[0]);
        let rest = events.drop_first();
        let all = run(h, events);
        assert(all.drop_first() =~= run(step.0, rest));
        assert(all[0] == step.1);
        if step.1 == HeartbeatAction::ReportFailure {
            lemma_stopped_is_silent(step.0, rest);
        } else {
            lemma_at_most_one_failure(step.0, rest);
        }
    }
}

/// A monitor whose ping went unanswered for longer than the timeout reports
/// exactly one failure from the next timer on, whatever comes after.
pub proof fn lemma_exactly_one_failure(
    h: HeartbeatModel,
    now: u64,
    later: Seq<HeartbeatEvent>,
)
    requires
        !h.stopped,
        h.overdue(),
    ensures
        failures(run(h, seq![HeartbeatEvent::TimerFired(now)] + later)) == 1,
        run(h, seq![HeartbeatEvent::TimerFired(now)] + later)[0] == HeartbeatAction::ReportFailure,
{
    let events = seq![HeartbeatEvent::TimerFired(now)] + later;
    assert(events[0] == HeartbeatEvent::TimerFired(now));
    assert(events.drop_first() =~= later);
    lemma_stopped_is_silent(h.stop(), later);
    let all = run(h, events);
    assert(all.drop_first() =~= run(h.stop(), later));
}

/// The watchdog of one connection.
#[derive(Debug)]
pub struct Heartbeat {
    last_ping: u64,
    last_pong: u64,
    timeout: u64,
    stopped: bool,
}

impl View for Heartbeat {
    type V = HeartbeatModel;

    closed spec fn view(&self) -> HeartbeatModel {
        HeartbeatModel {
            last_ping: self.last_ping as nat,
            last_pong: self.last_pong as nat,
            timeout: self.timeout as nat,
            stopped: self.stopped,
        }
    }
}

impl Heartbeat {
    /// A monitor started at time `now`, with the given timeout.
    pub fn new(now: u64, timeout: u64) -> (monitor: Heartbeat)
        ensures
            monitor@ == (HeartbeatModel {
                last_ping: now as nat,
                last_pong: now as nat,
                timeout: timeout as nat,
                stopped: false,
            }),
    {
        Heartbeat { last_ping: now, last_pong: now, timeout, stopped: false }
    }

    /// Whether the monitor has stopped.
    pub fn is_stopped(&self) -> (r: bool)
        ensures
            r == self@.stopped,
    {
        self.stopped
    }

    /// Whether ping and pong lie further apart than the timeout.
    pub fn is_overdue(&self) -> (r: bool)
        ensures
            r == self@.overdue(),
    {
        let apart: u64 = if self.last_ping >= self.last_pong {
            self.last_ping - self.last_pong
        } else {
            self.last_pong - self.last_ping
        };
        apart > self.timeout
    }

    /// Takes in what happened and says what to do next.
    pub fn step(&mut self, event: HeartbeatEvent) -> (action: HeartbeatAction)
        ensures
            (final(self)@, action) == beat(old(self)@, event),
    {
        if self.stopped {
            return HeartbeatAction::Nothing;
        }
        match event {
            HeartbeatEvent::TimerFired(now) => {
                if self.is_overdue() {
                    self.stopped = true;
                    HeartbeatAction::ReportFailure
                } else {
                    self.last_ping = now;
                    HeartbeatAction::SendPing
                }
            },
            HeartbeatEvent::Pong(at) => {
                self.last_pong = at;
                if self.is_overdue() {
                    self.stopped = true;
                    HeartbeatAction::ReportFailure
                } else {
                    HeartbeatAction::Wait
                }
            },
            HeartbeatEvent::SendFailed => {
                self.stopped = true;
                HeartbeatAction::Stop
            },
            HeartbeatEvent::Closed => {
                self.stopped = true;
                HeartbeatAction::Stop
            },
        }
    }
}

/// The wait before the next ping, in milliseconds, for a jitter within its
/// bounds.
pub fn interval_with(jitter: u64) -> (millis: u64)
    requires
        JITTER_MIN_MILLIS <= jitter < JITTER_END_MILLIS,
    ensures
        millis == interval_for(jitter as nat),
{
    PING_PERIOD_MILLIS - jitter
}

/// The wait before the next ping, in milliseconds: the period less a
/// jitter drawn anew for each wait.
pub fn next_interval() -> (millis: u64)
    ensures
        exists|jitter: nat|
            JITTER_MIN_MILLIS <= jitter < JITTER_END_MILLIS && millis == interval_for(jitter),
        PING_PERIOD_MILLIS - JITTER_END_MILLIS < millis <= PING_PERIOD_MILLIS - JITTER_MIN_MILLIS,
{
    let jitter = random_between(JITTER_MIN_MILLIS, JITTER_END_MILLIS);
    interval_with(jitter)
}

} // verus!
