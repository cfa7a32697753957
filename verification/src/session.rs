//! The supervisor of one feed: when to connect, how long to wait before the
//! next attempt, and when to give the feed up.
//!
//! The supervisor decides and the program around it acts: it connects,
//! sleeps or stops tasks as told, and reports back what happened.

use vstd::prelude::*;

verus! {

/// The two feeds of the relay.
#[derive(Debug, PartialEq, Eq, Structural, Clone, Copy)]
pub enum Feed {
    /// The tagged event feed.
    Events,
    /// The chat feed.
    Chat,
}

/// Where a session stands in its life.
#[derive(Debug, PartialEq, Eq, Structural, Clone, Copy)]
pub enum SessionState {
    /// Created, no attempt made yet.
    Idle,
    /// An attempt to connect is under way.
    Connecting,
    /// The feed is open.
    Connected,
    /// The feed is closed and another attempt is due.
    Disconnected,
    /// Shutdown was asked for; the session's tasks are stopping.
    ShuttingDown,
    /// Ended by shutdown.
    Terminated,
    /// Given up after too many failed attempts.
    Aborted,
}

/// What the program reports to the supervisor.
#[derive(Debug, PartialEq, Eq, Structural, Clone, Copy)]
pub enum SessionEvent {
    /// It is time for an attempt: at start, or after the wait that the
    /// supervisor asked for.
    AttemptDue,
    /// The attempt under way failed.
    ConnectFailed,
    /// The attempt under way succeeded.
    Connected,
    /// The open feed broke: an error on read or write, a close, a missed
    /// heartbeat, or the server's request to reconnect.
    ConnectionLost,
    /// The bus told the session to shut down.
    Shutdown,
    /// The session's tasks have stopped.
    TasksStopped,
}

/// What the supervisor tells the program to do.
#[derive(Debug, PartialEq, Eq, Structural, Clone, Copy)]
pub enum SessionAction {
    /// Open a connection to the feed.
    Connect,
    /// Send the feed's handshake on the new connection.
    Handshake,
    /// Wait this many seconds, then report `AttemptDue`.
    RetryAfter(u64),
    /// Give the feed up and report the failure upward.
    Abandon,
    /// Tell the session's tasks to stop.
    StopTasks,
    /// Leave the session loop.
    Exit,
    /// Nothing to do.
    Nothing,
}

/// A session as mathematical values.
pub struct SessionModel {
    pub feed: Feed,
    pub state: SessionState,
    /// Attempts made since the feed was last open.
    pub attempts: nat,
    /// The most attempts made in a row before the feed is given up.
    pub ceiling: nat,
}

impl SessionModel {
    /// The counter never passes the ceiling.
    pub open spec fn valid(self) -> bool {
        self.attempts <= self.ceiling <= u64::MAX
    }

    /// Whether the session has ended for good.
    pub open spec fn finished(self) -> bool {
        self.state == SessionState::Terminated || self.state == SessionState::Aborted
    }

    /// The session in another state.
    pub open spec fn to(self, state: SessionState) -> SessionModel {
        SessionModel { state, ..self }
    }
}

/// The supervisor's rule: the session after `event`, and what to do.
///
/// Every attempt counts. When the count would pass the ceiling the feed is
/// given up; a failed attempt is retried after as many seconds as attempts
/// were made; an attempt that succeeds sets the count back to zero. An
/// event that does not fit the state changes nothing.
pub open spec fn next(s: SessionModel, event: SessionEvent) -> (SessionModel, SessionAction) {
    match (s.state, event) {
        (SessionState::Idle, SessionEvent::AttemptDue)
        | (SessionState::Disconnected, SessionEvent::AttemptDue) => {
            if s.attempts >= s.ceiling {
                (s.to(SessionState::Aborted), SessionAction::Abandon)
            } else {
                (
                    SessionModel {
                        state: SessionState::Connecting,
                        attempts: s.attempts + 1,
                        ..s
                    },
                    SessionAction::Connect,
                )
            }
        },
        (SessionState::Connecting, SessionEvent::Connected) => (
            SessionModel { state: SessionState::Connected, attempts: 0, ..s },
            SessionAction::Handshake,
        ),
        (SessionState::Connecting, SessionEvent::ConnectFailed) => (
            s.to(SessionState::Disconnected),
            SessionAction::RetryAfter(s.attempts as u64),
        ),
        (SessionState::Connected, SessionEvent::ConnectionLost) => (
            s.to(SessionState::Disconnected),
            SessionAction::RetryAfter(0),
        ),
        (SessionState::Idle, SessionEvent::Shutdown)
        | (SessionState::Connecting, SessionEvent::Shutdown)
        | (SessionState::Connected, SessionEvent::Shutdown)
        | (SessionState::Disconnected, SessionEvent::Shutdown) => (
            s.to(SessionState::ShuttingDown),
            SessionAction::StopTasks,
        ),
        (SessionState::ShuttingDown, SessionEvent::TasksStopped) => (
            s.to(SessionState::Terminated),
            SessionAction::Exit,
        ),
        _ => (s, SessionAction::Nothing),
    }
}

/// The session after one more attempt that failed.
pub open spec fn fail_once(s: SessionModel) -> SessionModel {
    next(next(s, SessionEvent::AttemptDue).0, SessionEvent::ConnectFailed).0
}

/// The session after `n` attempts in a row that failed.
pub open spec fn after_failures(s: SessionModel, n: nat) -> SessionModel
    decreases n,
{
    if n == 0 {
        s
    } else {
        fail_once(after_failures(s, (n - 1) as nat))
    }
}

/// Whether a session may start an attempt with a fresh count.
pub open spec fn fresh(s: SessionModel) -> bool {
    &&& s.valid()
    &&& s.attempts == 0
    &&& (s.state == SessionState::Idle || s.state == SessionState::Disconnected)
}

/// A step keeps the counter within the ceiling, and the ceiling and the
/// feed as they are.
pub proof fn lemma_next_valid(s: SessionModel, event: SessionEvent)
    requires
        s.valid(),
    ensures
        next(s, event).0.valid(),
        next(s, event).0.ceiling == s.ceiling,
        next(s, event).0.feed == s.feed,
{
}

/// Up to the ceiling, every failed attempt adds one to the counter and
/// leaves the session waiting for the next attempt.
pub proof fn lemma_failures_count(s: SessionModel, n: nat)
    requires
        fresh(s),
        n <= s.ceiling,
    ensures
        after_failures(s, n).attempts == n,
        after_failures(s, n).ceiling == s.ceiling,
        after_failures(s, n).feed == s.feed,
        after_failures(s, n).valid(),
        n > 0 ==> after_failures(s, n).state == SessionState::Disconnected,
        n == 0 ==> after_failures(s, n) == s,
    decreases n,
{
    if n > 0 {
        lemma_failures_count(s, (n - 1) as nat);
    }
}

/// The wait grows by one second with each failed attempt: the `n`-th
/// failure in a row asks for a wait of `n` seconds.
pub proof fn lemma_backoff_linear(s: SessionModel, n: nat)
    requires
        fresh(s),
        0 < n <= s.ceiling,
    ensures
        ({
            let before = after_failures(s, (n - 1) as nat);
            let attempt = next(before, SessionEvent::AttemptDue);
            &&& attempt.1 == SessionAction::Connect
            &&& next(attempt.0, SessionEvent::ConnectFailed).1 == SessionAction::RetryAfter(
                n as u64,
            )
        }),
{
    lemma_failures_count(s, (n - 1) as nat);
}

/// After fewer failures in a row than the ceiling, the next attempt is
/// made, and if it succeeds the counter is back at zero.
pub proof fn lemma_success_resets(s: SessionModel, n: nat)
    requires
        fresh(s),
        n < s.ceiling,
    ensures
        ({
            let attempt = next(after_failures(s, n), SessionEvent::AttemptDue);
            let open = next(attempt.0, SessionEvent::Connected);
            &&& attempt.1 == SessionAction::Connect
            &&& open.1 == SessionAction::Handshake
            &&& open.0.state == SessionState::Connected
            &&& open.0.attempts == 0
        }),
{
    lemma_failures_count(s, n);
}

/// Whenever an attempt succeeds, the counter is back at zero.
pub proof fn lemma_connected_resets(s: SessionModel)
    requires
        s.state == SessionState::Connecting,
    ensures
        next(s, SessionEvent::Connected).0.attempts == 0,
        next(s, SessionEvent::Connected).0.state == SessionState::Connected,
{
}

/// After as many failures in a row as the ceiling allows, the next attempt
/// is refused: the feed is given up and the failure reported. More failures
/// than the ceiling therefore leave the session aborted.
pub proof fn lemma_exhausted_aborts(s: SessionModel, n: nat)
    requires
        fresh(s),
        n > s.ceiling,
    ensures
        next(after_failures(s, s.ceiling), SessionEvent::AttemptDue) == (
            after_failures(s, s.ceiling).to(SessionState::Aborted),
            SessionAction::Abandon,
        ),
        after_failures(s, n).state == SessionState::Aborted,
    decreases n,
{
    lemma_failures_count(s, s.ceiling);
    if n > s.ceiling + 1 {
        lemma_exhausted_aborts(s, (n - 1) as nat);
    }
}

/// The moves from one state to another that a session can make.
pub open spec fn may_follow(from: SessionState, to: SessionState) -> bool {
    match (from, to) {
        (SessionState::Idle, SessionState::Connecting) => true,
        (SessionState::Connecting, SessionState::Connected) => true,
        (SessionState::Connecting, SessionState::Disconnected) => true,
        (SessionState::Connected, SessionState::Disconnected) => true,
        (SessionState::Disconnected, SessionState::Connecting) => true,
        (SessionState::Idle, SessionState::Aborted) => true,
        (SessionState::Disconnected, SessionState::Aborted) => true,
        (SessionState::Idle, SessionState::ShuttingDown) => true,
        (SessionState::Connecting, SessionState::ShuttingDown) => true,
        (SessionState::Connected, SessionState::ShuttingDown) => true,
        (SessionState::Disconnected, SessionState::ShuttingDown) => true,
        (SessionState::ShuttingDown, SessionState::Terminated) => true,
        _ => false,
    }
}

/// Every step either leaves the state as it is, and then asks for nothing,
/// or makes one of the moves of `may_follow`. The feed is given up only
/// where an attempt was due, and only with the report of it.
pub proof fn lemma_moves_are_allowed(s: SessionModel, event: SessionEvent)
    ensures
        next(s, event).0.state == s.state ==> next(s, event) == (s, SessionAction::Nothing),
        next(s, event).0.state != s.state ==> may_follow(s.state, next(s, event).0.state),
        next(s, event).0.state == SessionState::Aborted && s.state != SessionState::Aborted
            <==> next(s, event).1 == SessionAction::Abandon,
        next(s, event).1 == SessionAction::Abandon ==> event == SessionEvent::AttemptDue
            && s.attempts >= s.ceiling,
{
}

/// A session that has ended stays as it is and asks for nothing more.
pub proof fn lemma_finished_stays(s: SessionModel, event: SessionEvent)
    requires
        s.finished(),
    ensures
        next(s, event) == (s, SessionAction::Nothing),
{
}

/// The supervisor of one feed.
#[derive(Debug)]
pub struct Session {
    feed: Feed,
    state: SessionState,
    attempts: u64,
    ceiling: u64,
}

impl View for Session {
    type V = SessionModel;

    closed spec fn view(&self) -> SessionModel {
        SessionModel {
            feed: self.feed,
            state: self.state,
            attempts: self.attempts as nat,
            ceiling: self.ceiling as nat,
        }
    }
}

impl Session {
    #[verifier::type_invariant]
    spec fn within_ceiling(self) -> bool {
        self.attempts <= self.ceiling
    }

    /// An idle session for `feed` that gives up when more than `ceiling`
    /// attempts in a row would be needed.
    pub fn new(feed: Feed, ceiling: u64) -> (session: Session)
        ensures
            session@ == (SessionModel {
                feed,
                state: SessionState::Idle,
                attempts: 0,
                ceiling: ceiling as nat,
            }),
            session@.valid(),
    {
        Session { feed, state: SessionState::Idle, attempts: 0, ceiling }
    }

    /// The feed that the session serves.
    pub fn feed(&self) -> (feed: Feed)
        ensures
            feed == self@.feed,
    {
        self.feed
    }

    /// Where the session stands.
    pub fn state(&self) -> (state: SessionState)
        ensures
            state == self@.state,
    {
        self.state
    }

    /// Attempts made since the feed was last open.
    pub fn attempts(&self) -> (n: u64)
        ensures
            n == self@.attempts,
            self@.valid(),
    {
        proof {
            use_type_invariant(self);
        }
        self.attempts
    }

    /// The most attempts made in a row.
    pub fn ceiling(&self) -> (n: u64)
        ensures
            n == self@.ceiling,
    {
        self.ceiling
    }

    /// Whether the session has ended for good.
    pub fn is_finished(&self) -> (r: bool)
        ensures
            r == self@.finished(),
    {
        self.state == SessionState::Terminated || self.state == SessionState::Aborted
    }

    /// Takes in what happened and says what to do next.
    pub fn step(&mut self, event: SessionEvent) -> (action: SessionAction)
        ensures
            (final(self)@, action) == next(old(self)@, event),
            final(self)@.valid(),
    {
        proof {
            use_type_invariant(&*self);
        }
        match (self.state, event) {
            (SessionState::Idle, SessionEvent::AttemptDue)
            | (SessionState::Disconnected, SessionEvent::AttemptDue) => {
                if self.attempts >= self.ceiling {
                    self.state = SessionState::Aborted;
                    SessionAction::Abandon
                } else {
                    self.attempts = self.attempts + 1;
                    self.state = SessionState::Connecting;
                    SessionAction::Connect
                }
            },
            (SessionState::Connecting, SessionEvent::Connected) => {
                self.attempts = 0;
                self.state = SessionState::Connected;
                SessionAction::Handshake
            },
            (SessionState::Connecting, SessionEvent::ConnectFailed) => {
                self.state = SessionState::Disconnected;
                SessionAction::RetryAfter(self.attempts)
            },
            (SessionState::Connected, SessionEvent::ConnectionLost) => {
                self.state = SessionState::Disconnected;
                SessionAction::RetryAfter(0)
            },
            (SessionState::Idle, SessionEvent::Shutdown)
            | (SessionState::Connecting, SessionEvent::Shutdown)
            | (SessionState::Connected, SessionEvent::Shutdown)
            | (SessionState::Disconnected, SessionEvent::Shutdown) => {
                self.state = SessionState::ShuttingDown;
                SessionAction::StopTasks
            },
            (SessionState::ShuttingDown, SessionEvent::TasksStopped) => {
                self.state = SessionState::Terminated;
                SessionAction::Exit
            },
            _ => SessionAction::Nothing,
        }
    }
}

} // verus!
