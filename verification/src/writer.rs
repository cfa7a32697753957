//! The writer that puts all frames of a session on its one connection.
//!
//! Frames from several producers pass through one queue and are written one
//! after the other, so that no two are ever mixed. After the first write
//! that fails, the writer reports the failure once and takes no more frames.

use vstd::prelude::*;

verus! {

/// What the program reports to the writer.
#[derive(Debug, PartialEq, Eq, Structural, Clone, Copy)]
pub enum WriterEvent {
    /// A frame came out of the queue.
    Frame,
    /// The frame in hand was written.
    Written,
    /// The frame in hand could not be written.
    WriteFailed,
    /// The queue is closed: there will be no more frames.
    Closed,
}

/// What the writer tells the program to do.
#[derive(Debug, PartialEq, Eq, Structural, Clone, Copy)]
pub enum WriterAction {
    /// Write the frame to the connection.
    Write,
    /// Take the next frame from the queue.
    Continue,
    /// Report the failure, and end the task.
    ReportFailure,
    /// End the task without a report.
    Stop,
    /// The writer has stopped before: drop what came.
    Nothing,
}

/// The writer's rule: whether it has stopped after `event`, and what to do.
pub open spec fn drain(stopped: bool, event: WriterEvent) -> (bool, WriterAction) {
    if stopped {
        (true, WriterAction::Nothing)
    } else {
        match event {
            WriterEvent::Frame => (false, WriterAction::Write),
            WriterEvent::Written => (false, WriterAction::Continue),
            WriterEvent::WriteFailed => (true, WriterAction::ReportFailure),
            WriterEvent::Closed => (true, WriterAction::Stop),
        }
    }
}

/// What the writer asks for, one action for each of `events` in turn.
pub open spec fn run(stopped: bool, events: Seq<WriterEvent>) -> Seq<WriterAction>
    decreases events.len(),
{
    if events.len() == 0 {
        Seq::empty()
    } else {
        seq![drain(stopped, events[0]).1] + run(drain(stopped, events[0]).0, events.drop_first())
    }
}

/// How many of `actions` are `wanted`.
pub open spec fn count(actions: Seq<WriterAction>, wanted: WriterAction) -> nat
    decreases actions.len(),
{
    if actions.len() == 0 {
        0
    } else if actions[0] == wanted {
        1 + count(actions.drop_first(), wanted)
    } else {
        count(actions.drop_first(), wanted)
    }
}

/// A writer that has stopped neither writes nor reports, whatever comes.
pub proof fn lemma_stopped_is_silent(events: Seq<WriterEvent>)
    ensures
        count(run(true, events), WriterAction::Write) == 0,
        count(run(true, events), WriterAction::ReportFailure) == 0,
    decreases events.len(),
{
    if events.len() > 0 {
        lemma_stopped_is_silent(events.drop_first());
        assert(run(true, events).drop_first() =~= run(true, events.drop_first()));
    }
}

/// Whatever happens, a writer reports at most one failure, and writes
/// nothing after it.
pub proof fn lemma_at_most_one_failure(stopped: bool, events: Seq<WriterEvent>)
    ensures
        count(run(stopped, events), WriterAction::ReportFailure) <= 1,
        forall|i: int|
            0 <= i < events.len() && #[trigger] run(stopped, events)[i]
                == WriterAction::ReportFailure ==> count(
                run(stopped, events).skip(i + 1),
                WriterAction::Write,
            ) == 0,
    decreases events.len(),
{
    if events.len() > 0 {
        let step = drain(stopped, events[0]);
        let rest = events.drop_first();
        let all = run(stopped, events);
        let tail = run(step.0, rest);
        lemma_run_len(stopped, events);
        lemma_run_len(step.0, rest);
        assert(all.drop_first() =~= tail);
        assert(all.skip(1) =~= tail);
        lemma_at_most_one_failure(step.0, rest);
        if step.0 {
            lemma_stopped_is_silent(rest);
        }
        assert forall|i: int|
            0 <= i < events.len() && #[trigger] all[i] == WriterAction::ReportFailure implies count(
            all.skip(i + 1),
            WriterAction::Write,
        ) == 0 by {
            if i > 0 {
                assert(all[i] == tail[i - 1]);
                assert(all.skip(i + 1) =~= tail.skip(i));
            }
        }
    }
}

/// The writer answers each event with one action.
pub proof fn lemma_run_len(stopped: bool, events: Seq<WriterEvent>)
    ensures
        run(stopped, events).len() == events.len(),
    decreases events.len(),
{
    if events.len() > 0 {
        lemma_run_len(drain(stopped, events[0]).0, events.drop_first());
    }
}

/// The writer of one connection.
#[derive(Debug)]
pub struct Writer {
    stopped: bool,
}

impl View for Writer {
    type V = bool;

    /// Whether the writer has stopped.
    closed spec fn view(&self) -> bool {
        self.stopped
    }
}

impl Writer {
    /// A writer that takes frames.
    pub fn new() -> (writer: Writer)
        ensures
            !writer@,
    {
        Writer { stopped: false }
    }

    /// Whether the writer has stopped.
    pub fn is_stopped(&self) -> (r: bool)
        ensures
            r == self@,
    {
        self.stopped
    }

    /// Takes in what happened and says what to do next.
    pub fn step(&mut self, event: WriterEvent) -> (action: WriterAction)
        ensures
            (final(self)@, action) == drain(old(self)@, event),
    {
        if self.stopped {
            return WriterAction::Nothing;
        }
        match event {
            WriterEvent::Frame => WriterAction::Write,
            WriterEvent::Written => WriterAction::Continue,
            WriterEvent::WriteFailed => {
                self.stopped = true;
                WriterAction::ReportFailure
            },
            WriterEvent::Closed => {
                self.stopped = true;
                WriterAction::Stop
            },
        }
    }
}

} // verus!
