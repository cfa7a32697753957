//! Log lines of the relay's parts, and the short history kept of them.

use crate::address::Address;
use crate::text::{fit_width, push_fitted, to_chars};
use vstd::prelude::*;
use vstd::string::StringExecFns;

verus! {

broadcast use vstd::string::group_string_axioms;

/// The number of log messages kept.
pub const LOG_LEN: usize = 1024;

/// The width of the sender's name in a log line.
pub const SENDER_WIDTH: usize = 15;

/// How grave a log message is.
#[derive(Debug, PartialEq, Eq, Structural, Clone, Copy)]
pub enum Level {
    Info,
    Error,
}

/// One message for the log.
#[derive(Debug)]
pub struct LogMessage {
    sender: Address,
    message: String,
    level: Level,
}

/// A log message as mathematical values.
pub struct LogMessageView {
    pub sender: Address,
    pub message: Seq<char>,
    pub level: Level,
}

impl LogMessageView {
    /// The message as a line: the sender's name in a column of
    /// `SENDER_WIDTH` characters, a bar, and the text.
    pub open spec fn line(self) -> Seq<char> {
        fit_width(self.sender.name(), SENDER_WIDTH as nat) + " | "@ + self.message
    }
}

impl View for LogMessage {
    type V = LogMessageView;

    closed spec fn view(&self) -> LogMessageView {
        LogMessageView { sender: self.sender, message: self.message@, level: self.level }
    }
}

/// The history after one more message: the oldest message leaves when the
/// history is full.
pub open spec fn recorded<T>(history: Seq<T>, message: T) -> Seq<T> {
    if history.len() >= LOG_LEN {
        history.subrange(history.len() - LOG_LEN + 1, history.len() as int).push(message)
    } else {
        history.push(message)
    }
}

impl LogMessage {
    /// A message of level `Info`.
    pub fn info(sender: Address, message: String) -> (m: LogMessage)
        ensures
            m@ == (LogMessageView { sender, message: message@, level: Level::Info }),
    {
        LogMessage { sender, message, level: Level::Info }
    }

    /// A message of level `Error`.
    pub fn error(sender: Address, message: String) -> (m: LogMessage)
        ensures
            m@ == (LogMessageView { sender, message: message@, level: Level::Error }),
    {
        LogMessage { sender, message, level: Level::Error }
    }

    /// Who logged the message.
    pub fn sender(&self) -> (sender: Address)
        ensures
            sender == self@.sender,
    {
        self.sender
    }

    /// How grave the message is.
    pub fn level(&self) -> (level: Level)
        ensures
            level == self@.level,
    {
        self.level
    }

    /// The text of the message.
    pub fn message(&self) -> (text: &str)
        ensures
            text@ == self@.message,
    {
        self.message.as_str()
    }

    /// The message as a line of the log.
    pub fn to_string(&self) -> (s: String)
        ensures
            s@ == self@.line(),
    {
        let name = self.sender.to_string();
        let chars = to_chars(name.as_str());
        let mut s = String::new();
        push_fitted(&mut s, chars.as_slice(), SENDER_WIDTH);
        s.append(" | ");
        s.append(self.message.as_str());
        assert(s@ =~= self@.line());
        s
    }
}

/// The last messages logged, oldest first, at most `LOG_LEN` of them.
#[derive(Debug)]
pub struct LogHistory {
    messages: Vec<LogMessage>,
}

impl View for LogHistory {
    type V = Seq<LogMessage>;

    closed spec fn view(&self) -> Seq<LogMessage> {
        self.messages@
    }
}

impl LogHistory {
    #[verifier::type_invariant]
    spec fn bounded(self) -> bool {
        self.messages@.len() <= LOG_LEN
    }

    /// An empty history.
    pub fn new() -> (history: LogHistory)
        ensures
            history@ == Seq::<LogMessage>::empty(),
    {
        LogHistory { messages: Vec::new() }
    }

    /// The number of messages kept.
    pub fn len(&self) -> (n: usize)
        ensures
            n == self@.len(),
            n <= LOG_LEN,
    {
        proof {
            use_type_invariant(self);
        }
        self.messages.len()
    }

    /// Keeps `message`, and lets the oldest message go when the history is
    /// full.
    pub fn record(&mut self, message: LogMessage)
        ensures
            final(self)@ == recorded(old(self)@, message),
            final(self)@.len() <= LOG_LEN,
    {
        proof {
            use_type_invariant(&*self);
        }
        let mut messages: Vec<LogMessage> = Vec::new();
        std::mem::swap(&mut messages, &mut self.messages);
        if messages.len() == LOG_LEN {
            messages.remove(0);
            assert(messages@ =~= old(self)@.subrange(1, old(self)@.len() as int));
        }
        messages.push(message);
        self.messages = messages;
    }
}

} // verus!
