//! The events of the chat feed.

use crate::tags::TagMap;
use vstd::prelude::*;

verus! {

/// One event read from a chat line.
#[derive(Debug)]
pub enum Irc {
    /// The channel's chat was cleared. Carries no user fields.
    ClearChat,
    /// A message sent to a channel.
    Message(IrcMessage),
}

/// A message sent to a channel.
#[derive(Debug)]
pub struct IrcMessage {
    /// Login name of the sender.
    pub user: String,
    /// Channel name, without its leading `#`.
    pub channel: String,
    /// Text of the message. For an action it is the text inside the wrapper.
    pub message: String,
    /// Whether the message was sent as an action (`/me`).
    pub action: bool,
    /// Tags that came with the line.
    pub tags: TagMap,
}

/// What an `IrcMessage` holds, as mathematical values.
pub struct IrcMessageView {
    pub user: Seq<char>,
    pub channel: Seq<char>,
    pub message: Seq<char>,
    pub action: bool,
    pub tags: Map<Seq<char>, Seq<char>>,
}

/// What an `Irc` event holds, as mathematical values.
pub enum IrcView {
    ClearChat,
    Message(IrcMessageView),
}

impl View for IrcMessage {
    type V = IrcMessageView;

    open spec fn view(&self) -> IrcMessageView {
        IrcMessageView {
            user: self.user@,
            channel: self.channel@,
            message: self.message@,
            action: self.action,
            tags: self.tags@,
        }
    }
}

impl View for Irc {
    type V = IrcView;

    open spec fn view(&self) -> IrcView {
        match self {
            Irc::ClearChat => IrcView::ClearChat,
            Irc::Message(m) => IrcView::Message(m@),
        }
    }
}

impl IrcMessage {
    /// A message with the given fields.
    pub fn new(user: String, channel: String, message: String, action: bool, tags: TagMap) -> (m:
        IrcMessage)
        ensures
            m.user == user,
            m.channel == channel,
            m.message == message,
            m.action == action,
            m.tags == tags,
    {
        IrcMessage { user, channel, message, action, tags }
    }
}

} // verus!
