//! The event feed: its envelope, what the session does with each frame, and
//! the request that opens the subscription.

use crate::random::{is_ascii_alphanumeric, random_alphanumeric};
use crate::text::{find, first_match, push_char, to_chars};
use vstd::prelude::*;
use vstd::string::StrSliceExecFns;
use vstd::string::StringExecFns;

verus! {

broadcast use vstd::string::group_string_axioms;

/// The number of characters of a nonce.
pub const NONCE_LEN: usize = 18;

/// One message of a topic.
#[derive(Debug)]
pub struct Message {
    /// The topic that the message belongs to, such as
    /// `channel-points-channel-v1.1234`.
    pub topic: String,
    /// The message itself, as the feed sent it.
    pub message: String,
}

/// The envelope of every frame of the event feed.
#[derive(Debug)]
pub enum TwitchMessage {
    /// The answer to a ping.
    Pong,
    /// The server is about to restart: connect anew.
    Reconnect,
    /// The answer to a request.
    Response,
    /// A message of a topic.
    Message {
        /// The message.
        data: Message,
    },
    /// Any other kind of frame.
    Unknown,
}

/// What the session does with a frame.
#[derive(Debug, PartialEq, Eq, Structural, Clone, Copy)]
pub enum FrameAction {
    /// Tell the heartbeat monitor that a pong was seen.
    PongSeen,
    /// Close the connection and connect anew.
    Reconnect,
    /// Send the frame to the subscribers as it came.
    Forward,
    /// Drop the frame; the session goes on.
    Drop,
}

/// The name of a topic: what stands before its first `.`. A topic without
/// `.` has no name.
pub open spec fn topic_name(topic: Seq<char>) -> Option<Seq<char>> {
    match first_match(topic, seq!['.'], 0) {
        Some(k) => Some(topic.subrange(0, k)),
        None => None,
    }
}

/// The session's rule for a frame. `None` stands for a frame that could
/// not be decoded.
pub open spec fn frame_rule(frame: Option<TwitchMessage>) -> FrameAction {
    match frame {
        Some(TwitchMessage::Pong) => FrameAction::PongSeen,
        Some(TwitchMessage::Reconnect) => FrameAction::Reconnect,
        Some(TwitchMessage::Message { .. }) => FrameAction::Forward,
        Some(TwitchMessage::Response) => FrameAction::Drop,
        Some(TwitchMessage::Unknown) => FrameAction::Drop,
        None => FrameAction::Drop,
    }
}

/// The four topics listened to for a channel.
pub open spec fn topics_of(channel_id: Seq<char>) -> Seq<Seq<char>> {
    seq![
        "channel-bits-events-v2."@ + channel_id,
        "channel-points-channel-v1."@ + channel_id,
        "channel-subscribe-events-v1."@ + channel_id,
        "following."@ + channel_id,
    ]
}

/// Whether `nonce` has the form of a nonce: `NONCE_LEN` ASCII letters and
/// digits.
pub open spec fn is_nonce(nonce: Seq<char>) -> bool {
    &&& nonce.len() == NONCE_LEN
    &&& forall|i: int| 0 <= i < nonce.len() ==> is_ascii_alphanumeric(#[trigger] nonce[i])
}

/// The request that subscribes a connection to topics.
#[derive(Debug)]
pub struct ListenRequest {
    /// The kind of request: `LISTEN`.
    pub kind: String,
    /// The token that ties the answer to this request.
    pub nonce: String,
    /// The topics to listen to.
    pub topics: Vec<String>,
    /// The token that grants access to the topics.
    pub auth_token: String,
}

/// The heartbeat that the session sends to the feed.
#[derive(Debug)]
pub struct PingRequest {
    /// The kind of request: `PING`.
    pub kind: String,
}

/// A listen request as mathematical values.
pub struct ListenRequestView {
    pub kind: Seq<char>,
    pub nonce: Seq<char>,
    pub topics: Seq<Seq<char>>,
    pub auth_token: Seq<char>,
}

impl View for ListenRequest {
    type V = ListenRequestView;

    open spec fn view(&self) -> ListenRequestView {
        ListenRequestView {
            kind: self.kind@,
            nonce: self.nonce@,
            topics: Seq::new(self.topics@.len(), |i: int| self.topics@[i]@),
            auth_token: self.auth_token@,
        }
    }
}

/// The listen request for a channel.
pub open spec fn listen_for(
    channel_id: Seq<char>,
    token: Seq<char>,
    nonce: Seq<char>,
) -> ListenRequestView {
    ListenRequestView { kind: "LISTEN"@, nonce, topics: topics_of(channel_id), auth_token: token }
}

impl Message {
    /// The name of the message's topic, without the channel it is for.
    pub fn topic(&self) -> (r: Option<&str>)
        ensures
            match r {
                Some(name) => topic_name(self.topic@) == Some(name@),
                None => topic_name(self.topic@) is None,
            },
    {
        let chars = to_chars(self.topic.as_str());
        let dot: Vec<char> = vec!['.'];
        assert(dot@ =~= seq!['.']);
        match find(chars.as_slice(), dot.as_slice(), 0) {
            Some(k) => Some(self.topic.as_str().substring_char(0, k)),
            None => None,
        }
    }
}

/// What the session does with a frame of the feed. `None` stands for a
/// frame that could not be decoded.
pub fn dispatch(frame: Option<&TwitchMessage>) -> (action: FrameAction)
    ensures
        action == frame_rule(
            match frame {
                Some(f) => Some(*f),
                None => None,
            },
        ),
{
    match frame {
        Some(TwitchMessage::Pong) => FrameAction::PongSeen,
        Some(TwitchMessage::Reconnect) => FrameAction::Reconnect,
        Some(TwitchMessage::Message { .. }) => FrameAction::Forward,
        Some(TwitchMessage::Response) => FrameAction::Drop,
        Some(TwitchMessage::Unknown) => FrameAction::Drop,
        None => FrameAction::Drop,
    }
}

/// `head` followed by `tail`.
fn joined(head: &str, tail: &str) -> (s: String)
    ensures
        s@ == head@ + tail@,
{
    let mut s = head.to_owned();
    s.append(tail);
    s
}

/// The four topics listened to for a channel.
pub fn topics(channel_id: &str) -> (out: Vec<String>)
    ensures
        out@.len() == 4,
        forall|i: int| 0 <= i < 4 ==> (#[trigger] out@[i])@ == topics_of(channel_id@)[i],
{
    let mut out: Vec<String> = Vec::new();
    out.push(joined("channel-bits-events-v2.", channel_id));
    out.push(joined("channel-points-channel-v1.", channel_id));
    out.push(joined("channel-subscribe-events-v1.", channel_id));
    out.push(joined("following.", channel_id));
    out
}

/// The listen request for a channel, with the given nonce.
pub fn listen_request(channel_id: &str, token: &str, nonce: String) -> (request: ListenRequest)
    ensures
        request@ == listen_for(channel_id@, token@, nonce@),
{
    let request = ListenRequest {
        kind: "LISTEN".to_owned(),
        nonce,
        topics: topics(channel_id),
        auth_token: token.to_owned(),
    };
    assert(request@.topics =~= topics_of(channel_id@));
    request
}

/// The heartbeat request.
pub fn ping_request() -> (request: PingRequest)
    ensures
        request.kind@ == "PING"@,
{
    PingRequest { kind: "PING".to_owned() }
}

/// A nonce drawn anew.
pub fn nonce() -> (s: String)
    ensures
        is_nonce(s@),
{
    let mut s = String::new();
    let mut i: usize = 0;
    while i < NONCE_LEN
        invariant
            i <= NONCE_LEN,
            s@.len() == i,
            forall|j: int| 0 <= j < i ==> is_ascii_alphanumeric(#[trigger] s@[j]),
        decreases NONCE_LEN - i,
    {
        let b = random_alphanumeric();
        push_char(&mut s, b as char);
        i += 1;
    }
    s
}

/// The listen request for a channel, with a nonce drawn for this request
/// alone.
pub fn listen(channel_id: &str, token: &str) -> (request: ListenRequest)
    ensures
        is_nonce(request@.nonce),
        request@ == listen_for(channel_id@, token@, request@.nonce),
{
    listen_request(channel_id, token, nonce())
}

} // verus!
