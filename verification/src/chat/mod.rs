//! The chat feed: what opens it, and what the session does with each line
//! and with each payload injected over the bus.

pub mod parse;

use crate::config::Config;
use crate::irc::{Irc, IrcView};
use crate::text::{matches_at, starts_with, to_chars};
use parse::{parse, parse_chars, parse_line};
use vstd::prelude::*;
use vstd::string::StringExecFns;
use vstd::utf8::{decode_utf8, valid_utf8};

verus! {

broadcast use vstd::string::group_string_axioms;

/// What the session does with a line of the feed.
#[derive(Debug)]
pub enum LineAction {
    /// Answer the server's ping with `pong()`; the line goes no further.
    Pong,
    /// Hand the event to the subscribers.
    Publish(Irc),
    /// Drop the line; the session goes on.
    Drop,
}

/// A `LineAction` as mathematical values.
pub enum LineActionView {
    Pong,
    Publish(IrcView),
    Drop,
}

impl View for LineAction {
    type V = LineActionView;

    open spec fn view(&self) -> LineActionView {
        match self {
            LineAction::Pong => LineActionView::Pong,
            LineAction::Publish(event) => LineActionView::Publish(event@),
            LineAction::Drop => LineActionView::Drop,
        }
    }
}

/// How a ping of the server begins.
pub open spec fn ping() -> Seq<char> {
    seq!['P', 'I', 'N', 'G']
}

/// The session's rule for a line. A ping is answered before the grammar is
/// tried; any other line is relayed if it stands for an event.
pub open spec fn line_rule(line: Seq<char>) -> LineActionView {
    if matches_at(line, ping(), 0) {
        LineActionView::Pong
    } else {
        match parse_line(line) {
            Some(event) => LineActionView::Publish(event),
            None => LineActionView::Drop,
        }
    }
}

/// The lines that open the chat feed: the credential, the nickname, the
/// request for tags and commands, then one join for each channel.
pub open spec fn handshake_lines(token: Seq<char>, nick: Seq<char>, channels: Seq<Seq<char>>) -> Seq<
    Seq<char>,
> {
    seq![
        "PASS oauth:"@ + token + "\r\n"@,
        "NICK "@ + nick + "\r\n"@,
        "CAP REQ :twitch.tv/tags twitch.tv/commands\r\n"@,
    ] + Seq::new(channels.len(), |i: int| "JOIN "@ + channels[i] + "\r\n"@)
}

/// The event that a payload from the bus stands for: the payload must be
/// UTF-8 and read as a chat line.
pub open spec fn injected(payload: Seq<u8>) -> Option<IrcView> {
    if valid_utf8(payload) {
        parse_line(decode_utf8(payload))
    } else {
        None
    }
}

/// What the session does with a line of the feed.
pub fn on_line(line: &str) -> (action: LineAction)
    ensures
        action@ == line_rule(line@),
{
    let chars = to_chars(line);
    let ping_chars: Vec<char> = vec!['P', 'I', 'N', 'G'];
    assert(ping_chars@ =~= ping());
    if starts_with(chars.as_slice(), ping_chars.as_slice()) {
        LineAction::Pong
    } else {
        match parse_chars(chars.as_slice()) {
            Some(event) => LineAction::Publish(event),
            None => LineAction::Drop,
        }
    }
}

/// The answer to the server's ping.
pub fn pong() -> (s: String)
    ensures
        s@ == "PONG"@,
{
    "PONG".to_owned()
}

/// `head`, `middle` and the line terminator.
fn line(head: &str, middle: &str) -> (s: String)
    ensures
        s@ == head@ + middle@ + "\r\n"@,
{
    let mut s = head.to_owned();
    s.append(middle);
    s.append("\r\n");
    s
}

/// The lines that open the chat feed, in the order in which they are sent.
pub fn handshake(config: &Config) -> (lines: Vec<String>)
    ensures
        lines@.len() == 3 + config@.irc_channels.len(),
        forall|i: int|
            0 <= i < lines@.len() ==> (#[trigger] lines@[i])@ == handshake_lines(
                config@.token,
                config@.nick,
                config@.irc_channels,
            )[i],
{
    let mut lines: Vec<String> = Vec::new();
    lines.push(line("PASS oauth:", config.token.as_str()));
    lines.push(line("NICK ", config.nick.as_str()));
    lines.push("CAP REQ :twitch.tv/tags twitch.tv/commands\r\n".to_owned());
    let mut i: usize = 0;
    while i < config.irc_channels.len()
        invariant
            i <= config.irc_channels@.len(),
            lines@.len() == 3 + i,
            forall|j: int|
                0 <= j < lines@.len() ==> (#[trigger] lines@[j])@ == handshake_lines(
                    config@.token,
                    config@.nick,
                    config@.irc_channels,
                )[j],
        decreases config.irc_channels@.len() - i,
    {
        lines.push(line("JOIN ", config.irc_channels[i].as_str()));
        i += 1;
    }
    lines
}

/// The text that `bytes` encode, if they are UTF-8.
///
/// Trusted: wraps `std::str::from_utf8`, which the standard library
/// documents as succeeding exactly on valid UTF-8 and as returning the
/// same bytes seen as text.
#[verifier::external_body]
fn utf8_text(bytes: &[u8]) -> (r: Option<&str>)
    ensures
        match r {
            Some(text) => valid_utf8(bytes@) && text@ == decode_utf8(bytes@),
            None => !valid_utf8(bytes@),
        },
{
    match std::str::from_utf8(bytes) {
        Ok(text) => Some(text),
        Err(_) => None,
    }
}

/// Reads a payload from the bus as a chat line, as if it had come from the
/// feed. Returns nothing for a payload that is no UTF-8 or no event.
pub fn decode_command(payload: &[u8]) -> (r: Option<Irc>)
    ensures
        match r {
            Some(event) => injected(payload@) == Some(event@),
            None => injected(payload@) is None,
        },
{
    match utf8_text(payload) {
        Some(text) => parse(text),
        None => None,
    }
}

} // verus!
