use twitch_relay::address::{same_bytes, Address};
use twitch_relay::chat::{decode_command, handshake, on_line, pong, LineAction};
use twitch_relay::config::Config;
use twitch_relay::irc::Irc;
use twitch_relay::pubsub::{
    dispatch, listen, listen_request, nonce, ping_request, topics, FrameAction, Message,
    TwitchMessage, NONCE_LEN,
};

fn config(channels: &str) -> Config {
    Config::new(
        Some("474725923".to_string()),
        Some("secret".to_string()),
        Some("relaybot".to_string()),
        Some(channels.to_string()),
    )
    .unwrap()
}

#[test]
fn ping_line_is_answered_and_not_relayed() {
    assert!(matches!(on_line("PING :tmi.twitch.tv\r\n"), LineAction::Pong));
    assert!(matches!(on_line("PING"), LineAction::Pong));
    assert!(matches!(on_line("PINGU!x PRIVMSG #c :hi\r\n"), LineAction::Pong));
    assert_eq!(pong(), "PONG");
}

#[test]
fn ping_elsewhere_in_the_line_is_no_ping() {
    assert!(matches!(on_line(" PING :tmi.twitch.tv\r\n"), LineAction::Drop));
    assert!(matches!(on_line("ping :tmi.twitch.tv\r\n"), LineAction::Drop));
    match on_line(":a!a@a PRIVMSG #c :PING\r\n") {
        LineAction::Publish(Irc::Message(m)) => assert_eq!(m.message, "PING"),
        other => panic!("unexpected action {:?}", other),
    }
}

#[test]
fn chat_lines_are_published_or_dropped() {
    match on_line(":a!a@a PRIVMSG #c :hi\r\n") {
        LineAction::Publish(Irc::Message(m)) => {
            assert_eq!(m.user, "a");
            assert_eq!(m.channel, "c");
            assert_eq!(m.message, "hi");
        }
        other => panic!("unexpected action {:?}", other),
    }
    assert!(matches!(
        on_line(":tmi.twitch.tv CLEARCHAT #c\r\n"),
        LineAction::Publish(Irc::ClearChat)
    ));
    assert!(matches!(on_line(":tmi.twitch.tv 376 bot :>\r\n"), LineAction::Drop));
    assert!(matches!(on_line(""), LineAction::Drop));
}

#[test]
fn chat_handshake_sends_four_kinds_of_lines_in_order() {
    let lines = handshake(&config("#one,#two"));
    assert_eq!(
        lines,
        vec![
            "PASS oauth:secret\r\n",
            "NICK relaybot\r\n",
            "CAP REQ :twitch.tv/tags twitch.tv/commands\r\n",
            "JOIN #one\r\n",
            "JOIN #two\r\n",
        ]
    );
    let lines = handshake(&config("#solo"));
    assert_eq!(lines.len(), 4);
    assert_eq!(lines[3], "JOIN #solo\r\n");
}

#[test]
fn injected_payload_must_be_utf8_and_an_event() {
    match decode_command(":a!a@a PRIVMSG #c :h\u{e9}llo\r\n".as_bytes()) {
        Some(Irc::Message(m)) => {
            assert_eq!(m.user, "a");
            assert_eq!(m.message, "h\u{e9}llo");
        }
        other => panic!("unexpected result {:?}", other),
    }
    assert!(matches!(decode_command(b":tmi.twitch.tv CLEARCHAT #c\r\n"), Some(Irc::ClearChat)));
    assert!(decode_command(b"hello").is_none());
    assert!(decode_command(b"").is_none());
    assert!(decode_command(b":a!a@a PRIVMSG #c :\xff\xfe\r\n").is_none());
    assert!(decode_command(&[0xc3, 0x28]).is_none());
}

#[test]
fn frames_are_dispatched_by_kind() {
    assert_eq!(dispatch(Some(&TwitchMessage::Pong)), FrameAction::PongSeen);
    assert_eq!(dispatch(Some(&TwitchMessage::Reconnect)), FrameAction::Reconnect);
    assert_eq!(dispatch(Some(&TwitchMessage::Response)), FrameAction::Drop);
    assert_eq!(dispatch(Some(&TwitchMessage::Unknown)), FrameAction::Drop);
    assert_eq!(dispatch(None), FrameAction::Drop);
    let message = TwitchMessage::Message {
        data: Message { topic: "following.1".to_string(), message: "{}".to_string() },
    };
    assert_eq!(dispatch(Some(&message)), FrameAction::Forward);
}

#[test]
fn topic_name_ends_at_the_first_dot() {
    let m = Message { topic: "channel-points-channel-v1.474725923".to_string(), message: String::new() };
    assert_eq!(m.topic(), Some("channel-points-channel-v1"));
    let m = Message { topic: "a.b.c".to_string(), message: String::new() };
    assert_eq!(m.topic(), Some("a"));
    let m = Message { topic: ".x".to_string(), message: String::new() };
    assert_eq!(m.topic(), Some(""));
    let m = Message { topic: "no-dot".to_string(), message: String::new() };
    assert_eq!(m.topic(), None);
    let m = Message { topic: "t\u{f6}pic.1".to_string(), message: String::new() };
    assert_eq!(m.topic(), Some("t\u{f6}pic"));
}

#[test]
fn four_topics_carry_the_channel() {
    assert_eq!(
        topics("474725923"),
        vec![
            "channel-bits-events-v2.474725923",
            "channel-points-channel-v1.474725923",
            "channel-subscribe-events-v1.474725923",
            "following.474725923",
        ]
    );
}

#[test]
fn listen_request_holds_what_it_was_given() {
    let request = listen_request("42", "tok", "abcdefghijklmnopqr".to_string());
    assert_eq!(request.kind, "LISTEN");
    assert_eq!(request.nonce, "abcdefghijklmnopqr");
    assert_eq!(request.auth_token, "tok");
    assert_eq!(request.topics, topics("42"));
}

#[test]
fn ping_request_is_of_kind_ping() {
    assert_eq!(ping_request().kind, "PING");
}

#[test]
fn nonce_is_eighteen_letters_and_digits() {
    assert_eq!(NONCE_LEN, 18);
    let mut seen = Vec::new();
    for _ in 0..200 {
        let n = nonce();
        assert_eq!(n.chars().count(), 18);
        assert!(n.chars().all(|c| c.is_ascii_alphanumeric()), "{:?}", n);
        seen.push(n);
    }
    seen.sort();
    seen.dedup();
    assert!(seen.len() > 1);
}

#[test]
fn each_listen_request_draws_its_own_nonce() {
    let first = listen("42", "tok");
    let second = listen("42", "tok");
    assert_eq!(first.kind, "LISTEN");
    assert_eq!(first.topics, topics("42"));
    assert_eq!(first.auth_token, "tok");
    assert_eq!(first.nonce.len(), 18);
    assert!(first.nonce.chars().all(|c| c.is_ascii_alphanumeric()));
    assert_eq!(second.nonce.len(), 18);
    assert_ne!(first.nonce, second.nonce);
}

#[test]
fn addresses_are_read_from_their_names() {
    assert_eq!(Address::from_bytes(b"chat"), Some(Address::Chat));
    assert_eq!(Address::from_bytes(b"cpoints"), Some(Address::ChannelPoints));
    assert_eq!(Address::from_bytes(b"server"), None);
    assert_eq!(Address::from_bytes(b"Chat"), None);
    assert_eq!(Address::from_bytes(b"chat "), None);
    assert_eq!(Address::from_bytes(b""), None);
}

#[test]
fn addresses_are_written_as_text() {
    assert_eq!(Address::Chat.to_string(), "Chat");
    assert_eq!(Address::ChannelPoints.to_string(), "ChannelPoints");
    assert_eq!(Address::Server.to_string(), "Server");
    assert_eq!(Address::Connection(0).to_string(), "Connection(0)");
    assert_eq!(Address::Connection(42).to_string(), "Connection(42)");
    assert_eq!(
        Address::Connection(usize::MAX).to_string(),
        format!("Connection({})", usize::MAX)
    );
}

#[test]
fn same_bytes_compares_byte_for_byte() {
    assert!(same_bytes(b"", b""));
    assert!(same_bytes(b"abc", b"abc"));
    assert!(!same_bytes(b"abc", b"abd"));
    assert!(!same_bytes(b"abc", b"ab"));
    assert!(!same_bytes(b"", b"a"));
}
