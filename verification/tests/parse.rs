use twitch_relay::chat::parse::{parse, parse_chars, parse_msg, parse_tags, Cursor};
use twitch_relay::irc::{Irc, IrcMessage};
use twitch_relay::tags::TagMap;

fn chars(s: &str) -> Vec<char> {
    s.chars().collect()
}

fn text(chars: &[char]) -> String {
    chars.iter().collect()
}

fn message(input: &str) -> IrcMessage {
    match parse(input) {
        Some(Irc::Message(m)) => m,
        other => panic!("not a message: {:?}", other),
    }
}

#[test]
fn test_parse_message_with_tags() {
    let input = "@badge-info=subscriber/17;badges=broadcaster/1,subscriber/3009;client-nonce=d72eefc2eb1c108b085ecb9c2492afa4;color=#5F9EA0;display-name=togglebit;emotes=;flags=;id=0136c224-4c6d-4554-b5ad-17b6a70ad96d;mod=0;room-id=474725923;subscriber=1;tmi-sent-ts=1632681408560;turbo=0;user-id=474725923;user-type= :togglebit!togglebit@togglebit.tmi.twitch.tv PRIVMSG #togglebit :test\r\n";
    let msg = match parse(input).unwrap() {
        Irc::Message(msg) => msg,
        _ => panic!("Incorrect message type"),
    };
    assert_eq!(msg.user, "togglebit");
    assert_eq!(msg.tags.get("color").unwrap(), "#5F9EA0");
}

#[test]
fn test_parse_message_without_tags() {
    let input = ":randomuser!randomuser@randomuser.tmi.twitch.tv PRIVMSG #togglebit :some random message\r\n";
    let msg = parse(input).unwrap();
    assert!(matches!(msg, Irc::Message(ref m) if m.user == "randomuser"));
}

#[test]
fn parse_command() {
    let input = "@room-id=474725923;tmi-sent-ts=1632686729261 :tmi.twitch.tv CLEARCHAT #togglebit\r\n";
    let msg = parse(input).unwrap();
    assert!(matches!(msg, Irc::ClearChat));
}

#[test]
fn parse_action() {
    let input = "@badge-info=subscriber/17;badges=broadcaster/1,subscriber/3009;color=#5F9EA0;display-name=togglebit;emotes=;flags=;id=4c4205a5-cce1-497f-8ea7-aed18a3b113e;mod=0;room-id=474725923;subscriber=1;tmi-sent-ts=1632729819621;turbo=0;user-id=474725923;user-type= :togglebit!togglebit@togglebit.tmi.twitch.tv PRIVMSG #togglebit :\u{1}ACTION test\u{1}\r\n";
    let msg = parse(input).unwrap();
    assert!(matches!(msg, Irc::Message(ref m) if m.user == "togglebit" && m.action));
}

#[test]
fn full_tag_line_gives_every_field() {
    let m = message(
        "@color=#5F9EA0;id=abc :alice!alice@alice.tmi.twitch.tv PRIVMSG #foo :hello\r\n",
    );
    assert_eq!(m.user, "alice");
    assert_eq!(m.channel, "foo");
    assert_eq!(m.message, "hello");
    assert!(!m.action);
    assert_eq!(m.tags.get("color").unwrap(), "#5F9EA0");
    assert_eq!(m.tags.get("id").unwrap(), "abc");
    assert_eq!(m.tags.len(), 2);
}

#[test]
fn action_text_is_unwrapped() {
    let m = message(":bob!bob@bob.tmi.twitch.tv PRIVMSG #foo :\u{1}ACTION waves\u{1}\r\n");
    assert_eq!(m.message, "waves");
    assert!(m.action);
    assert_eq!(m.user, "bob");
    assert_eq!(m.channel, "foo");
}

#[test]
fn clearchat_has_no_user_fields() {
    let event = parse(":tmi.twitch.tv CLEARCHAT #foo\r\n").unwrap();
    assert!(matches!(event, Irc::ClearChat));
    let event = parse("@room-id=1 :tmi.twitch.tv CLEARCHAT #foo :someone\r\n").unwrap();
    assert!(matches!(event, Irc::ClearChat));
}

#[test]
fn line_without_tags_has_empty_tag_map() {
    let m = message(":carol!carol@carol.tmi.twitch.tv PRIVMSG #bar :good morning\r\n");
    assert!(m.tags.is_empty());
    assert_eq!(m.tags.len(), 0);
    assert!(m.tags.get("color").is_none());
    assert_eq!(m.user, "carol");
    assert_eq!(m.channel, "bar");
    assert_eq!(m.message, "good morning");
    assert!(!m.action);
}

#[test]
fn empty_tag_value_is_kept() {
    let m = message("@emotes=;flags=;mod=0 :a!a@a PRIVMSG #c :x\r\n");
    assert_eq!(m.tags.get("emotes").unwrap(), "");
    assert_eq!(m.tags.get("flags").unwrap(), "");
    assert_eq!(m.tags.get("mod").unwrap(), "0");
    assert!(m.tags.contains_key("emotes"));
    assert_eq!(m.tags.len(), 3);
}

#[test]
fn tag_without_equals_has_empty_value() {
    let m = message("@solo;k=v :a!a@a PRIVMSG #c :x\r\n");
    assert_eq!(m.tags.get("solo").unwrap(), "");
    assert_eq!(m.tags.get("k").unwrap(), "v");
    assert_eq!(m.tags.len(), 2);
}

#[test]
fn last_tag_value_ends_before_the_space() {
    let m = message("@a=1;user-type=mod :a!a@a PRIVMSG #c :x\r\n");
    assert_eq!(m.tags.get("user-type").unwrap(), "mod");
    let m = message("@a=1;user-type= :a!a@a PRIVMSG #c :x\r\n");
    assert_eq!(m.tags.get("user-type").unwrap(), "");
}

#[test]
fn tag_value_may_hold_equals() {
    let m = message("@k=a=b :a!a@a PRIVMSG #c :x\r\n");
    assert_eq!(m.tags.get("k").unwrap(), "a=b");
}

#[test]
fn later_tag_wins_over_earlier() {
    let m = message("@k=1;other=x;k=2 :a!a@a PRIVMSG #c :x\r\n");
    assert_eq!(m.tags.get("k").unwrap(), "2");
    assert_eq!(m.tags.len(), 2);
}

#[test]
fn trailing_text_may_hold_colons() {
    let m = message(":a!a@a PRIVMSG #c :see: http://x.y/z :)\r\n");
    assert_eq!(m.message, "see: http://x.y/z :)");
    assert_eq!(m.channel, "c");
}

#[test]
fn empty_trailing_text_is_an_empty_message() {
    let m = message(":a!a@a PRIVMSG #c :\r\n");
    assert_eq!(m.message, "");
    assert_eq!(m.channel, "c");
    assert!(!m.action);
}

#[test]
fn colon_without_space_before_it_still_splits() {
    let m = message(":a!a@a PRIVMSG #c:hi\r\n");
    assert_eq!(m.channel, "c");
    assert_eq!(m.message, "hi");
}

#[test]
fn message_without_trailing_part_has_empty_text() {
    let m = message(":a!a@a PRIVMSG #c\r\n");
    assert_eq!(m.channel, "c");
    assert_eq!(m.message, "");
}

#[test]
fn channel_without_hash_is_kept_as_it_is() {
    let m = message(":a!a@a PRIVMSG chan :hi\r\n");
    assert_eq!(m.channel, "chan");
}

#[test]
fn only_one_hash_is_stripped() {
    let m = message(":a!a@a PRIVMSG ##c :hi\r\n");
    assert_eq!(m.channel, "#c");
}

#[test]
fn parameter_is_trimmed() {
    let m = message(":a!a@a PRIVMSG   #c   :hi\r\n");
    assert_eq!(m.channel, "c");
}

#[test]
fn prefix_without_leading_colon_is_accepted() {
    let m = message("dave!dave@dave PRIVMSG #c :hi\r\n");
    assert_eq!(m.user, "dave");
}

#[test]
fn only_a_leading_colon_is_stripped_from_the_prefix() {
    let m = message(":a:b!x PRIVMSG #c :hi\r\n");
    assert_eq!(m.user, "a:b");
}

#[test]
fn prefix_without_bang_gives_no_message() {
    assert!(parse(":tmi.twitch.tv PRIVMSG #c :hi\r\n").is_none());
}

#[test]
fn other_commands_give_no_event() {
    assert!(parse(":tmi.twitch.tv 001 nick :Welcome, GLHF!\r\n").is_none());
    assert!(parse(":a!a@a JOIN #c\r\n").is_none());
    assert!(parse(":a!a@a privmsg #c :hi\r\n").is_none());
    assert!(parse(":a!a@a PRIVMSGS #c :hi\r\n").is_none());
}

#[test]
fn line_without_terminator_gives_no_event() {
    assert!(parse(":a!a@a PRIVMSG #c :hi").is_none());
    assert!(parse(":a!a@a PRIVMSG #c :hi\n").is_none());
    assert!(parse(":a!a@a PRIVMSG #c :hi\r").is_none());
}

#[test]
fn line_cut_short_gives_no_event() {
    assert!(parse("").is_none());
    assert!(parse("\r\n").is_none());
    assert!(parse("@").is_none());
    assert!(parse("@a=b").is_none());
    assert!(parse("@a=b ").is_none());
    assert!(parse(":a!a@a").is_none());
    assert!(parse(":a!a@a PRIVMSG").is_none());
    assert!(parse(":a!a@a PRIVMSG\r\n").is_none());
    assert!(parse("@a=b :a!a@a PRIVMSG\r\n").is_none());
}

#[test]
fn text_stops_at_the_first_terminator() {
    let m = message(":a!a@a PRIVMSG #c :one\r\n:b!b@b PRIVMSG #c :two\r\n");
    assert_eq!(m.user, "a");
    assert_eq!(m.message, "one");
}

#[test]
fn action_needs_both_ends_of_the_wrapper() {
    let m = message(":a!a@a PRIVMSG #c :\u{1}ACTION waves\r\n");
    assert!(!m.action);
    assert_eq!(m.message, "\u{1}ACTION waves");
    let m = message(":a!a@a PRIVMSG #c :ACTION waves\u{1}\r\n");
    assert!(!m.action);
    assert_eq!(m.message, "ACTION waves\u{1}");
    let m = message(":a!a@a PRIVMSG #c :\u{1}ACTION \r\n");
    assert!(!m.action);
    assert_eq!(m.message, "\u{1}ACTION ");
}

#[test]
fn action_with_empty_text() {
    let m = message(":a!a@a PRIVMSG #c :\u{1}ACTION \u{1}\r\n");
    assert!(m.action);
    assert_eq!(m.message, "");
}

#[test]
fn text_beyond_ascii_is_kept() {
    let m = message("@display-name=Zoë :zoe!zoe@zoe PRIVMSG #café :héllo wörld ✓\r\n");
    assert_eq!(m.user, "zoe");
    assert_eq!(m.channel, "café");
    assert_eq!(m.message, "héllo wörld ✓");
    assert_eq!(m.tags.get("display-name").unwrap(), "Zoë");
}

#[test]
fn parse_chars_reads_the_same_as_parse() {
    let line = chars("@k=v :a!a@a PRIVMSG #c :hi\r\n");
    match parse_chars(&line) {
        Some(Irc::Message(m)) => {
            assert_eq!(m.user, "a");
            assert_eq!(m.channel, "c");
            assert_eq!(m.message, "hi");
            assert_eq!(m.tags.get("k").unwrap(), "v");
        }
        other => panic!("not a message: {:?}", other),
    }
}

#[test]
fn cursor_next_pat_returns_what_it_passed() {
    let src = chars("one two  three");
    let mut cursor = Cursor::new(&src);
    assert_eq!(text(cursor.next_pat(" ", false).unwrap()), "one");
    assert_eq!(text(cursor.next_pat(" ", false).unwrap()), "");
    assert_eq!(text(cursor.next_pat(" ", true).unwrap()), " ");
    assert_eq!(text(cursor.next_pat(" ", true).unwrap()), "two ");
    assert_eq!(text(cursor.next_pat(" ", true).unwrap()), " ");
    assert!(cursor.next_pat(" ", false).is_none());
    assert_eq!(text(cursor.next_pat("ee", false).unwrap()), "thr");
    assert!(cursor.next_pat("x", true).is_none());
}

#[test]
fn cursor_with_include_passes_one_character_of_the_pattern() {
    let src = chars("ab\r\ncd");
    let mut cursor = Cursor::new(&src);
    assert_eq!(text(cursor.next_pat("\r\n", true).unwrap()), "ab\r");
    assert_eq!(text(cursor.next_pat("c", false).unwrap()), "\n");
}

#[test]
fn cursor_skip_moves_past_the_pattern() {
    let src = chars(":name!rest");
    let mut cursor = Cursor::new(&src);
    assert_eq!(cursor.skip(":"), Some(()));
    assert_eq!(text(cursor.next_pat("!", false).unwrap()), "name");
    assert_eq!(cursor.skip("?"), None);
    assert_eq!(cursor.skip("!"), Some(()));
    assert_eq!(text(cursor.next_pat("t", true).unwrap()), "rest");
}

#[test]
fn cursor_with_empty_pattern_stays() {
    let src = chars("abc");
    let mut cursor = Cursor::new(&src);
    assert_eq!(text(cursor.next_pat("", false).unwrap()), "");
    assert_eq!(text(cursor.next_pat("", true).unwrap()), "a");
    assert_eq!(text(cursor.next_pat("c", false).unwrap()), "b");
}

#[test]
fn parse_tags_leaves_cursor_behind_the_space() {
    let src = chars("@a=1;b=2 rest here");
    let mut cursor = Cursor::new(&src);
    let tags = parse_tags(&mut cursor);
    assert_eq!(tags.len(), 2);
    assert_eq!(tags.get("a").unwrap(), "1");
    assert_eq!(tags.get("b").unwrap(), "2");
    assert_eq!(text(cursor.next_pat(" ", false).unwrap()), "rest");
}

#[test]
fn parse_tags_without_at_sign_reads_nothing() {
    let src = chars("a=1 rest");
    let mut cursor = Cursor::new(&src);
    let tags = parse_tags(&mut cursor);
    assert!(tags.is_empty());
    assert_eq!(text(cursor.next_pat(" ", false).unwrap()), "a=1");
}

#[test]
fn parse_tags_without_space_reads_nothing() {
    let src = chars("@a=1;b=2");
    let mut cursor = Cursor::new(&src);
    let tags = parse_tags(&mut cursor);
    assert!(tags.is_empty());
    assert_eq!(text(cursor.next_pat("=", false).unwrap()), "a");
}

#[test]
fn parse_tags_with_empty_segment_has_the_empty_key() {
    let src = chars("@ rest");
    let mut cursor = Cursor::new(&src);
    let tags = parse_tags(&mut cursor);
    assert_eq!(tags.len(), 1);
    assert_eq!(tags.get("").unwrap(), "");
}

#[test]
fn parse_msg_builds_the_message() {
    let prefix = chars(":eve!eve@eve.tmi.twitch.tv");
    let channel = chars("room");
    let trailing = chars("\u{1}ACTION dances\u{1}");
    let mut tags = TagMap::new();
    tags.insert("k".to_string(), "v".to_string());
    let m = parse_msg(&prefix, &channel, &trailing, tags).unwrap();
    assert_eq!(m.user, "eve");
    assert_eq!(m.channel, "room");
    assert_eq!(m.message, "dances");
    assert!(m.action);
    assert_eq!(m.tags.get("k").unwrap(), "v");
    assert!(parse_msg(&chars("no-bang"), &channel, &trailing, TagMap::new()).is_none());
}

#[test]
fn message_new_keeps_its_fields() {
    let mut tags = TagMap::new();
    tags.insert("color".to_string(), "#FFFFFF".to_string());
    let m = IrcMessage::new("u".to_string(), "c".to_string(), "m".to_string(), true, tags);
    assert_eq!(m.user, "u");
    assert_eq!(m.channel, "c");
    assert_eq!(m.message, "m");
    assert!(m.action);
    assert_eq!(m.tags.get("color").unwrap(), "#FFFFFF");
}
