//! The grammar of one chat line:
//!
//! ```text
//! [@tags ]:prefix COMMAND params[ :trailing]\r\n
//! ```
//!
//! A line is read in one pass from left to right. `parse_line` says, as a
//! function on the characters of the line, which event a line stands for;
//! `parse` computes it.

use crate::irc::{Irc, IrcMessage, IrcMessageView, IrcView};
use crate::tags::TagMap;
use crate::text::{
    equal, find, first_match, is_whitespace, lemma_first_match, lemma_first_match_is,
    lemma_split_append, lemma_split_single, matches_at, matches_here, split, split_on, to_chars,
    to_text, trim, trim_end, trim_start, trimmed,
};
use vstd::prelude::*;
use vstd::slice::slice_subrange;

verus! {

broadcast use vstd::string::group_string_axioms;

// ---------------------------------------------------------------------------
// The grammar
// ---------------------------------------------------------------------------

/// The separator between the parts of a line.
pub open spec fn space() -> Seq<char> {
    seq![' ']
}

/// The line terminator.
pub open spec fn crlf() -> Seq<char> {
    seq!['\r', '\n']
}

/// What opens the text of an action: the byte 1 and `ACTION `.
pub open spec fn action_open() -> Seq<char> {
    seq!['\u{1}', 'A', 'C', 'T', 'I', 'O', 'N', ' ']
}

/// The command of a channel message.
pub open spec fn privmsg() -> Seq<char> {
    seq!['P', 'R', 'I', 'V', 'M', 'S', 'G']
}

/// The command that clears a channel's chat.
pub open spec fn clearchat() -> Seq<char> {
    seq!['C', 'L', 'E', 'A', 'R', 'C', 'H', 'A', 'T']
}

/// The key of one tag: what stands before its first `=`, or all of it.
pub open spec fn tag_key(piece: Seq<char>) -> Seq<char> {
    match first_match(piece, seq!['='], 0) {
        Some(k) => piece.subrange(0, k),
        None => piece,
    }
}

/// The value of one tag: what follows its first `=`. A tag without `=` has
/// the empty value.
pub open spec fn tag_value(piece: Seq<char>) -> Seq<char> {
    match first_match(piece, seq!['='], 0) {
        Some(k) => piece.subrange(k + 1, piece.len() as int),
        None => Seq::empty(),
    }
}

/// The map that a list of tags stands for. Where a key comes twice, the
/// later tag wins.
pub open spec fn tags_of_pieces(pieces: Seq<Seq<char>>) -> Map<Seq<char>, Seq<char>>
    decreases pieces.len(),
{
    if pieces.len() == 0 {
        Map::empty()
    } else {
        tags_of_pieces(pieces.drop_last()).insert(tag_key(pieces.last()), tag_value(pieces.last()))
    }
}

/// The tags written in a tag segment: its pieces between `;`.
pub open spec fn tags_of(segment: Seq<char>) -> Map<Seq<char>, Seq<char>> {
    tags_of_pieces(split_on(segment, seq![';']))
}

/// Whether tags start at index `from` of `s`.
pub open spec fn has_tags(s: Seq<char>, from: int) -> bool {
    0 <= from < s.len() && s[from] == '@'
}

/// The tags that start at index `from` of `s`: the segment between `@` and
/// the next space. Without `@`, or without a space after it, there are none.
pub open spec fn tags_at(s: Seq<char>, from: int) -> Map<Seq<char>, Seq<char>> {
    if has_tags(s, from) {
        match first_match(s, space(), from + 1) {
            Some(sp) => tags_of(s.subrange(from + 1, sp)),
            None => Map::empty(),
        }
    } else {
        Map::empty()
    }
}

/// Where the rest of the line starts when tags may start at `from`.
pub open spec fn tags_end(s: Seq<char>, from: int) -> int {
    if has_tags(s, from) {
        match first_match(s, space(), from + 1) {
            Some(sp) => sp + 1,
            None => from + 1,
        }
    } else {
        from
    }
}

/// `s` without its first character, if that is `c`.
pub open spec fn strip_leading(s: Seq<char>, c: char) -> Seq<char> {
    if s.len() > 0 && s[0] == c {
        s.drop_first()
    } else {
        s
    }
}

/// The sender named in a prefix: what stands between an optional leading
/// `:` and the first `!`. A prefix without `!` names no sender.
pub open spec fn user_of(prefix: Seq<char>) -> Option<Seq<char>> {
    let name = strip_leading(prefix, ':');
    match first_match(name, seq!['!'], 0) {
        Some(k) => Some(name.subrange(0, k)),
        None => None,
    }
}

/// The parameter part of what follows the command: all before the first
/// `:`, or all of it.
pub open spec fn parameter_of(body: Seq<char>) -> Seq<char> {
    match first_match(body, seq![':'], 0) {
        Some(c) => body.subrange(0, c),
        None => body,
    }
}

/// The channel named by what follows the command: the parameter, trimmed,
/// without its leading `#`.
pub open spec fn channel_of(body: Seq<char>) -> Seq<char> {
    strip_leading(trimmed(parameter_of(body)), '#')
}

/// The trailing text of what follows the command: all after the first `:`.
pub open spec fn trailing_of(body: Seq<char>) -> Seq<char> {
    match first_match(body, seq![':'], 0) {
        Some(c) => body.subrange(c + 1, body.len() as int),
        None => Seq::empty(),
    }
}

/// Whether a message text is wrapped as an action: it opens with byte 1 and
/// `ACTION `, and closes with byte 1.
pub open spec fn is_action(text: Seq<char>) -> bool {
    &&& text.len() >= action_open().len() + 1
    &&& matches_at(text, action_open(), 0)
    &&& text.last() == '\u{1}'
}

/// The text of a message, taken out of the action wrapper if it has one.
pub open spec fn message_text(text: Seq<char>) -> Seq<char> {
    if is_action(text) {
        text.subrange(action_open().len() as int, text.len() - 1)
    } else {
        text
    }
}

/// The channel message made of the parts of a line.
pub open spec fn message_of(
    prefix: Seq<char>,
    channel: Seq<char>,
    text: Seq<char>,
    tags: Map<Seq<char>, Seq<char>>,
) -> Option<IrcMessageView> {
    match user_of(prefix) {
        Some(user) => Some(
            IrcMessageView {
                user,
                channel,
                message: message_text(text),
                action: is_action(text),
                tags,
            },
        ),
        None => None,
    }
}

/// The event for a line with the given parts.
pub open spec fn event_of(
    tags: Map<Seq<char>, Seq<char>>,
    prefix: Seq<char>,
    command: Seq<char>,
    body: Seq<char>,
) -> Option<IrcView> {
    if command == clearchat() {
        Some(IrcView::ClearChat)
    } else if command == privmsg() {
        match message_of(prefix, channel_of(body), trailing_of(body), tags) {
            Some(m) => Some(IrcView::Message(m)),
            None => None,
        }
    } else {
        None
    }
}

/// The event that the line `raw` stands for, if any.
///
/// After the optional tags come the prefix and the command, each ended by a
/// space, then parameters and trailing text up to the line terminator. A
/// line that lacks one of these, or has another command than the two known,
/// stands for no event.
pub open spec fn parse_line(raw: Seq<char>) -> Option<IrcView> {
    let start = tags_end(raw, 0);
    match first_match(raw, space(), start) {
        None => None,
        Some(prefix_end) => match first_match(raw, space(), prefix_end + 1) {
            None => None,
            Some(command_end) => match first_match(raw, crlf(), command_end + 1) {
                None => None,
                Some(body_end) => event_of(
                    tags_at(raw, 0),
                    raw.subrange(start, prefix_end),
                    raw.subrange(prefix_end + 1, command_end),
                    raw.subrange(command_end + 1, body_end),
                ),
            },
        },
    }
}

// ---------------------------------------------------------------------------
// What the grammar gives
// ---------------------------------------------------------------------------

/// A tag written as key, `=` and value is read back as that key and that
/// value, whatever the value holds; an empty value is a value.
pub proof fn lemma_tag_with_value(key: Seq<char>, value: Seq<char>)
    requires
        !key.contains('='),
    ensures
        tag_key(key + seq!['='] + value) == key,
        tag_value(key + seq!['='] + value) == value,
{
    let piece = key + seq!['='] + value;
    let k = key.len() as int;
    assert(piece.subrange(k, k + 1) =~= seq!['=']);
    assert forall|j: int| 0 <= j < k implies !matches_at(piece, seq!['='], j) by {
        if matches_at(piece, seq!['='], j) {
            assert(piece.subrange(j, j + 1)[0] == '=');
            assert(key[j] == '=');
        }
    }
    lemma_first_match_is(piece, seq!['='], 0, k);
    assert(piece.subrange(0, k) =~= key);
    assert(piece.subrange(k + 1, piece.len() as int) =~= value);
}

/// A tag written without `=` is a key with the empty value.
pub proof fn lemma_tag_without_value(key: Seq<char>)
    requires
        !key.contains('='),
    ensures
        tag_key(key) == key,
        tag_value(key) == Seq::<char>::empty(),
{
    lemma_first_match(key, seq!['='], 0);
    if first_match(key, seq!['='], 0) is Some {
        let k = first_match(key, seq!['='], 0)->0;
        assert(key.subrange(k, k + 1)[0] == '=');
        assert(key[k] == '=');
    }
}

/// A segment that holds one tag gives the map of that tag alone.
pub proof fn lemma_one_tag(piece: Seq<char>)
    requires
        !piece.contains(';'),
    ensures
        tags_of(piece) == Map::<Seq<char>, Seq<char>>::empty().insert(
            tag_key(piece),
            tag_value(piece),
        ),
{
    assert forall|j: int| 0 <= j < piece.len() implies !seq![';'].contains(
        #[trigger] piece[j],
    ) by {
        if seq![';'].contains(piece[j]) {
            assert(piece[j] == ';');
        }
    }
    lemma_split_single(piece, seq![';']);
    let pieces = seq![piece];
    assert(pieces.drop_last() =~= Seq::<Seq<char>>::empty());
    assert(pieces.last() == piece);
    assert(tags_of_pieces(pieces.drop_last()) == Map::<Seq<char>, Seq<char>>::empty());
    assert(tags_of_pieces(pieces) == tags_of_pieces(pieces.drop_last()).insert(
        tag_key(piece),
        tag_value(piece),
    ));
}

/// One more tag after a `;` is added to the tags before it, and wins over
/// an earlier tag of the same key.
pub proof fn lemma_one_more_tag(segment: Seq<char>, piece: Seq<char>)
    requires
        !piece.contains(';'),
    ensures
        tags_of(segment + seq![';'] + piece) == tags_of(segment).insert(
            tag_key(piece),
            tag_value(piece),
        ),
{
    assert forall|j: int| 0 <= j < piece.len() implies !seq![';'].contains(
        #[trigger] piece[j],
    ) by {
        if seq![';'].contains(piece[j]) {
            assert(piece[j] == ';');
        }
    }
    assert(seq![';'][0] == ';');
    lemma_split_append(segment, seq![';'], ';', piece);
    let before = split_on(segment, seq![';']);
    assert(before.push(piece).drop_last() =~= before);
}

/// A line that does not open with `@` carries no tags: the rest of the line
/// starts at its first character, and a message read from it has an empty
/// tag map.
pub proof fn lemma_untagged_line(raw: Seq<char>)
    requires
        raw.len() == 0 || raw[0] != '@',
    ensures
        tags_end(raw, 0) == 0,
        tags_at(raw, 0) == Map::<Seq<char>, Seq<char>>::empty(),
        parse_line(raw) matches Some(IrcView::Message(m)) ==> m.tags == Map::<
            Seq<char>,
            Seq<char>,
        >::empty(),
{
}

/// The command that clears the chat gives the event without user fields,
/// whatever the rest of the line holds.
pub proof fn lemma_clearchat_event(
    tags: Map<Seq<char>, Seq<char>>,
    prefix: Seq<char>,
    body: Seq<char>,
)
    ensures
        event_of(tags, prefix, clearchat(), body) == Some(IrcView::ClearChat),
{
}

/// A channel message takes its sender from the prefix, its channel and text
/// from what follows the command, and its tags from the line; a prefix
/// that names no sender gives no event.
pub proof fn lemma_privmsg_event(
    tags: Map<Seq<char>, Seq<char>>,
    prefix: Seq<char>,
    body: Seq<char>,
)
    ensures
        event_of(tags, prefix, privmsg(), body) == match user_of(prefix) {
            Some(user) => Some(
                IrcView::Message(
                    IrcMessageView {
                        user,
                        channel: channel_of(body),
                        message: message_text(trailing_of(body)),
                        action: is_action(trailing_of(body)),
                        tags,
                    },
                ),
            ),
            None => None,
        },
{
    assert(privmsg()[0] != clearchat()[0]);
}

/// Any command but the two known gives no event.
pub proof fn lemma_other_command(
    tags: Map<Seq<char>, Seq<char>>,
    prefix: Seq<char>,
    command: Seq<char>,
    body: Seq<char>,
)
    requires
        command != privmsg(),
        command != clearchat(),
    ensures
        event_of(tags, prefix, command, body) is None,
{
}

/// A prefix written as `:`, a name, `!` and the rest names that sender.
pub proof fn lemma_user_named(name: Seq<char>, rest: Seq<char>)
    requires
        !name.contains('!'),
    ensures
        user_of(seq![':'] + name + seq!['!'] + rest) == Some(name),
{
    let prefix = seq![':'] + name + seq!['!'] + rest;
    let stripped = name + seq!['!'] + rest;
    assert(prefix.drop_first() =~= stripped);
    let k = name.len() as int;
    assert(stripped.subrange(k, k + 1) =~= seq!['!']);
    assert forall|j: int| 0 <= j < k implies !matches_at(stripped, seq!['!'], j) by {
        if matches_at(stripped, seq!['!'], j) {
            assert(stripped.subrange(j, j + 1)[0] == '!');
            assert(name[j] == '!');
        }
    }
    lemma_first_match_is(stripped, seq!['!'], 0, k);
    assert(stripped.subrange(0, k) =~= name);
}

/// What follows the command, written as `#`, a channel name, a space, `:`
/// and a text, is read back as that name without the `#` and that text,
/// whatever the text holds, colons too.
pub proof fn lemma_channel_and_text(name: Seq<char>, text: Seq<char>)
    requires
        !name.contains(':'),
        name.len() == 0 || !is_whitespace(name.last()),
    ensures
        channel_of(seq!['#'] + name + seq![' ', ':'] + text) == name,
        trailing_of(seq!['#'] + name + seq![' ', ':'] + text) == text,
{
    let body = seq!['#'] + name + seq![' ', ':'] + text;
    let c = name.len() as int + 2;
    assert(body.subrange(c, c + 1) =~= seq![':']);
    assert forall|j: int| 0 <= j < c implies !matches_at(body, seq![':'], j) by {
        if matches_at(body, seq![':'], j) {
            assert(body.subrange(j, j + 1)[0] == ':');
            if 1 <= j <= name.len() {
                assert(name[j - 1] == ':');
            }
        }
    }
    lemma_first_match_is(body, seq![':'], 0, c);
    let parameter = seq!['#'] + name + seq![' '];
    let named = seq!['#'] + name;
    assert(body.subrange(0, c) =~= parameter);
    assert(body.subrange(c + 1, body.len() as int) =~= text);
    assert(parameter.first() == '#');
    assert(trim_start(parameter) == parameter);
    assert(parameter.drop_last() =~= named);
    assert(parameter.last() == ' ');
    assert(named.last() == if name.len() == 0 { '#' } else { name.last() });
    assert(trim_end(named) == named);
    assert(trim_end(parameter) == named);
    assert(named.drop_first() =~= name);
}

/// A text wrapped as an action is unwrapped to what stands between the
/// opening and the closing byte, and flagged.
pub proof fn lemma_action_unwrapped(text: Seq<char>)
    ensures
        is_action(action_open() + text + seq!['\u{1}']),
        message_text(action_open() + text + seq!['\u{1}']) == text,
{
    let wrapped = action_open() + text + seq!['\u{1}'];
    assert(wrapped.subrange(0, action_open().len() as int) =~= action_open());
    assert(wrapped.subrange(action_open().len() as int, wrapped.len() - 1) =~= text);
}

/// A text that is not wrapped as an action is kept as it is.
pub proof fn lemma_plain_text_kept(text: Seq<char>)
    requires
        !is_action(text),
    ensures
        message_text(text) == text,
{
}

/// Whether `s` holds the line terminator somewhere.
pub open spec fn holds_crlf(s: Seq<char>) -> bool {
    exists|j: int| #[trigger] matches_at(s, crlf(), j)
}

proof fn lemma_space_after(line: Seq<char>, from: int, token: Seq<char>)
    requires
        0 <= from,
        from + token.len() < line.len(),
        line.subrange(from, from + token.len()) == token,
        !token.contains(' '),
        line[from + token.len()] == ' ',
    ensures
        first_match(line, space(), from) == Some(from + token.len()),
{
    let k = from + token.len();
    assert(line.subrange(k, k + 1) =~= space());
    assert forall|j: int| from <= j < k implies !matches_at(line, space(), j) by {
        if matches_at(line, space(), j) {
            assert(line.subrange(j, j + 1)[0] == ' ');
            assert(token[j - from] == line.subrange(from, k)[j - from]);
            assert(token.contains(' '));
        }
    }
    lemma_first_match_is(line, space(), from, k);
}

proof fn lemma_crlf_after(line: Seq<char>, from: int, body: Seq<char>)
    requires
        0 <= from,
        from + body.len() + 2 <= line.len(),
        line.subrange(from, from + body.len()) == body,
        !holds_crlf(body),
        line[from + body.len()] == '\r',
        line[from + body.len() + 1] == '\n',
    ensures
        first_match(line, crlf(), from) == Some(from + body.len()),
{
    let k = from + body.len();
    assert(line.subrange(k, k + 2) =~= crlf());
    assert forall|j: int| from <= j < k implies !matches_at(line, crlf(), j) by {
        if matches_at(line, crlf(), j) {
            assert(line.subrange(j, j + 2)[0] == '\r');
            assert(line.subrange(j, j + 2)[1] == '\n');
            if j + 1 < k {
                assert(body.subrange(j - from, j - from + 2) =~= line.subrange(j, j + 2));
                assert(matches_at(body, crlf(), j - from));
            }
        }
    }
    lemma_first_match_is(line, crlf(), from, k);
}

/// Every line written by the grammar without tags is read back part by
/// part: prefix, command and what follows, with whatever comes after the
/// terminator left aside.
pub proof fn lemma_parse_untagged(
    prefix: Seq<char>,
    command: Seq<char>,
    body: Seq<char>,
    rest: Seq<char>,
)
    requires
        prefix.len() == 0 || prefix[0] != '@',
        !prefix.contains(' '),
        !command.contains(' '),
        !holds_crlf(body),
    ensures
        parse_line(prefix + space() + command + space() + body + crlf() + rest) == event_of(
            Map::empty(),
            prefix,
            command,
            body,
        ),
{
    let line = prefix + space() + command + space() + body + crlf() + rest;
    let prefix_stop = prefix.len() as int;
    let command_stop = prefix_stop + 1 + command.len();
    let body_stop = command_stop + 1 + body.len();
    assert(line.subrange(0, prefix_stop) =~= prefix);
    assert(line.subrange(prefix_stop + 1, command_stop) =~= command);
    assert(line.subrange(command_stop + 1, body_stop) =~= body);
    assert(line[prefix_stop] == ' ');
    assert(line[command_stop] == ' ');
    assert(line[body_stop] == '\r');
    assert(line[body_stop + 1] == '\n');
    if prefix.len() > 0 {
        assert(line[0] == prefix[0]);
    }
    lemma_untagged_line(line);
    lemma_space_after(line, 0, prefix);
    lemma_space_after(line, prefix_stop + 1, command);
    lemma_crlf_after(line, command_stop + 1, body);
}

/// Every line written by the grammar with tags is read back part by part,
/// and its tags are those of the segment between `@` and the first space.
pub proof fn lemma_parse_tagged(
    segment: Seq<char>,
    prefix: Seq<char>,
    command: Seq<char>,
    body: Seq<char>,
    rest: Seq<char>,
)
    requires
        !segment.contains(' '),
        !prefix.contains(' '),
        !command.contains(' '),
        !holds_crlf(body),
    ensures
        parse_line(
            seq!['@'] + segment + space() + prefix + space() + command + space() + body + crlf()
                + rest,
        ) == event_of(tags_of(segment), prefix, command, body),
{
    let line = seq!['@'] + segment + space() + prefix + space() + command + space() + body
        + crlf() + rest;
    let tags_stop = 1 + segment.len() as int;
    let prefix_stop = tags_stop + 1 + prefix.len();
    let command_stop = prefix_stop + 1 + command.len();
    let body_stop = command_stop + 1 + body.len();
    assert(line[0] == '@');
    assert(line.subrange(1, tags_stop) =~= segment);
    assert(line.subrange(tags_stop + 1, prefix_stop) =~= prefix);
    assert(line.subrange(prefix_stop + 1, command_stop) =~= command);
    assert(line.subrange(command_stop + 1, body_stop) =~= body);
    assert(line[tags_stop] == ' ');
    assert(line[prefix_stop] == ' ');
    assert(line[command_stop] == ' ');
    assert(line[body_stop] == '\r');
    assert(line[body_stop + 1] == '\n');
    lemma_space_after(line, 1, segment);
    lemma_space_after(line, tags_stop + 1, prefix);
    lemma_space_after(line, prefix_stop + 1, command);
    lemma_crlf_after(line, command_stop + 1, body);
}

/// Every channel message written by the grammar is read back field by
/// field: the sender from the prefix, the channel without its `#`, the text
/// out of its action wrapper if it has one, and the tags of the segment.
pub proof fn lemma_message_line(
    segment: Seq<char>,
    user: Seq<char>,
    host: Seq<char>,
    channel: Seq<char>,
    text: Seq<char>,
)
    requires
        !segment.contains(' '),
        !user.contains(' '),
        !user.contains('!'),
        !host.contains(' '),
        !channel.contains(':'),
        channel.len() == 0 || !is_whitespace(channel.last()),
        !holds_crlf(seq!['#'] + channel + seq![' ', ':'] + text),
    ensures
        parse_line(
            seq!['@'] + segment + space() + (seq![':'] + user + seq!['!'] + host) + space()
                + privmsg() + space() + (seq!['#'] + channel + seq![' ', ':'] + text) + crlf(),
        ) == Some(
            IrcView::Message(
                IrcMessageView {
                    user,
                    channel,
                    message: message_text(text),
                    action: is_action(text),
                    tags: tags_of(segment),
                },
            ),
        ),
{
    let prefix = seq![':'] + user + seq!['!'] + host;
    let body = seq!['#'] + channel + seq![' ', ':'] + text;
    assert(!prefix.contains(' ')) by {
        if prefix.contains(' ') {
            let j = choose|j: int| 0 <= j < prefix.len() && prefix[j] == ' ';
            if 1 <= j <= user.len() {
                assert(user[j - 1] == ' ');
            } else if j > user.len() + 1 {
                assert(host[j - user.len() - 2] == ' ');
            }
        }
    }
    assert(!privmsg().contains(' ')) by {
        if privmsg().contains(' ') {
            let j = choose|j: int| 0 <= j < privmsg().len() && privmsg()[j] == ' ';
        }
    }
    let line = seq!['@'] + segment + space() + prefix + space() + privmsg() + space() + body
        + crlf();
    assert(line =~= line + Seq::<char>::empty());
    lemma_parse_tagged(segment, prefix, privmsg(), body, Seq::empty());
    lemma_privmsg_event(tags_of(segment), prefix, body);
    lemma_user_named(user, host);
    lemma_channel_and_text(channel, text);
}

// ---------------------------------------------------------------------------
// Cursor
// ---------------------------------------------------------------------------

/// A position in a line that only moves forward.
pub struct Cursor<'msg> {
    pos: usize,
    src: &'msg [char],
}

impl<'msg> Cursor<'msg> {
    #[verifier::type_invariant]
    spec fn in_bounds(self) -> bool {
        self.pos <= self.src@.len()
    }

    /// The line that the cursor walks over.
    pub closed spec fn source(&self) -> Seq<char> {
        self.src@
    }

    /// How many characters of the line lie behind the cursor.
    pub closed spec fn position(&self) -> int {
        self.pos as int
    }

    /// A cursor at the start of `src`.
    pub fn new(src: &'msg [char]) -> (cursor: Cursor<'msg>)
        ensures
            cursor.source() == src@,
            cursor.position() == 0,
    {
        Cursor { pos: 0, src }
    }

    /// Moves to the next occurrence of `pat` and returns what was passed
    /// over. With `include_pat` the cursor also passes over the first
    /// character of the occurrence, and returns it with the rest. Without an
    /// occurrence the cursor stays and nothing is returned.
    pub fn next_pat(&mut self, pat: &str, include_pat: bool) -> (r: Option<&'msg [char]>)
        requires
            include_pat && pat@.len() == 0 ==> old(self).position() < old(self).source().len(),
        ensures
            final(self).source() == old(self).source(),
            0 <= old(self).position() <= final(self).position() <= old(self).source().len(),
            match first_match(old(self).source(), pat@, old(self).position()) {
                Some(at) => {
                    &&& final(self).position() == at + if include_pat { 1int } else { 0 }
                    &&& r matches Some(token)
                    &&& token@ == old(self).source().subrange(
                        old(self).position(),
                        final(self).position(),
                    )
                },
                None => final(self).position() == old(self).position() && r is None,
            },
    {
        proof {
            use_type_invariant(&*self);
        }
        let pattern = to_chars(pat);
        match find(self.src, pattern.as_slice(), self.pos) {
            Some(at) => {
                let start: usize = self.pos;
                let end: usize = if include_pat {
                    at + 1
                } else {
                    at
                };
                self.pos = end;
                Some(slice_subrange(self.src, start, end))
            },
            None => None,
        }
    }

    /// Moves past the first character of the next occurrence of `pat`.
    /// Without an occurrence the cursor stays and nothing is returned.
    pub fn skip(&mut self, pat: &str) -> (r: Option<()>)
        requires
            pat@.len() == 0 ==> old(self).position() < old(self).source().len(),
        ensures
            final(self).source() == old(self).source(),
            0 <= old(self).position() <= final(self).position() <= old(self).source().len(),
            match first_match(old(self).source(), pat@, old(self).position()) {
                Some(at) => final(self).position() == at + 1 && r is Some,
                None => final(self).position() == old(self).position() && r is None,
            },
    {
        match self.next_pat(pat, true) {
            Some(_) => Some(()),
            None => None,
        }
    }
}

// ---------------------------------------------------------------------------
// Parsing
// ---------------------------------------------------------------------------

/// Reads the tags at the cursor, if the line has any there, and leaves the
/// cursor behind the space that ends them.
pub fn parse_tags(cursor: &mut Cursor) -> (tags: TagMap)
    ensures
        final(cursor).source() == old(cursor).source(),
        final(cursor).position() == tags_end(old(cursor).source(), old(cursor).position()),
        tags@ == tags_at(old(cursor).source(), old(cursor).position()),
{
    proof {
        use_type_invariant(&*cursor);
        reveal_strlit(" ");
        assert(" "@ =~= space());
    }
    let mut tags = TagMap::new();
    if cursor.pos < cursor.src.len() && cursor.src[cursor.pos] == '@' {
        cursor.pos = cursor.pos + 1;
    } else {
        return tags;
    }
    let segment = match cursor.next_pat(" ", false) {
        Some(s) => s,
        None => {
            return tags;
        },
    };
    proof {
        lemma_first_match(cursor.source(), space(), old(cursor).position() + 1);
    }
    cursor.skip(" ");
    let semicolon: Vec<char> = vec![';'];
    let equals: Vec<char> = vec!['='];
    assert(semicolon@ =~= seq![';']);
    assert(equals@ =~= seq!['=']);
    let pieces = split(segment, semicolon.as_slice());
    let ghost all = split_on(segment@, seq![';']);
    let mut i: usize = 0;
    assert(all.take(0) =~= Seq::<Seq<char>>::empty());
    while i < pieces.len()
        invariant
            i <= pieces@.len() == all.len(),
            forall|j: int| 0 <= j < pieces@.len() ==> (#[trigger] pieces@[j])@ == all[j],
            equals@ == seq!['='],
            tags@ == tags_of_pieces(all.take(i as int)),
        decreases pieces@.len() - i,
    {
        let piece: &[char] = pieces[i];
        let (key, value) = match find(piece, equals.as_slice(), 0) {
            Some(k) => (to_text(slice_subrange(piece, 0, k)), to_text(
                slice_subrange(piece, k + 1, piece.len()),
            )),
            None => (to_text(piece), String::new()),
        };
        proof {
            assert(all.take(i + 1).drop_last() =~= all.take(i as int));
            assert(all.take(i + 1).last() == piece@);
        }
        tags.insert(key, value);
        i += 1;
    }
    assert(all.take(all.len() as int) =~= all);
    tags
}

/// Builds the channel message from the parts of a line. `param` is the
/// channel and `trailing` the text as sent.
pub fn parse_msg(prefix: &[char], param: &[char], trailing: &[char], tags: TagMap) -> (r: Option<
    IrcMessage,
>)
    ensures
        match r {
            Some(m) => message_of(prefix@, param@, trailing@, tags@) == Some(m@),
            None => message_of(prefix@, param@, trailing@, tags@) is None,
        },
{
    proof {
        reveal_strlit("!");
        assert("!"@ =~= seq!['!']);
    }
    let name: &[char] = if prefix.len() > 0 && prefix[0] == ':' {
        slice_subrange(prefix, 1, prefix.len())
    } else {
        prefix
    };
    assert(name@ =~= strip_leading(prefix@, ':'));
    let mut cursor = Cursor::new(name);
    let user = match cursor.next_pat("!", false) {
        Some(u) => u,
        None => {
            return None;
        },
    };
    let opener: Vec<char> = vec!['\u{1}', 'A', 'C', 'T', 'I', 'O', 'N', ' '];
    assert(opener@ =~= action_open());
    let n: usize = trailing.len();
    let action = n >= opener.len() + 1 && matches_here(trailing, opener.as_slice(), 0)
        && trailing[n - 1] == '\u{1}';
    let text: &[char] = if action {
        slice_subrange(trailing, opener.len(), n - 1)
    } else {
        trailing
    };
    Some(IrcMessage::new(to_text(user), to_text(param), to_text(text), action, tags))
}

/// Reads one chat line. Returns the event it stands for, and nothing for a
/// line that is cut short or has a command that is not relayed.
pub fn parse(raw: &str) -> (r: Option<Irc>)
    ensures
        match r {
            Some(event) => parse_line(raw@) == Some(event@),
            None => parse_line(raw@) is None,
        },
{
    let chars = to_chars(raw);
    parse_chars(chars.as_slice())
}

/// Reads one chat line given as characters.
pub fn parse_chars(raw: &[char]) -> (r: Option<Irc>)
    ensures
        match r {
            Some(event) => parse_line(raw@) == Some(event@),
            None => parse_line(raw@) is None,
        },
{
    proof {
        reveal_strlit(" ");
        reveal_strlit("\r\n");
        assert(" "@ =~= space());
        assert("\r\n"@ =~= crlf());
    }
    let mut cursor = Cursor::new(raw);
    let tags = parse_tags(&mut cursor);
    let ghost start = cursor.position();

    let prefix = match cursor.next_pat(" ", false) {
        Some(p) => p,
        None => {
            return None;
        },
    };
    let ghost prefix_end = cursor.position();
    proof {
        lemma_first_match(raw@, space(), start);
    }
    cursor.skip(" ");

    let command = match cursor.next_pat(" ", false) {
        Some(c) => c,
        None => {
            return None;
        },
    };
    let ghost command_end = cursor.position();
    proof {
        lemma_first_match(raw@, space(), prefix_end + 1);
    }
    cursor.skip(" ");

    let body = match cursor.next_pat("\r\n", false) {
        Some(b) => b,
        None => {
            return None;
        },
    };

    let colon: Vec<char> = vec![':'];
    assert(colon@ =~= seq![':']);
    let (param, trailing) = match find(body, colon.as_slice(), 0) {
        Some(c) => (slice_subrange(body, 0, c), slice_subrange(body, c + 1, body.len())),
        None => (body, slice_subrange(body, 0, 0)),
    };
    assert(param@ == parameter_of(body@));
    assert(trailing@ =~= trailing_of(body@));
    let param = trim(param);
    let channel: &[char] = if param.len() > 0 && param[0] == '#' {
        slice_subrange(param, 1, param.len())
    } else {
        param
    };
    assert(channel@ =~= channel_of(body@));

    let privmsg_chars: Vec<char> = vec!['P', 'R', 'I', 'V', 'M', 'S', 'G'];
    let clearchat_chars: Vec<char> = vec!['C', 'L', 'E', 'A', 'R', 'C', 'H', 'A', 'T'];
    assert(privmsg_chars@ =~= privmsg());
    assert(clearchat_chars@ =~= clearchat());
    if equal(command, clearchat_chars.as_slice()) {
        Some(Irc::ClearChat)
    } else if equal(command, privmsg_chars.as_slice()) {
        match parse_msg(prefix, channel, trailing, tags) {
            Some(m) => Some(Irc::Message(m)),
            None => None,
        }
    } else {
        None
    }
}

} // verus!
