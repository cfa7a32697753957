use twitch_relay::tags::TagMap;
use twitch_relay::text::{
    char_is_whitespace, contains_char, equal, find, matches_here, push_decimal, push_fitted,
    split, starts_with, to_chars, to_text, trim,
};

fn chars(s: &str) -> Vec<char> {
    s.chars().collect()
}

fn text(chars: &[char]) -> String {
    chars.iter().collect()
}

#[test]
fn to_chars_and_to_text_are_inverse() {
    for s in ["", "a", "hello world", "héllo ✓ 日本語", "\r\n\t "] {
        let cs = to_chars(s);
        assert_eq!(cs, chars(s));
        assert_eq!(to_text(&cs), s);
    }
}

#[test]
fn whitespace_is_the_unicode_property() {
    let mut n: u32 = 0;
    while n <= 0x10FFFF {
        if let Some(c) = char::from_u32(n) {
            assert_eq!(char_is_whitespace(c), c.is_whitespace(), "U+{:04X}", n);
        }
        n += 1;
    }
}

#[test]
fn trim_agrees_with_std() {
    for s in [
        "",
        " ",
        "   ",
        "a",
        " a",
        "a ",
        "  a b  ",
        "\t\r\n x y \u{a0}\u{3000}",
        "\u{2003}wide\u{2003}",
        "#chan\n",
        "x\u{200b}",
    ] {
        let cs = chars(s);
        assert_eq!(text(trim(&cs)), s.trim(), "{:?}", s);
    }
}

#[test]
fn split_agrees_with_std() {
    let seps = [' ', ','];
    for s in ["", "a", "a b", "a, b", ",a,,b ", " ", ",", "#x,#y #z", "no-separator", "a  b"] {
        let cs = chars(s);
        let got: Vec<String> = split(&cs, &seps).into_iter().map(text).collect();
        let want: Vec<String> = s.split(&seps[..]).map(String::from).collect();
        assert_eq!(got, want, "{:?}", s);
    }
}

#[test]
fn split_gives_one_piece_more_than_separators() {
    let cs = chars(";a;;b;");
    let pieces = split(&cs, &[';']);
    let got: Vec<String> = pieces.into_iter().map(text).collect();
    assert_eq!(got, vec!["", "a", "", "b", ""]);
}

#[test]
fn find_gives_the_first_match_from_the_start_index() {
    let hay = chars("abcabcab");
    let pat = chars("ca");
    assert_eq!(find(&hay, &pat, 0), Some(2));
    assert_eq!(find(&hay, &pat, 2), Some(2));
    assert_eq!(find(&hay, &pat, 3), Some(5));
    assert_eq!(find(&hay, &pat, 6), None);
    assert_eq!(find(&hay, &pat, 100), None);
    assert_eq!(find(&hay, &chars("abcabcabc"), 0), None);
    assert_eq!(find(&hay, &chars(""), 3), Some(3));
    assert_eq!(find(&hay, &chars(""), 8), Some(8));
    assert_eq!(find(&hay, &chars(""), 9), None);
    assert_eq!(find(&chars(""), &chars(""), 0), Some(0));
}

#[test]
fn matches_here_checks_one_position() {
    let hay = chars("hello");
    assert!(matches_here(&hay, &chars("ell"), 1));
    assert!(!matches_here(&hay, &chars("ell"), 0));
    assert!(!matches_here(&hay, &chars("lo!"), 3));
    assert!(matches_here(&hay, &chars(""), 5));
    assert!(!matches_here(&hay, &chars(""), 6));
    assert!(starts_with(&hay, &chars("he")));
    assert!(!starts_with(&hay, &chars("el")));
    assert!(equal(&hay, &chars("hello")));
    assert!(!equal(&hay, &chars("hell")));
    assert!(!equal(&hay, &chars("hellp")));
    assert!(contains_char(&hay, 'o'));
    assert!(!contains_char(&hay, 'x'));
}

#[test]
fn decimal_agrees_with_std() {
    for n in [0usize, 1, 9, 10, 11, 99, 100, 12345, 1000000, usize::MAX] {
        let mut s = String::from("n=");
        push_decimal(&mut s, n);
        assert_eq!(s, format!("n={}", n));
    }
}

#[test]
fn fitted_text_agrees_with_std() {
    for name in ["", "Chat", "ChannelPoints", "exactly15chars!", "Connection(12345)", "ünïcödé"] {
        let mut s = String::from("[");
        push_fitted(&mut s, &chars(name), 15);
        s.push(']');
        assert_eq!(s, format!("[{:15.15}]", name));
    }
}

#[test]
fn tag_map_insert_and_get() {
    let mut tags = TagMap::new();
    assert!(tags.is_empty());
    assert_eq!(tags.len(), 0);
    assert!(tags.get("a").is_none());
    tags.insert("a".to_string(), "1".to_string());
    tags.insert("b".to_string(), "2".to_string());
    assert_eq!(tags.len(), 2);
    assert_eq!(tags.get("a").unwrap(), "1");
    assert_eq!(tags.get("b").unwrap(), "2");
    assert!(tags.contains_key("a"));
    assert!(!tags.contains_key("c"));
    tags.insert("a".to_string(), "3".to_string());
    assert_eq!(tags.len(), 2);
    assert_eq!(tags.get("a").unwrap(), "3");
    assert_eq!(tags.get("b").unwrap(), "2");
    assert!(!tags.is_empty());
}

#[test]
fn tag_map_entries_hold_each_key_once() {
    let mut tags = TagMap::new();
    tags.insert("x".to_string(), "1".to_string());
    tags.insert("y".to_string(), "2".to_string());
    tags.insert("x".to_string(), "9".to_string());
    let mut entries = tags.entries();
    entries.sort();
    assert_eq!(
        entries,
        vec![("x".to_string(), "9".to_string()), ("y".to_string(), "2".to_string())]
    );
}
