//! Character-level helpers shared by the line grammar and the configuration
//! rules. Text is scanned as a sequence of characters, the view Verus gives
//! to `str` and `String`.

use vstd::prelude::*;
use vstd::slice::slice_subrange;
use vstd::std_specs::iter::IteratorSpec;

verus! {

broadcast use vstd::string::group_string_axioms;

// ---------------------------------------------------------------------------
// Model
// ---------------------------------------------------------------------------

/// `pat` occurs in `hay` starting at index `at`.
pub open spec fn matches_at(hay: Seq<char>, pat: Seq<char>, at: int) -> bool {
    &&& 0 <= at
    &&& at + pat.len() <= hay.len()
    &&& hay.subrange(at, at + pat.len()) =~= pat
}

/// Index of the first occurrence of `pat` in `hay` that starts at or after
/// `from`.
pub open spec fn first_match(hay: Seq<char>, pat: Seq<char>, from: int) -> Option<int>
    decreases hay.len() - from,
{
    if from < 0 || from + pat.len() > hay.len() {
        None
    } else if matches_at(hay, pat, from) {
        Some(from)
    } else {
        first_match(hay, pat, from + 1)
    }
}

/// The characters with the Unicode property `White_Space`.
pub open spec fn is_whitespace(c: char) -> bool {
    let n = c as u32;
    ||| 0x09 <= n <= 0x0d
    ||| n == 0x20
    ||| n == 0x85
    ||| n == 0xa0
    ||| n == 0x1680
    ||| 0x2000 <= n <= 0x200a
    ||| n == 0x2028
    ||| n == 0x2029
    ||| n == 0x202f
    ||| n == 0x205f
    ||| n == 0x3000
}

/// `s` without its leading whitespace.
pub open spec fn trim_start(s: Seq<char>) -> Seq<char>
    decreases s.len(),
{
    if s.len() > 0 && is_whitespace(s.first()) {
        trim_start(s.drop_first())
    } else {
        s
    }
}

/// `s` without its trailing whitespace.
pub open spec fn trim_end(s: Seq<char>) -> Seq<char>
    decreases s.len(),
{
    if s.len() > 0 && is_whitespace(s.last()) {
        trim_end(s.drop_last())
    } else {
        s
    }
}

/// `s` without leading and trailing whitespace.
pub open spec fn trimmed(s: Seq<char>) -> Seq<char> {
    trim_end(trim_start(s))
}

/// Index of the first character of `s` that is one of `seps`, or the length
/// of `s` when there is none.
pub open spec fn first_separator(s: Seq<char>, seps: Seq<char>) -> int
    decreases s.len(),
{
    if s.len() == 0 || seps.contains(s.first()) {
        0
    } else {
        1 + first_separator(s.drop_first(), seps)
    }
}

/// The pieces of `s` between separators. Two separators in a row, and a
/// separator at either end, give an empty piece, so there is always one
/// piece more than there are separators.
pub open spec fn split_on(s: Seq<char>, seps: Seq<char>) -> Seq<Seq<char>>
    decreases s.len(),
{
    let i = first_separator(s, seps);
    if 0 <= i < s.len() {
        seq![s.subrange(0, i)] + split_on(s.subrange(i + 1, s.len() as int), seps)
    } else {
        seq![s]
    }
}

/// The decimal digit for `d`, which is below ten.
pub open spec fn digit(d: nat) -> char {
    (('0' as u32) + d) as char
}

/// `n` in decimal, without sign or leading zeros.
pub open spec fn decimal(n: nat) -> Seq<char>
    decreases n,
{
    if n < 10 {
        seq![digit(n)]
    } else {
        decimal(n / 10).push(digit(n % 10))
    }
}

/// `s` cut or filled with spaces on the right to exactly `width` characters.
pub open spec fn fit_width(s: Seq<char>, width: nat) -> Seq<char> {
    if s.len() >= width {
        s.take(width as int)
    } else {
        s + Seq::new((width - s.len()) as nat, |i: int| ' ')
    }
}

// ---------------------------------------------------------------------------
// Facts about the model
// ---------------------------------------------------------------------------

/// What `first_match` returns is a match, and no match starts between `from`
/// and it.
pub proof fn lemma_first_match(hay: Seq<char>, pat: Seq<char>, from: int)
    requires
        0 <= from,
    ensures
        match first_match(hay, pat, from) {
            Some(k) => {
                &&& from <= k
                &&& matches_at(hay, pat, k)
                &&& forall|j: int| from <= j < k ==> !matches_at(hay, pat, j)
            },
            None => forall|j: int| from <= j ==> !matches_at(hay, pat, j),
        },
    decreases hay.len() - from,
{
    if from + pat.len() > hay.len() {
    } else if matches_at(hay, pat, from) {
    } else {
        lemma_first_match(hay, pat, from + 1);
    }
}

/// A match with none before it is the first match.
pub proof fn lemma_first_match_is(hay: Seq<char>, pat: Seq<char>, from: int, k: int)
    requires
        0 <= from <= k,
        matches_at(hay, pat, k),
        forall|j: int| from <= j < k ==> !matches_at(hay, pat, j),
    ensures
        first_match(hay, pat, from) == Some(k),
    decreases k - from,
{
    if from < k {
        lemma_first_match_is(hay, pat, from + 1, k);
    }
}

/// An index with a separator and none before it is the first separator.
pub proof fn lemma_first_separator_is(s: Seq<char>, seps: Seq<char>, k: int)
    requires
        0 <= k <= s.len(),
        k < s.len() ==> seps.contains(s[k]),
        forall|j: int| 0 <= j < k ==> !seps.contains(#[trigger] s[j]),
    ensures
        first_separator(s, seps) == k,
    decreases k,
{
    if k > 0 {
        let rest = s.drop_first();
        assert(!seps.contains(s[0]));
        assert forall|j: int| 0 <= j < k - 1 implies !seps.contains(#[trigger] rest[j]) by {
            assert(rest[j] == s[j + 1]);
        }
        lemma_first_separator_is(rest, seps, k - 1);
    }
}

/// A text without separators is one piece.
pub proof fn lemma_split_single(piece: Seq<char>, seps: Seq<char>)
    requires
        forall|j: int| 0 <= j < piece.len() ==> !seps.contains(#[trigger] piece[j]),
    ensures
        split_on(piece, seps) == seq![piece],
{
    lemma_first_separator_is(piece, seps, piece.len() as int);
}

/// A separator and one more piece at the end of a text add that piece to
/// the pieces of the text.
pub proof fn lemma_split_append(s: Seq<char>, seps: Seq<char>, sep: char, piece: Seq<char>)
    requires
        seps.contains(sep),
        forall|j: int| 0 <= j < piece.len() ==> !seps.contains(#[trigger] piece[j]),
    ensures
        split_on(s + seq![sep] + piece, seps) == split_on(s, seps).push(piece),
    decreases s.len(),
{
    let whole = s + seq![sep] + piece;
    let i = first_separator(s, seps);
    lemma_first_separator_facts(s, seps);
    assert forall|j: int| 0 <= j < i implies !seps.contains(#[trigger] whole[j]) by {
        assert(whole[j] == s[j]);
    }
    if i < s.len() {
        assert(whole[i] == s[i]);
        lemma_first_separator_is(whole, seps, i);
        let tail = s.subrange(i + 1, s.len() as int);
        assert(whole.subrange(0, i) =~= s.subrange(0, i));
        assert(whole.subrange(i + 1, whole.len() as int) =~= tail + seq![sep] + piece);
        lemma_split_append(tail, seps, sep, piece);
        assert(seq![s.subrange(0, i)] + split_on(tail, seps).push(piece) =~= (seq![
            s.subrange(0, i),
        ] + split_on(tail, seps)).push(piece));
    } else {
        assert(whole[i] == sep);
        lemma_first_separator_is(whole, seps, i);
        assert(whole.subrange(0, i) =~= s);
        assert(whole.subrange(i + 1, whole.len() as int) =~= piece);
        lemma_split_single(piece, seps);
        assert(seq![s] + seq![piece] =~= seq![s].push(piece));
    }
}

/// `first_separator` stays within the text, points at a separator unless it
/// is the length, and no separator stands before it.
pub proof fn lemma_first_separator_facts(s: Seq<char>, seps: Seq<char>)
    ensures
        0 <= first_separator(s, seps) <= s.len(),
        first_separator(s, seps) < s.len() ==> seps.contains(s[first_separator(s, seps)]),
        forall|j: int| 0 <= j < first_separator(s, seps) ==> !seps.contains(#[trigger] s[j]),
    decreases s.len(),
{
    if s.len() == 0 || seps.contains(s.first()) {
    } else {
        let rest = s.drop_first();
        lemma_first_separator_facts(rest, seps);
        assert forall|j: int| 0 <= j < first_separator(s, seps) implies !seps.contains(
            #[trigger] s[j],
        ) by {
            if j > 0 {
                assert(s[j] == rest[j - 1]);
            }
        }
    }
}

// ---------------------------------------------------------------------------
// Executable helpers
// ---------------------------------------------------------------------------

/// The characters of `s`, in order, with constant-time indexing.
pub fn to_chars(s: &str) -> (out: Vec<char>)
    ensures
        out@ == s@,
{
    let mut out: Vec<char> = Vec::new();
    for c in it: s.chars()
        invariant
            it.seq() == s@,
            out@ == it.seq().take(it.index()),
    {
        out.push(c);
    }
    out
}

/// Appends one character to a string.
///
/// Trusted: wraps `String::push`, which the standard library documents as
/// appending the given character to the end of the string.
#[verifier::external_body]
pub(crate) fn push_char(s: &mut String, c: char)
    ensures
        final(s)@ == old(s)@.push(c),
{
    s.push(c)
}

/// A string holding exactly the characters of `chars`.
pub fn to_text(chars: &[char]) -> (s: String)
    ensures
        s@ == chars@,
{
    let mut s = String::new();
    let mut i: usize = 0;
    while i < chars.len()
        invariant
            i <= chars.len(),
            s@ == chars@.take(i as int),
        decreases chars.len() - i,
    {
        push_char(&mut s, chars[i]);
        i += 1;
    }
    s
}

/// Whether `pat` occurs in `hay` at index `at`.
pub fn matches_here(hay: &[char], pat: &[char], at: usize) -> (r: bool)
    ensures
        r == matches_at(hay@, pat@, at as int),
{
    if pat.len() > hay.len() || at > hay.len() - pat.len() {
        return false;
    }
    let mut i: usize = 0;
    while i < pat.len()
        invariant
            at + pat.len() <= hay.len(),
            i <= pat.len(),
            forall|j: int| 0 <= j < i ==> hay@[at + j] == pat@[j],
        decreases pat.len() - i,
    {
        if hay[at + i] != pat[i] {
            assert(hay@.subrange(at as int, at + pat.len())[i as int] != pat@[i as int]);
            return false;
        }
        i += 1;
    }
    true
}

/// Index of the first occurrence of `pat` in `hay` at or after `from`.
pub fn find(hay: &[char], pat: &[char], from: usize) -> (r: Option<usize>)
    ensures
        match r {
            Some(k) => first_match(hay@, pat@, from as int) == Some(k as int) && from <= k
                && k + pat.len() <= hay.len(),
            None => first_match(hay@, pat@, from as int) is None,
        },
{
    if pat.len() > hay.len() {
        return None;
    }
    let last: usize = hay.len() - pat.len();
    let mut k: usize = from;
    while k <= last
        invariant
            last == hay.len() - pat.len(),
            from <= k,
            first_match(hay@, pat@, from as int) == first_match(hay@, pat@, k as int),
        decreases last + 1 - k,
    {
        if matches_here(hay, pat, k) {
            return Some(k);
        }
        k += 1;
    }
    None
}

/// Whether `c` is whitespace.
pub fn char_is_whitespace(c: char) -> (r: bool)
    ensures
        r == is_whitespace(c),
{
    let n: u32 = c as u32;
    (0x09 <= n && n <= 0x0d) || n == 0x20 || n == 0x85 || n == 0xa0 || n == 0x1680 || (0x2000 <= n
        && n <= 0x200a) || n == 0x2028 || n == 0x2029 || n == 0x202f || n == 0x205f || n == 0x3000
}

/// The part of `chars` that is left when leading and trailing whitespace is
/// taken away.
pub fn trim<'a>(chars: &'a [char]) -> (r: &'a [char])
    ensures
        r@ == trimmed(chars@),
{
    let n: usize = chars.len();
    let mut a: usize = 0;
    assert(chars@.subrange(0, n as int) =~= chars@);
    while a < n && char_is_whitespace(chars[a])
        invariant
            a <= n == chars.len(),
            trim_start(chars@) == trim_start(chars@.subrange(a as int, n as int)),
        decreases n - a,
    {
        assert(chars@.subrange(a as int, n as int).drop_first() =~= chars@.subrange(
            a + 1,
            n as int,
        ));
        a += 1;
    }
    let mut b: usize = n;
    while a < b && char_is_whitespace(chars[b - 1])
        invariant
            a <= b <= n == chars.len(),
            trim_end(chars@.subrange(a as int, n as int)) == trim_end(
                chars@.subrange(a as int, b as int),
            ),
        decreases b - a,
    {
        assert(chars@.subrange(a as int, b as int).drop_last() =~= chars@.subrange(
            a as int,
            b - 1,
        ));
        b -= 1;
    }
    slice_subrange(chars, a, b)
}

/// Whether `a` and `b` hold the same characters.
pub fn equal(a: &[char], b: &[char]) -> (r: bool)
    ensures
        r == (a@ == b@),
{
    if a.len() != b.len() {
        return false;
    }
    let r = matches_here(a, b, 0);
    assert(a@.subrange(0, a@.len() as int) =~= a@);
    r
}

/// Whether `hay` begins with `pat`.
pub fn starts_with(hay: &[char], pat: &[char]) -> (r: bool)
    ensures
        r == matches_at(hay@, pat@, 0),
{
    matches_here(hay, pat, 0)
}

/// Whether `c` is one of `set`.
pub fn contains_char(set: &[char], c: char) -> (r: bool)
    ensures
        r == set@.contains(c),
{
    let mut i: usize = 0;
    while i < set.len()
        invariant
            i <= set.len(),
            forall|j: int| 0 <= j < i ==> set@[j] != c,
        decreases set.len() - i,
    {
        if set[i] == c {
            return true;
        }
        i += 1;
    }
    false
}

/// The pieces of `chars` between the characters of `seps`, in order.
pub fn split<'a>(chars: &'a [char], seps: &[char]) -> (out: Vec<&'a [char]>)
    ensures
        out@.len() == split_on(chars@, seps@).len(),
        forall|i: int| 0 <= i < out@.len() ==> (#[trigger] out@[i])@ == split_on(chars@, seps@)[i],
{
    let n: usize = chars.len();
    let mut out: Vec<&'a [char]> = Vec::new();
    let mut start: usize = 0;
    let mut i: usize = 0;
    let ghost mut done: Seq<Seq<char>> = Seq::empty();
    assert(chars@.subrange(0, n as int) =~= chars@);
    while i < n
        invariant
            start <= i <= n == chars.len(),
            out@.len() == done.len(),
            forall|j: int| 0 <= j < out@.len() ==> (#[trigger] out@[j])@ == done[j],
            split_on(chars@, seps@) == done + split_on(
                chars@.subrange(start as int, n as int),
                seps@,
            ),
            forall|j: int| start <= j < i ==> !seps@.contains(#[trigger] chars@[j]),
        decreases n - i,
    {
        if contains_char(seps, chars[i]) {
            let ghost rest = chars@.subrange(start as int, n as int);
            let piece = slice_subrange(chars, start, i);
            proof {
                assert forall|j: int| 0 <= j < i - start implies !seps@.contains(
                    #[trigger] rest[j],
                ) by {
                    assert(rest[j] == chars@[start + j]);
                }
                lemma_first_separator_is(rest, seps@, i - start);
                assert(rest.subrange(0, i - start) =~= piece@);
                assert(rest.subrange(i - start + 1, rest.len() as int) =~= chars@.subrange(
                    i + 1,
                    n as int,
                ));
                assert(done + (seq![piece@] + split_on(chars@.subrange(i + 1, n as int), seps@))
                    =~= done.push(piece@) + split_on(chars@.subrange(i + 1, n as int), seps@));
                done = done.push(piece@);
            }
            out.push(piece);
            start = i + 1;
        }
        i += 1;
    }
    let piece = slice_subrange(chars, start, n);
    proof {
        let rest = chars@.subrange(start as int, n as int);
        assert forall|j: int| 0 <= j < rest.len() implies !seps@.contains(#[trigger] rest[j]) by {
            assert(rest[j] == chars@[start + j]);
        }
        lemma_first_separator_is(rest, seps@, rest.len() as int);
        assert(done + seq![rest] =~= done.push(piece@));
    }
    out.push(piece);
    out
}

/// Appends `n` in decimal to `s`.
pub fn push_decimal(s: &mut String, n: usize)
    ensures
        final(s)@ == old(s)@ + decimal(n as nat),
    decreases n,
{
    if n >= 10 {
        push_decimal(s, n / 10);
    }
    let d: u8 = (n % 10) as u8;
    let c: char = (48u8 + d) as char;
    assert(c == digit((n % 10) as nat));
    push_char(s, c);
    assert(old(s)@ + decimal(n as nat) =~= s@);
}

/// Appends `chars` to `s`, cut or filled with spaces to `width` characters.
pub fn push_fitted(s: &mut String, chars: &[char], width: usize)
    ensures
        final(s)@ == old(s)@ + fit_width(chars@, width as nat),
{
    let mut i: usize = 0;
    assert(s@ =~= old(s)@ + fit_width(chars@, width as nat).take(0));
    while i < width
        invariant
            i <= width,
            s@ == old(s)@ + fit_width(chars@, width as nat).take(i as int),
            fit_width(chars@, width as nat).len() == width,
        decreases width - i,
    {
        let c: char = if i < chars.len() {
            chars[i]
        } else {
            ' '
        };
        push_char(s, c);
        i += 1;
        assert(s@ =~= old(s)@ + fit_width(chars@, width as nat).take(i as int));
    }
    assert(fit_width(chars@, width as nat).take(width as int) =~= fit_width(
        chars@,
        width as nat,
    ));
}

} // verus!
