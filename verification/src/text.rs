//! Text as sequences of characters.
//!
//! Every contract of this crate speaks of strings through their views, `Seq<char>`. This module
//! holds the vocabulary those contracts share (padding, joining, trimming, escaping, splitting
//! into words, substring search), the verified routines that build such text, and the few
//! operations of the standard library that are called rather than verified.

use vstd::prelude::*;

verus! {

/// The Unicode property `White_Space`, as `char::is_whitespace` decides it.
pub uninterp spec fn is_whitespace(c: char) -> bool;

/// The Unicode general categories for numbers, as `char::is_numeric` decides them.
pub uninterp spec fn is_numeric(c: char) -> bool;

/// The views of a sequence of strings.
pub open spec fn texts(lines: Seq<String>) -> Seq<Seq<char>> {
    Seq::new(lines.len(), |i: int| lines[i]@)
}

/// `count` spaces.
pub open spec fn padding(count: nat) -> Seq<char> {
    Seq::new(count, |i: int| ' ')
}

/// Each line behind `indent` spaces.
pub open spec fn indented(lines: Seq<Seq<char>>, indent: nat) -> Seq<Seq<char>> {
    Seq::new(lines.len(), |i: int| padding(indent) + lines[i])
}

/// The parts in order, with `sep` between each two neighbours.
pub open spec fn joined(parts: Seq<Seq<char>>, sep: Seq<char>) -> Seq<char>
    decreases parts.len(),
{
    if parts.len() == 0 {
        Seq::empty()
    } else if parts.len() == 1 {
        parts[0]
    } else {
        joined(parts.drop_last(), sep) + sep + parts.last()
    }
}

/// The parts that are not empty, in order, with one space between each two neighbours.
pub open spec fn spaced(parts: Seq<Seq<char>>) -> Seq<char>
    decreases parts.len(),
{
    if parts.len() == 0 {
        Seq::empty()
    } else {
        let before = spaced(parts.drop_last());
        if parts.last().len() == 0 {
            before
        } else if before.len() == 0 {
            parts.last()
        } else {
            before + seq![' '] + parts.last()
        }
    }
}

/// `s` without its leading whitespace.
pub open spec fn trimmed_start(s: Seq<char>) -> Seq<char>
    decreases s.len(),
{
    if s.len() > 0 && is_whitespace(s.first()) {
        trimmed_start(s.drop_first())
    } else {
        s
    }
}

/// `s` without its trailing whitespace.
pub open spec fn trimmed_end(s: Seq<char>) -> Seq<char>
    decreases s.len(),
{
    if s.len() > 0 && is_whitespace(s.last()) {
        trimmed_end(s.drop_last())
    } else {
        s
    }
}

/// `s` without its leading and trailing whitespace.
pub open spec fn trimmed(s: Seq<char>) -> Seq<char> {
    trimmed_end(trimmed_start(s))
}

/// Without its trailing whitespace a text is one of its own beginnings.
pub proof fn lemma_trimmed_end_is_prefix(s: Seq<char>)
    ensures
        trimmed_end(s).len() <= s.len(),
        trimmed_end(s) == s.take(trimmed_end(s).len() as int),
        trimmed_end(s).len() > 0 ==> !is_whitespace(trimmed_end(s).last()),
    decreases s.len(),
{
    if s.len() > 0 && is_whitespace(s.last()) {
        lemma_trimmed_end_is_prefix(s.drop_last());
        let kept = trimmed_end(s.drop_last());
        assert(s.drop_last().take(kept.len() as int) =~= s.take(kept.len() as int));
    } else {
        assert(s.take(s.len() as int) =~= s);
    }
}

/// Without its leading whitespace a text does not start with whitespace.
pub proof fn lemma_trimmed_start_starts(s: Seq<char>)
    ensures
        trimmed_start(s).len() > 0 ==> !is_whitespace(trimmed_start(s).first()),
    decreases s.len(),
{
    if s.len() > 0 && is_whitespace(s.first()) {
        lemma_trimmed_start_starts(s.drop_first());
    }
}

/// What is left of a text without the whitespace at its ends neither starts nor ends with
/// whitespace.
pub proof fn lemma_trimmed_ends(s: Seq<char>)
    ensures
        trimmed(s).len() > 0 ==> !is_whitespace(trimmed(s).first()) && !is_whitespace(
            trimmed(s).last(),
        ),
{
    let started = trimmed_start(s);
    lemma_trimmed_start_starts(s);
    lemma_trimmed_end_is_prefix(started);
    if trimmed(s).len() > 0 {
        assert(trimmed(s).first() == started.first());
    }
}

/// How many characters stand at the start of `s` before its first whitespace.
pub open spec fn word_len(s: Seq<char>) -> nat
    decreases s.len(),
{
    if s.len() > 0 && !is_whitespace(s.first()) {
        1 + word_len(s.drop_first())
    } else {
        0
    }
}

/// The maximal runs of characters of `s` that hold no whitespace, in order.
pub open spec fn words(s: Seq<char>) -> Seq<Seq<char>>
    decreases s.len(),
{
    if s.len() == 0 {
        Seq::empty()
    } else if is_whitespace(s.first()) {
        words(s.drop_first())
    } else {
        let n = word_len(s) as int;
        proof {
            lemma_word_len_bounds(s);
        }
        seq![s.take(n)] + words(s.skip(n))
    }
}

/// A word is no longer than the text it starts, and not empty where the text starts with one.
pub proof fn lemma_word_len_bounds(s: Seq<char>)
    ensures
        word_len(s) <= s.len(),
        s.len() > 0 && !is_whitespace(s.first()) ==> word_len(s) >= 1,
    decreases s.len(),
{
    if s.len() > 0 && !is_whitespace(s.first()) {
        lemma_word_len_bounds(s.drop_first());
    }
}

/// The digit of value `d` in lower-case hexadecimal.
pub open spec fn hex_digit(d: nat) -> char
    recommends
        d < 16,
{
    "0123456789abcdef"@[d as int]
}

/// `n` in lower-case hexadecimal, without leading zeros.
pub open spec fn hex(n: nat) -> Seq<char>
    decreases n,
{
    if n < 16 {
        seq![hex_digit(n)]
    } else {
        hex(n / 16).push(hex_digit(n % 16))
    }
}

/// Whether `c` is printable ASCII: from the space to the tilde.
pub open spec fn is_printable_ascii(c: char) -> bool {
    0x20 <= c as u32 <= 0x7e
}

/// The escape of one character as `char::escape_default` writes it: a backslash and a letter for
/// tab, carriage return and line feed; a backslash before a quote or a backslash; printable ASCII
/// as it is; any other character as `\u{..}` around its code point in hexadecimal.
pub open spec fn escaped_char(c: char) -> Seq<char> {
    if c == '\t' {
        seq!['\\', 't']
    } else if c == '\r' {
        seq!['\\', 'r']
    } else if c == '\n' {
        seq!['\\', 'n']
    } else if c == '\'' || c == '"' || c == '\\' {
        seq!['\\', c]
    } else if is_printable_ascii(c) {
        seq![c]
    } else {
        seq!['\\', 'u', '{'] + hex(c as nat) + seq!['}']
    }
}

/// The escapes of the characters of `s`, one after the other.
pub open spec fn escaped(s: Seq<char>) -> Seq<char>
    decreases s.len(),
{
    if s.len() == 0 {
        Seq::empty()
    } else {
        escaped(s.drop_last()) + escaped_char(s.last())
    }
}

/// Whether `needle` stands in `hay` at position `at`.
pub open spec fn occurs_at(hay: Seq<char>, needle: Seq<char>, at: int) -> bool {
    &&& 0 <= at
    &&& at + needle.len() <= hay.len()
    &&& hay.subrange(at, at + needle.len()) == needle
}

/// Whether `needle` stands somewhere in `hay`.
pub open spec fn occurs_in(hay: Seq<char>, needle: Seq<char>) -> bool {
    exists|at: int| occurs_at(hay, needle, at)
}

/// Whether two string slices hold the same characters.
pub(crate) fn str_eq(a: &str, b: &str) -> (equal: bool)
    ensures
        equal == (a@ == b@),
{
    String::from_str(a) == String::from_str(b)
}

/// `char::is_numeric`: the result is the property that [`is_numeric`] names. Of the ASCII
/// characters the digits `0` to `9` have it and no other.
#[verifier::external_body]
pub(crate) fn char_is_numeric(c: char) -> (numeric: bool)
    ensures
        numeric == is_numeric(c),
        0x30 <= c as u32 <= 0x39 ==> numeric,
        (c as u32) < 0x80 && !(0x30 <= c as u32 <= 0x39) ==> !numeric,
{
    c.is_numeric()
}

/// `str::trim`: the slice without its leading and trailing whitespace, whitespace being the
/// property that [`is_whitespace`] names. The space has that property, so a space that is
/// kept between other characters is whitespace all the same.
#[verifier::external_body]
pub(crate) fn trim(s: &str) -> (kept: &str)
    ensures
        kept@ == trimmed(s@),
        forall|i: int| 0 <= i < kept@.len() && kept@[i] == ' ' ==> is_whitespace(#[trigger] kept@[i]),
{
    s.trim()
}

/// `str::escape_default`, collected into a string: every character escaped as
/// `char::escape_default` documents it.
#[verifier::external_body]
pub(crate) fn escape_default(s: &str) -> (text: String)
    ensures
        text@ == escaped(s@),
{
    s.escape_default().to_string()
}

/// `str::split_whitespace`, collected into a vector: the pieces between whitespace, in order,
/// none of them empty.
#[verifier::external_body]
pub(crate) fn split_whitespace(s: &str) -> (pieces: Vec<String>)
    ensures
        texts(pieces@) == words(s@),
{
    s.split_whitespace().map(|piece| piece.to_string()).collect()
}

/// `str::contains` with a string pattern: whether the pattern matches a part of the slice.
#[verifier::external_body]
pub(crate) fn contains(hay: &str, needle: &str) -> (found: bool)
    ensures
        found == occurs_in(hay@, needle@),
{
    hay.contains(needle)
}

/// A string of `count` spaces.
pub fn pad(count: usize) -> (text: String)
    ensures
        text@ == padding(count as nat),
{
    let mut text = String::new();
    let mut done: usize = 0;
    while done < count
        invariant
            done <= count,
            text@ == padding(done as nat),
        decreases count - done,
    {
        text.append(" ");
        proof {
            reveal_strlit(" ");
            assert(text@ =~= padding((done + 1) as nat));
        }
        done = done + 1;
    }
    text
}

/// The strings of `parts` in order, with `sep` between each two neighbours.
pub fn join(parts: &[String], sep: &str) -> (text: String)
    ensures
        text@ == joined(texts(parts@), sep@),
{
    let mut text = String::new();
    let mut at: usize = 0;
    while at < parts.len()
        invariant
            at <= parts.len(),
            text@ == joined(texts(parts@).take(at as int), sep@),
        decreases parts.len() - at,
    {
        proof {
            let before = texts(parts@).take(at as int);
            let now = texts(parts@).take(at + 1);
            assert(now.drop_last() =~= before);
            assert(now.last() == parts@[at as int]@);
            assert(before.len() == 0 ==> text@ =~= Seq::<char>::empty());
        }
        if at > 0 {
            text.append(sep);
        }
        text.append(parts[at].as_str());
        at = at + 1;
    }
    proof {
        assert(texts(parts@).take(at as int) =~= texts(parts@));
    }
    text
}

} // verus!
