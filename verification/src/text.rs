//! Character-level operations on text.
//!
//! A string is modelled by the sequence of its characters. The functions here
//! are the vocabulary in which the parsers of this library are specified.

use vstd::prelude::*;
use vstd::string::*;
use vstd::utf8::{decode_utf8, is_ascii_chars, valid_utf8};

verus! {

/// `String::push` appends one character.
pub assume_specification[ String::push ](s: &mut String, c: char)
    ensures
        final(s)@ == old(s)@.push(c),
;

/// The Unicode lower-case mapping of a text that is not ASCII, as
/// `str::to_lowercase` gives it.
pub uninterp spec fn unicode_lower(s: Seq<char>) -> Seq<char>;

/// The Unicode upper-case mapping of a text that is not ASCII, as
/// `str::to_uppercase` gives it.
pub uninterp spec fn unicode_upper(s: Seq<char>) -> Seq<char>;

/// A text in double quotes with the escapes that Rust's `{:?}` writes.
pub uninterp spec fn debug_quoted(s: Seq<char>) -> Seq<char>;

/// A text in lower case.
pub open spec fn lowercase(s: Seq<char>) -> Seq<char> {
    if is_ascii_chars(s) {
        lower(s)
    } else {
        unicode_lower(s)
    }
}

/// A text in upper case.
pub open spec fn uppercase(s: Seq<char>) -> Seq<char> {
    if is_ascii_chars(s) {
        upper(s)
    } else {
        unicode_upper(s)
    }
}

/// `str::to_lowercase`: on ASCII text it maps `A` to `Z` onto `a` to `z` and
/// keeps every other character; else it is the Unicode mapping.
#[verifier::external_body]
pub(crate) fn to_unicode_lower(s: &str) -> (r: String)
    ensures
        r@ == if is_ascii_chars(s@) {
            lower(s@)
        } else {
            unicode_lower(s@)
        },
{
    s.to_lowercase()
}

/// `str::to_uppercase`: on ASCII text it maps `a` to `z` onto `A` to `Z` and
/// keeps every other character; else it is the Unicode mapping.
#[verifier::external_body]
pub(crate) fn to_unicode_upper(s: &str) -> (r: String)
    ensures
        r@ == if is_ascii_chars(s@) {
            upper(s@)
        } else {
            unicode_upper(s@)
        },
{
    s.to_uppercase()
}

/// `Debug` of `str`, through `format!`: the result is the quoted text.
#[verifier::external_body]
pub(crate) fn quote_debug(s: &str) -> (r: String)
    ensures
        r@ == debug_quoted(s@),
{
    format!("{:?}", s)
}

/// The ASCII lower-case form of a character; other characters stay as they are.
pub open spec fn ascii_lower(c: char) -> char {
    if 'A' <= c && c <= 'Z' {
        ((c as u32) + 32) as char
    } else {
        c
    }
}

/// The ASCII upper-case form of a character; other characters stay as they are.
pub open spec fn ascii_upper(c: char) -> char {
    if 'a' <= c && c <= 'z' {
        ((c as u32) - 32) as char
    } else {
        c
    }
}

/// Text with every ASCII letter in lower case.
pub open spec fn lower(s: Seq<char>) -> Seq<char> {
    Seq::new(s.len(), |i: int| ascii_lower(s[i]))
}

/// Text with every ASCII letter in upper case.
pub open spec fn upper(s: Seq<char>) -> Seq<char> {
    Seq::new(s.len(), |i: int| ascii_upper(s[i]))
}

pub open spec fn is_alpha(c: char) -> bool {
    ('a' <= c && c <= 'z') || ('A' <= c && c <= 'Z')
}

pub open spec fn is_digit(c: char) -> bool {
    '0' <= c && c <= '9'
}

pub open spec fn is_alphanumeric(c: char) -> bool {
    is_alpha(c) || is_digit(c)
}

/// The characters with the Unicode property White_Space.
pub open spec fn is_white_space(c: char) -> bool {
    ||| ('\u{9}' <= c && c <= '\u{d}')
    ||| c == ' '
    ||| c == '\u{85}'
    ||| c == '\u{a0}'
    ||| c == '\u{1680}'
    ||| ('\u{2000}' <= c && c <= '\u{200a}')
    ||| c == '\u{2028}'
    ||| c == '\u{2029}'
    ||| c == '\u{202f}'
    ||| c == '\u{205f}'
    ||| c == '\u{3000}'
}

/// Text without its leading white space.
pub open spec fn trim_start(s: Seq<char>) -> Seq<char>
    decreases s.len(),
{
    if s.len() > 0 && is_white_space(s[0]) {
        trim_start(s.skip(1))
    } else {
        s
    }
}

/// Text without its trailing white space.
pub open spec fn trim_end(s: Seq<char>) -> Seq<char>
    decreases s.len(),
{
    if s.len() > 0 && is_white_space(s.last()) {
        trim_end(s.drop_last())
    } else {
        s
    }
}

/// Text without white space at either end.
pub open spec fn trim(s: Seq<char>) -> Seq<char> {
    trim_end(trim_start(s))
}

/// The first position at or after `from` that holds `c`; the length if none.
pub open spec fn find_char(s: Seq<char>, c: char, from: int) -> int
    decreases s.len() - from,
{
    if from < 0 || from >= s.len() {
        s.len() as int
    } else if s[from] == c {
        from
    } else {
        find_char(s, c, from + 1)
    }
}

/// `needle` stands in `s` at position `at`.
pub open spec fn occurs_at(s: Seq<char>, needle: Seq<char>, at: int) -> bool {
    0 <= at && at + needle.len() <= s.len() && s.subrange(at, at + needle.len()) == needle
}

/// The first position at or after `from` where `needle` stands.
pub open spec fn find_text(s: Seq<char>, needle: Seq<char>, from: int) -> Option<int>
    decreases s.len() + 1 - from,
{
    if from < 0 || from + needle.len() > s.len() {
        None
    } else if occurs_at(s, needle, from) {
        Some(from)
    } else {
        find_text(s, needle, from + 1)
    }
}

pub open spec fn contains_text(s: Seq<char>, needle: Seq<char>) -> bool {
    exists|at: int| occurs_at(s, needle, at)
}

pub open spec fn starts_with(s: Seq<char>, prefix: Seq<char>) -> bool {
    prefix.len() <= s.len() && s.take(prefix.len() as int) == prefix
}

/// The pieces of a text between the occurrences of `sep`, empty ones kept.
pub open spec fn split(s: Seq<char>, sep: char) -> Seq<Seq<char>>
    decreases s.len(),
{
    let i = find_char(s, sep, 0);
    if i < 0 || i >= s.len() {
        seq![s]
    } else {
        seq![s.take(i)] + split(s.skip(i + 1), sep)
    }
}

/// The texts that a list of strings holds.
pub open spec fn texts(v: Seq<String>) -> Seq<Seq<char>> {
    Seq::new(v.len(), |i: int| v[i]@)
}

/// The text that an optional string holds.
pub open spec fn opt_text(v: Option<String>) -> Option<Seq<char>> {
    match v {
        Some(s) => Some(s@),
        None => None,
    }
}

/// The text that an optional string slice holds.
pub open spec fn opt_str(v: Option<&str>) -> Option<Seq<char>> {
    match v {
        Some(s) => Some(s@),
        None => None,
    }
}

/// The decimal digits of a number.
pub open spec fn decimal(n: nat) -> Seq<char>
    decreases n,
{
    if n < 10 {
        seq![digit_char(n as int)]
    } else {
        decimal(n / 10).push(digit_char((n % 10) as int))
    }
}

pub open spec fn digit_char(d: int) -> char {
    (('0' as u32) + d) as char
}

pub proof fn lemma_find_char_range(s: Seq<char>, c: char, from: int)
    requires
        0 <= from <= s.len(),
    ensures
        from <= find_char(s, c, from) <= s.len(),
        find_char(s, c, from) < s.len() ==> s[find_char(s, c, from)] == c,
        forall|k: int| from <= k < find_char(s, c, from) ==> s[k] != c,
    decreases s.len() - from,
{
    if from < s.len() && s[from] != c {
        lemma_find_char_range(s, c, from + 1);
    }
}

/// A position that holds `c`, with no `c` between it and `from`, is the first.
pub proof fn lemma_find_char_is(s: Seq<char>, c: char, from: int, at: int)
    requires
        0 <= from <= at <= s.len(),
        at < s.len() ==> s[at] == c,
        forall|k: int| from <= k < at ==> s[k] != c,
    ensures
        find_char(s, c, from) == at,
    decreases at - from,
{
    if from < at {
        lemma_find_char_is(s, c, from + 1, at);
    }
}

pub proof fn lemma_find_text_range(s: Seq<char>, needle: Seq<char>, from: int)
    requires
        0 <= from,
    ensures
        match find_text(s, needle, from) {
            Some(at) => from <= at && occurs_at(s, needle, at),
            None => true,
        },
    decreases s.len() + 1 - from,
{
    if from + needle.len() <= s.len() && !occurs_at(s, needle, from) {
        lemma_find_text_range(s, needle, from + 1);
    }
}

pub fn char_lower(c: char) -> (r: char)
    ensures
        r == ascii_lower(c),
{
    if 'A' <= c && c <= 'Z' {
        ((c as u8) + 32) as char
    } else {
        c
    }
}

pub fn char_is_alpha(c: char) -> (r: bool)
    ensures
        r == is_alpha(c),
{
    ('a' <= c && c <= 'z') || ('A' <= c && c <= 'Z')
}

pub fn char_is_alphanumeric(c: char) -> (r: bool)
    ensures
        r == is_alphanumeric(c),
{
    char_is_alpha(c) || ('0' <= c && c <= '9')
}

pub fn char_is_white_space(c: char) -> (r: bool)
    ensures
        r == is_white_space(c),
{
    ('\u{9}' <= c && c <= '\u{d}') || c == ' ' || c == '\u{85}' || c == '\u{a0}' || c == '\u{1680}'
        || ('\u{2000}' <= c && c <= '\u{200a}') || c == '\u{2028}' || c == '\u{2029}' || c
        == '\u{202f}' || c == '\u{205f}' || c == '\u{3000}'
}

/// The characters of a string.
pub fn chars_of(s: &str) -> (r: Vec<char>)
    ensures
        r@ == s@,
{
    let mut out: Vec<char> = Vec::new();
    for c in it: s.chars()
        invariant
            out@ == it.seq().take(it.index()),
            it.seq() == s@,
    {
        out.push(c);
    }
    out
}

/// The string of the characters from position `from` up to `to`.
pub fn string_between(chars: &Vec<char>, from: usize, to: usize) -> (r: String)
    requires
        from <= to <= chars@.len(),
    ensures
        r@ == chars@.subrange(from as int, to as int),
{
    let mut out = String::new();
    let mut i: usize = from;
    while i < to
        invariant
            from <= i <= to <= chars@.len(),
            out@ == chars@.subrange(from as int, i as int),
        decreases to - i,
    {
        out.push(chars[i]);
        i += 1;
    }
    out
}

pub fn to_lower(s: &str) -> (r: String)
    ensures
        r@ == lower(s@),
{
    let chars = chars_of(s);
    let mut out = String::new();
    let mut i: usize = 0;
    while i < chars.len()
        invariant
            i <= chars@.len(),
            chars@ == s@,
            out@ == lower(s@).take(i as int),
        decreases chars@.len() - i,
    {
        out.push(char_lower(chars[i]));
        i += 1;
    }
    assert(lower(s@).take(s@.len() as int) == lower(s@));
    out
}

pub fn same_text(a: &str, b: &str) -> (r: bool)
    ensures
        r == (a@ == b@),
{
    let left: String = a.to_owned();
    let right: String = b.to_owned();
    left == right
}

/// Equality of two texts up to the case of ASCII letters.
pub fn same_ignoring_case(a: &str, b: &str) -> (r: bool)
    ensures
        r == (lower(a@) == lower(b@)),
{
    to_lower(a) == to_lower(b)
}

pub fn find_char_in(chars: &Vec<char>, c: char, from: usize) -> (r: usize)
    requires
        from <= chars@.len(),
    ensures
        r == find_char(chars@, c, from as int),
        from <= r <= chars@.len(),
        r < chars@.len() ==> chars@[r as int] == c,
{
    let mut i: usize = from;
    while i < chars.len()
        invariant
            from <= i <= chars@.len(),
            find_char(chars@, c, from as int) == find_char(chars@, c, i as int),
        decreases chars@.len() - i,
    {
        if chars[i] == c {
            return i;
        }
        i += 1;
    }
    i
}

pub fn occurs_in_at(chars: &Vec<char>, needle: &Vec<char>, at: usize) -> (r: bool)
    requires
        at <= chars@.len(),
    ensures
        r == occurs_at(chars@, needle@, at as int),
{
    if needle.len() > chars.len() - at {
        return false;
    }
    let mut i: usize = 0;
    while i < needle.len()
        invariant
            at <= chars.len(),
            i <= needle.len() <= chars.len() - at,
            forall|k: int| 0 <= k < i ==> chars@[at + k] == needle@[k],
        decreases needle@.len() - i,
    {
        if chars[at + i] != needle[i] {
            assert(chars@.subrange(at as int, at + needle@.len())[i as int] != needle@[i as int]);
            return false;
        }
        i += 1;
    }
    assert(chars@.subrange(at as int, at + needle@.len()) == needle@);
    true
}

pub fn find_text_in(chars: &Vec<char>, needle: &Vec<char>, from: usize) -> (r: Option<usize>)
    requires
        from <= chars@.len(),
    ensures
        match r {
            Some(at) => find_text(chars@, needle@, from as int) == Some(at as int) && from <= at
                && occurs_at(chars@, needle@, at as int),
            None => find_text(chars@, needle@, from as int) is None,
        },
{
    let mut i: usize = from;
    while needle.len() <= chars.len() - i
        invariant
            from <= i <= chars@.len(),
            find_text(chars@, needle@, from as int) == find_text(chars@, needle@, i as int),
        decreases chars@.len() - i,
    {
        if occurs_in_at(chars, needle, i) {
            return Some(i);
        }
        if i == chars.len() {
            assert(chars@.subrange(i as int, i as int) =~= needle@);
            return None;
        }
        i += 1;
    }
    None
}

/// The bounds of the trimmed part of `chars[from..to]`.
pub fn trim_bounds(chars: &Vec<char>, from: usize, to: usize) -> (r: (usize, usize))
    requires
        from <= to <= chars@.len(),
    ensures
        from <= r.0 <= r.1 <= to,
        chars@.subrange(r.0 as int, r.1 as int) == trim(chars@.subrange(from as int, to as int)),
{
    let mut start: usize = from;
    while start < to && char_is_white_space(chars[start])
        invariant
            from <= start <= to <= chars@.len(),
            trim_start(chars@.subrange(from as int, to as int)) == trim_start(
                chars@.subrange(start as int, to as int),
            ),
        decreases to - start,
    {
        assert(chars@.subrange(start as int, to as int).skip(1) == chars@.subrange(
            start + 1,
            to as int,
        ));
        start += 1;
    }
    let ghost rest = chars@.subrange(start as int, to as int);
    assert(trim_start(rest) == rest);
    let mut end: usize = to;
    while start < end && char_is_white_space(chars[end - 1])
        invariant
            start <= end <= to <= chars@.len(),
            trim_end(rest) == trim_end(chars@.subrange(start as int, end as int)),
        decreases end - start,
    {
        assert(chars@.subrange(start as int, end as int).drop_last() == chars@.subrange(
            start as int,
            end - 1,
        ));
        end -= 1;
    }
    (start, end)
}

pub fn trim_text(s: &str) -> (r: String)
    ensures
        r@ == trim(s@),
{
    let chars = chars_of(s);
    let (from, to) = trim_bounds(&chars, 0, chars.len());
    assert(chars@.subrange(0, chars@.len() as int) == s@);
    string_between(&chars, from, to)
}

pub fn has_prefix(s: &str, prefix: &str) -> (r: bool)
    ensures
        r == starts_with(s@, prefix@),
{
    let chars = chars_of(s);
    let needle = chars_of(prefix);
    let r = occurs_in_at(&chars, &needle, 0);
    assert(prefix@.len() <= s@.len() ==> s@.subrange(0, prefix@.len() as int) == s@.take(
        prefix@.len() as int,
    ));
    r
}

pub fn has_text(s: &str, needle: &str) -> (r: bool)
    ensures
        r == contains_text(s@, needle@),
{
    let chars = chars_of(s);
    let part = chars_of(needle);
    let found = find_text_in(&chars, &part, 0);
    proof {
        if found is None {
            lemma_find_text_complete(s@, needle@, 0);
        }
    }
    found.is_some()
}

pub proof fn lemma_find_text_complete(s: Seq<char>, needle: Seq<char>, from: int)
    requires
        0 <= from,
        find_text(s, needle, from) is None,
    ensures
        forall|at: int| from <= at ==> !occurs_at(s, needle, at),
    decreases s.len() + 1 - from,
{
    if from + needle.len() <= s.len() {
        lemma_find_text_complete(s, needle, from + 1);
        assert forall|at: int| from <= at implies !occurs_at(s, needle, at) by {
            if at != from {
                assert(from + 1 <= at);
            }
        }
    }
}

/// Splits a text at every occurrence of `sep`.
pub fn split_text(s: &str, sep: char) -> (r: Vec<String>)
    ensures
        texts(r@) == split(s@, sep),
        r@.len() >= 1,
{
    let chars = chars_of(s);
    let mut out: Vec<String> = Vec::new();
    let mut start: usize = 0;
    assert(chars@.skip(0) == s@);
    assert(texts(out@) + split(s@, sep) == split(s@, sep));
    loop
        invariant
            start <= chars@.len(),
            chars@ == s@,
            texts(out@) + split(chars@.skip(start as int), sep) == split(s@, sep),
        decreases chars@.len() - start,
    {
        let end = find_char_in(&chars, sep, start);
        let piece = string_between(&chars, start, end);
        let ghost rest = chars@.skip(start as int);
        let ghost before = out@;
        proof {
            lemma_find_char_range(chars@, sep, start as int);
            assert forall|k: int| 0 <= k < end - start implies rest[k] != sep by {
                assert(rest[k] == chars@[start + k]);
            }
            lemma_find_char_is(rest, sep, 0, end - start);
        }
        out.push(piece);
        proof {
            assert(texts(out@) =~= texts(before).push(piece@));
            if end < chars@.len() {
                assert(rest.take(end - start) =~= piece@);
                assert(rest.skip(end - start + 1) =~= chars@.skip(end + 1));
                assert(texts(before) + (seq![piece@] + split(chars@.skip(end + 1), sep))
                    =~= texts(before).push(piece@) + split(chars@.skip(end + 1), sep));
            } else {
                assert(rest =~= piece@);
                assert(texts(before) + seq![piece@] =~= texts(out@));
            }
        }
        if end >= chars.len() {
            return out;
        }
        start = end + 1;
    }
}

/// Text with every `from` in place of which stands `to`.
pub open spec fn replaced(s: Seq<char>, from: char, to: char) -> Seq<char> {
    Seq::new(
        s.len(),
        |i: int|
            if s[i] == from {
                to
            } else {
                s[i]
            },
    )
}

pub fn replace_char(s: &str, from: char, to: char) -> (r: String)
    ensures
        r@ == replaced(s@, from, to),
{
    let chars = chars_of(s);
    let mut out = String::new();
    let mut i: usize = 0;
    while i < chars.len()
        invariant
            i <= chars@.len(),
            chars@ == s@,
            out@ == replaced(s@, from, to).take(i as int),
        decreases chars@.len() - i,
    {
        if chars[i] == from {
            out.push(to);
        } else {
            out.push(chars[i]);
        }
        i += 1;
    }
    assert(replaced(s@, from, to).take(s@.len() as int) == replaced(s@, from, to));
    out
}

/// What follows `prefix`, where the text starts with it.
pub fn strip_prefix(s: &str, prefix: &str) -> (r: Option<String>)
    ensures
        match r {
            Some(rest) => starts_with(s@, prefix@) && rest@ == s@.skip(prefix@.len() as int),
            None => !starts_with(s@, prefix@),
        },
{
    if has_prefix(s, prefix) {
        let chars = chars_of(s);
        let skip = chars_of(prefix).len();
        let rest = string_between(&chars, skip, chars.len());
        assert(rest@ =~= s@.skip(prefix@.len() as int));
        Some(rest)
    } else {
        None
    }
}

/// The decimal digits of a number.
pub fn decimal_text(n: u64) -> (r: String)
    ensures
        r@ == decimal(n as nat),
    decreases n,
{
    let mut out = if n < 10 {
        String::new()
    } else {
        decimal_text(n / 10)
    };
    let digit: u8 = (n % 10) as u8;
    let c: char = (48u8 + digit) as char;
    out.push(c);
    assert(n < 10 ==> out@ =~= decimal(n as nat));
    out
}

/// Text with every occurrence of `needle` replaced, from the left and without
/// overlaps.
pub open spec fn replace_all(s: Seq<char>, needle: Seq<char>, with: Seq<char>) -> Seq<char>
    decreases s.len(),
{
    match find_text(s, needle, 0) {
        None => s,
        Some(at) => if needle.len() > 0 && 0 <= at && at + needle.len() <= s.len() {
            s.take(at) + with + replace_all(s.skip(at + needle.len()), needle, with)
        } else {
            s
        },
    }
}

proof fn lemma_find_text_skip(s: Seq<char>, needle: Seq<char>, start: int, from: int)
    requires
        0 <= start <= from <= s.len(),
    ensures
        find_text(s.skip(start), needle, from - start) == match find_text(s, needle, from) {
            Some(at) => Some(at - start),
            None => None,
        },
    decreases s.len() + 1 - from,
{
    let rest = s.skip(start);
    if from + needle.len() <= s.len() {
        assert(rest.subrange(from - start, from - start + needle.len()) =~= s.subrange(
            from,
            from + needle.len(),
        ));
        if !occurs_at(s, needle, from) {
            if from < s.len() {
                lemma_find_text_skip(s, needle, start, from + 1);
            } else {
                assert(s.subrange(from, from) =~= needle);
            }
        }
    }
}

/// Replaces every occurrence of a non-empty `needle`.
pub fn replace_text(s: &str, needle: &str, with: &str) -> (r: String)
    requires
        needle@.len() > 0,
    ensures
        r@ == replace_all(s@, needle@, with@),
{
    let chars = chars_of(s);
    let part = chars_of(needle);
    let mut out = String::new();
    let mut start: usize = 0;
    assert(chars@.skip(0) =~= s@);
    assert(out@ + replace_all(s@, needle@, with@) =~= replace_all(s@, needle@, with@));
    loop
        invariant
            start <= chars@.len(),
            chars@ == s@,
            part@ == needle@,
            needle@.len() > 0,
            out@ + replace_all(chars@.skip(start as int), needle@, with@) == replace_all(
                s@,
                needle@,
                with@,
            ),
        decreases chars@.len() - start,
    {
        let ghost rest = chars@.skip(start as int);
        let ghost before = out@;
        proof {
            lemma_find_text_skip(chars@, needle@, start as int, start as int);
        }
        match find_text_in(&chars, &part, start) {
            None => {
                let tail = string_between(&chars, start, chars.len());
                assert(tail@ =~= rest);
                out.append(&tail);
                return out;
            },
            Some(at) => {
                assert(at + part.len() <= chars.len());
                let head = string_between(&chars, start, at);
                out.append(&head);
                out.append(with);
                proof {
                    assert(head@ =~= rest.take(at - start));
                    let next = at + needle@.len();
                    assert(rest.skip(at - start + needle@.len()) =~= chars@.skip(next));
                    let tail = replace_all(chars@.skip(next), needle@, with@);
                    assert(before + (head@ + with@ + tail) =~= out@ + tail);
                }
                start = at + part.len();
            },
        }
    }
}

/// The text of key and value pairs.
pub open spec fn pairs_text(v: Seq<(String, String)>) -> Seq<(Seq<char>, Seq<char>)> {
    Seq::new(v.len(), |i: int| (v[i].0@, v[i].1@))
}

/// The value of the first pair with the given key.
pub open spec fn assoc(pairs: Seq<(Seq<char>, Seq<char>)>, key: Seq<char>) -> Option<Seq<char>>
    decreases pairs.len(),
{
    if pairs.len() == 0 {
        None
    } else if pairs[0].0 == key {
        Some(pairs[0].1)
    } else {
        assoc(pairs.skip(1), key)
    }
}

pub fn assoc_get(pairs: &Vec<(String, String)>, key: &str) -> (r: Option<String>)
    ensures
        opt_text(r) == assoc(pairs_text(pairs@), key@),
{
    let ghost all = pairs_text(pairs@);
    let mut i: usize = 0;
    assert(all.skip(0) =~= all);
    while i < pairs.len()
        invariant
            i <= pairs@.len(),
            all == pairs_text(pairs@),
            assoc(all, key@) == assoc(all.skip(i as int), key@),
        decreases pairs@.len() - i,
    {
        if same_text(&pairs[i].0, key) {
            return Some(pairs[i].1.clone());
        }
        assert(all.skip(i as int).skip(1) =~= all.skip(i + 1));
        i += 1;
    }
    None
}

/// The number that decimal digits stand for.
pub open spec fn digits_value(s: Seq<char>) -> nat
    decreases s.len(),
{
    if s.len() == 0 {
        0
    } else {
        digits_value(s.drop_last()) * 10 + ((s.last() as u32) - ('0' as u32)) as nat
    }
}

pub open spec fn all_digits(s: Seq<char>) -> bool {
    forall|i: int| 0 <= i < s.len() ==> is_digit(#[trigger] s[i])
}

/// The number that a text of decimal digits stands for, with an optional plus
/// sign before them.
pub open spec fn number_of(s: Seq<char>) -> Option<nat> {
    let digits = if s.len() > 1 && s[0] == '+' {
        s.skip(1)
    } else {
        s
    };
    if digits.len() > 0 && all_digits(digits) {
        Some(digits_value(digits))
    } else {
        None
    }
}

/// Decimal digits read back as the number they were written for.
pub proof fn decimal_round_trip(n: nat)
    ensures
        number_of(decimal(n)) == Some(n),
        all_digits(decimal(n)),
        decimal(n).len() > 0,
        digits_value(decimal(n)) == n,
        is_digit(decimal(n)[0]),
    decreases n,
{
    let s = decimal(n);
    if n < 10 {
        assert(s.drop_last() =~= Seq::<char>::empty());
        reveal_with_fuel(digits_value, 2);
    } else {
        decimal_round_trip(n / 10);
        assert(s.drop_last() =~= decimal(n / 10));
        assert forall|i: int| 0 <= i < s.len() implies is_digit(#[trigger] s[i]) by {
            if i < s.len() - 1 {
                assert(s[i] == decimal(n / 10)[i]);
            }
        }
        assert(s[0] == decimal(n / 10)[0]);
    }
}

/// Reads a decimal number that is at most `max`.
pub fn parse_number(s: &str, max: u64) -> (r: Option<u64>)
    requires
        max < 0x1000_0000_0000_0000,
    ensures
        match r {
            Some(n) => number_of(s@) == Some(n as nat) && n <= max,
            None => match number_of(s@) {
                Some(n) => n > max,
                None => true,
            },
        },
{
    let chars = chars_of(s);
    let start: usize = if chars.len() > 1 && chars[0] == '+' {
        1
    } else {
        0
    };
    let ghost digits = chars@.skip(start as int);
    assert(start == 0 ==> digits =~= s@);
    if start == chars.len() {
        return None;
    }
    let mut value: u64 = 0;
    let mut too_large = false;
    let mut i: usize = start;
    while i < chars.len()
        invariant
            start <= i <= chars@.len(),
            chars@ == s@,
            digits == chars@.skip(start as int),
            max < 0x1000_0000_0000_0000,
            all_digits(digits.take(i - start)),
            !too_large ==> value == digits_value(digits.take(i - start)) && value <= max,
            too_large ==> digits_value(digits.take(i - start)) > max,
            number_of(s@) == if digits.len() > 0 && all_digits(digits) {
                Some(digits_value(digits))
            } else {
                None
            },
        decreases chars@.len() - i,
    {
        let c = chars[i];
        let ghost next = digits.take(i - start + 1);
        assert(next.drop_last() =~= digits.take(i - start));
        assert(next.last() == c);
        if !('0' <= c && c <= '9') {
            assert(!is_digit(digits[i - start]));
            return None;
        }
        let d: u64 = (c as u64) - 48;
        if !too_large {
            value = value * 10 + d;
            if value > max {
                too_large = true;
            }
        }
        assert forall|k: int| 0 <= k < next.len() implies is_digit(#[trigger] next[k]) by {
            if k < next.len() - 1 {
                assert(next[k] == digits.take(i - start)[k]);
            }
        }
        i += 1;
    }
    assert(digits.take(digits.len() as int) =~= digits);
    if too_large {
        None
    } else {
        Some(value)
    }
}

/// The text of bytes that are not UTF-8, as `String::from_utf8_lossy` reads
/// them.
pub uninterp spec fn lossy_text(bytes: Seq<u8>) -> Seq<char>;

/// The text of bytes that should be UTF-8.
pub open spec fn read_utf8(bytes: Seq<u8>) -> Seq<char> {
    if valid_utf8(bytes) {
        decode_utf8(bytes)
    } else {
        lossy_text(bytes)
    }
}

/// `String::from_utf8_lossy`: the text that the bytes encode where they are
/// UTF-8; else every malformed part is replaced.
#[verifier::external_body]
pub(crate) fn text_from_utf8_lossy(bytes: &[u8]) -> (r: String)
    ensures
        r@ == if valid_utf8(bytes@) {
            decode_utf8(bytes@)
        } else {
            lossy_text(bytes@)
        },
{
    String::from_utf8_lossy(bytes).into_owned()
}

/// `String::from_utf8`: the text that the bytes encode; `None` where they are
/// not UTF-8.
#[verifier::external_body]
pub(crate) fn text_from_utf8(bytes: Vec<u8>) -> (r: Option<String>)
    ensures
        match r {
            Some(s) => valid_utf8(bytes@) && s@ == decode_utf8(bytes@),
            None => !valid_utf8(bytes@),
        },
{
    String::from_utf8(bytes).ok()
}

/// A copy of a list of strings.
pub fn copy_texts(v: &Vec<String>) -> (r: Vec<String>)
    ensures
        texts(r@) == texts(v@),
{
    let mut out: Vec<String> = Vec::new();
    let mut i: usize = 0;
    while i < v.len()
        invariant
            i <= v@.len(),
            texts(out@) == texts(v@).take(i as int),
        decreases v@.len() - i,
    {
        let ghost before = out@;
        out.push(v[i].clone());
        assert(texts(out@) =~= texts(before).push(v@[i as int]@));
        assert(texts(v@).take(i + 1) =~= texts(v@).take(i as int).push(v@[i as int]@));
        i += 1;
    }
    assert(texts(v@).take(v@.len() as int) =~= texts(v@));
    out
}

/// A copy of a list of key and value pairs.
pub fn copy_pairs(v: &Vec<(String, String)>) -> (r: Vec<(String, String)>)
    ensures
        pairs_text(r@) == pairs_text(v@),
{
    let mut out: Vec<(String, String)> = Vec::new();
    let mut i: usize = 0;
    while i < v.len()
        invariant
            i <= v@.len(),
            pairs_text(out@) == pairs_text(v@).take(i as int),
        decreases v@.len() - i,
    {
        let ghost before = out@;
        out.push((v[i].0.clone(), v[i].1.clone()));
        assert(pairs_text(out@) =~= pairs_text(before).push((v@[i as int].0@, v@[i as int].1@)));
        assert(pairs_text(v@).take(i + 1) =~= pairs_text(v@).take(i as int).push(
            (v@[i as int].0@, v@[i as int].1@),
        ));
        i += 1;
    }
    assert(pairs_text(v@).take(v@.len() as int) =~= pairs_text(v@));
    out
}

/// A string of its own for an optional string slice.
pub fn own_opt(value: Option<&str>) -> (r: Option<String>)
    ensures
        opt_text(r) == opt_str(value),
{
    match value {
        Some(s) => Some(s.to_owned()),
        None => None,
    }
}

/// The slice of an optional string.
pub fn opt_slice(value: &Option<String>) -> (r: Option<&str>)
    ensures
        opt_str(r) == opt_text(*value),
{
    match value {
        Some(s) => Some(s.as_str()),
        None => None,
    }
}

/// Pairs after a key was given a value: in place where the key is there, else
/// at the end.
pub open spec fn put(pairs: Seq<(Seq<char>, Seq<char>)>, key: Seq<char>, value: Seq<char>) -> Seq<
    (Seq<char>, Seq<char>),
>
    decreases pairs.len(),
{
    if pairs.len() == 0 {
        seq![(key, value)]
    } else if pairs[0].0 == key {
        seq![(key, value)] + pairs.skip(1)
    } else {
        seq![pairs[0]] + put(pairs.skip(1), key, value)
    }
}

/// What was put under a key is what a lookup finds, and other keys keep theirs.
pub proof fn put_value_is_found(
    pairs: Seq<(Seq<char>, Seq<char>)>,
    key: Seq<char>,
    value: Seq<char>,
    other: Seq<char>,
)
    ensures
        assoc(put(pairs, key, value), key) == Some(value),
        other != key ==> assoc(put(pairs, key, value), other) == assoc(pairs, other),
    decreases pairs.len(),
{
    let r = put(pairs, key, value);
    if pairs.len() == 0 {
        assert(r.skip(1) =~= pairs);
    } else if pairs[0].0 == key {
        assert(r.skip(1) =~= pairs.skip(1));
    } else {
        put_value_is_found(pairs.skip(1), key, value, other);
        assert(r.skip(1) =~= put(pairs.skip(1), key, value));
    }
}

/// Gives a key a value.
pub fn put_pair(pairs: &mut Vec<(String, String)>, key: String, value: String)
    ensures
        pairs_text(final(pairs)@) == put(pairs_text(old(pairs)@), key@, value@),
{
    let ghost all = pairs_text(pairs@);
    let ghost want = put(all, key@, value@);
    let mut i: usize = 0;
    assert(all.skip(0) =~= all);
    assert(all.take(0) + want =~= want);
    while i < pairs.len() && !same_text(&pairs[i].0, &key)
        invariant
            i <= pairs@.len(),
            pairs@ == old(pairs)@,
            all == pairs_text(pairs@),
            want == put(all, key@, value@),
            want == all.take(i as int) + put(all.skip(i as int), key@, value@),
        decreases pairs@.len() - i,
    {
        proof {
            let rest = all.skip(i as int);
            assert(rest.skip(1) =~= all.skip(i + 1));
            assert(all.take(i as int) + (seq![rest[0]] + put(rest.skip(1), key@, value@))
                =~= all.take(i + 1) + put(all.skip(i + 1), key@, value@));
        }
        i += 1;
    }
    if i < pairs.len() {
        pairs.set(i, (key, value));
        assert(all.skip(i as int).skip(1) =~= all.skip(i + 1));
    } else {
        pairs.push((key, value));
    }
    assert(pairs_text(pairs@) =~= want);
}

/// The word for a truth value.
pub open spec fn truth(b: bool) -> Seq<char> {
    if b {
        "true"@
    } else {
        "false"@
    }
}

pub fn truth_text(b: bool) -> (r: String)
    ensures
        r@ == truth(b),
{
    if b {
        "true".to_owned()
    } else {
        "false".to_owned()
    }
}

/// An optional text as Rust's `{:?}` writes it.
pub open spec fn debug_opt(v: Option<Seq<char>>) -> Seq<char> {
    match v {
        Some(s) => "Some("@ + debug_quoted(s) + ")"@,
        None => "None"@,
    }
}

pub fn debug_opt_text(v: &Option<String>) -> (r: String)
    ensures
        r@ == debug_opt(opt_text(*v)),
{
    match v {
        Some(s) => "Some(".to_owned().concat(&quote_debug(s)).concat(")"),
        None => "None".to_owned(),
    }
}

} // verus!
