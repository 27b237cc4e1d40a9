//! Text as sequences of characters: conversion between `String` and
//! `Vec<char>`, numerals, capitals, ASCII case folding and search.

use vstd::prelude::*;

verus! {

/// Appends one character to a string, by std's `String::push`, which is
/// trusted to leave the characters before it as they were.
#[verifier::external_body]
pub(crate) fn push_char(text: &mut String, c: char)
    ensures
        final(text)@ == old(text)@.push(c),
{
    text.push(c);
}

/// The characters of a string, in order.
pub fn chars_of(text: &str) -> (chars: Vec<char>)
    ensures
        chars@ == text@,
{
    let mut chars: Vec<char> = Vec::new();
    for c in it: text.chars()
        invariant
            chars@ == it.seq().take(it.index()),
            it.seq() == text@,
    {
        chars.push(c);
    }
    chars
}

/// The string made of the given characters, in order.
pub fn text_of(chars: &Vec<char>) -> (text: String)
    ensures
        text@ == chars@,
{
    let mut text = String::new();
    let mut i: usize = 0;
    while i < chars.len()
        invariant
            i <= chars.len(),
            text@ == chars@.take(i as int),
        decreases chars.len() - i,
    {
        push_char(&mut text, chars[i]);
        i += 1;
    }
    text
}

/// The numeral for a value below sixteen: `0` to `9`, then `a` to `f`.
pub open spec fn digit(d: nat) -> char {
    if d < 10 {
        (d + 0x30) as char
    } else {
        (d + 0x57) as char
    }
}

/// The numeral for a value below sixteen.
pub(crate) fn digit_of(d: u8) -> (c: char)
    requires
        d < 16,
    ensures
        c == digit(d as nat),
{
    if d < 10 {
        (d + 0x30) as char
    } else {
        (d + 0x57) as char
    }
}

/// The decimal numeral of `n`, without leading zeros; `0` for zero.
pub open spec fn decimal(n: nat) -> Seq<char>
    decreases n,
{
    if n < 10 {
        seq![digit(n)]
    } else {
        decimal(n / 10).push(digit(n % 10))
    }
}

/// The hexadecimal numeral of `n`, in lower case and without leading zeros;
/// `0` for zero.
pub open spec fn hexadecimal(n: nat) -> Seq<char>
    decreases n,
{
    if n < 16 {
        seq![digit(n)]
    } else {
        hexadecimal(n / 16).push(digit(n % 16))
    }
}

/// Appends the decimal numeral of `n` to `text`.
pub fn append_decimal(text: &mut String, n: u128)
    ensures
        final(text)@ == old(text)@ + decimal(n as nat),
    decreases n,
{
    if n < 10 {
        push_char(text, digit_of(n as u8));
    } else {
        append_decimal(text, n / 10);
        push_char(text, digit_of((n % 10) as u8));
    }
}

/// Appends the lower-case hexadecimal numeral of `n` to `text`.
pub fn append_hexadecimal(text: &mut String, n: u16)
    ensures
        final(text)@ == old(text)@ + hexadecimal(n as nat),
    decreases n,
{
    if n < 16 {
        push_char(text, digit_of(n as u8));
    } else {
        append_hexadecimal(text, n / 16);
        push_char(text, digit_of((n % 16) as u8));
    }
}

/// The decimal numeral of `n` as a string.
pub fn decimal_text(n: u128) -> (text: String)
    ensures
        text@ == decimal(n as nat),
{
    let mut text = String::new();
    append_decimal(&mut text, n);
    text
}

/// Appends the characters of `tail` to `text`.
pub fn append_chars(text: &mut String, tail: &Vec<char>)
    ensures
        final(text)@ == old(text)@ + tail@,
{
    let mut i: usize = 0;
    while i < tail.len()
        invariant
            i <= tail.len(),
            text@ == old(text)@ + tail@.take(i as int),
        decreases tail.len() - i,
    {
        push_char(text, tail[i]);
        i += 1;
    }
}

/// An upper-case ASCII letter becomes its lower-case form; any other
/// character stays.
pub open spec fn fold_char(c: char) -> char {
    if 'A' <= c <= 'Z' {
        ((c as nat) + 0x20) as char
    } else {
        c
    }
}

/// The text with every upper-case ASCII letter in lower case.
pub open spec fn folded(text: Seq<char>) -> Seq<char> {
    Seq::new(text.len(), |i: int| fold_char(text[i]))
}

/// The lower-case form of an upper-case ASCII letter, the character itself
/// otherwise.
pub fn fold_ascii(c: char) -> (folded: char)
    ensures
        folded == fold_char(c),
{
    if 'A' <= c && c <= 'Z' {
        ((c as u8) + 0x20) as char
    } else {
        c
    }
}

/// The characters of `text` with upper-case ASCII letters in lower case.
pub fn folded_chars(text: &str) -> (chars: Vec<char>)
    ensures
        chars@ == folded(text@),
{
    let plain = chars_of(text);
    let mut chars: Vec<char> = Vec::new();
    let mut i: usize = 0;
    while i < plain.len()
        invariant
            i <= plain.len(),
            plain@ == text@,
            chars@ == folded(text@).take(i as int),
        decreases plain.len() - i,
    {
        chars.push(fold_ascii(plain[i]));
        i += 1;
    }
    chars
}

/// Whether `needle` stands in `haystack` from position `at` on.
pub open spec fn occurs_at(haystack: Seq<char>, needle: Seq<char>, at: int) -> bool {
    &&& 0 <= at
    &&& at + needle.len() <= haystack.len()
    &&& haystack.subrange(at, at + needle.len()) == needle
}

/// Whether `needle` stands somewhere in `haystack`. The empty text stands in
/// every text.
pub open spec fn occurs_in(haystack: Seq<char>, needle: Seq<char>) -> bool {
    exists|at: int| occurs_at(haystack, needle, at)
}

/// Tells whether `needle` stands in `haystack` from position `at` on.
fn matches_at(haystack: &Vec<char>, needle: &Vec<char>, at: usize) -> (found: bool)
    requires
        at + needle.len() <= haystack.len(),
    ensures
        found == occurs_at(haystack@, needle@, at as int),
{
    let mut k: usize = 0;
    while k < needle.len()
        invariant
            k <= needle.len(),
            at + needle.len() <= haystack.len(),
            haystack@.subrange(at as int, at + k) == needle@.take(k as int),
        decreases needle.len() - k,
    {
        if haystack[at + k] != needle[k] {
            assert(haystack@.subrange(at as int, at + needle.len())[k as int] != needle@[k as int]);
            return false;
        }
        assert(haystack@.subrange(at as int, at + k + 1) == haystack@.subrange(
            at as int,
            at + k,
        ).push(haystack@[at + k]));
        assert(needle@.take(k + 1) == needle@.take(k as int).push(needle@[k as int]));
        k += 1;
    }
    assert(needle@.take(needle.len() as int) == needle@);
    true
}

/// Tells whether `needle` stands somewhere in `haystack`.
pub fn contains_chars(haystack: &Vec<char>, needle: &Vec<char>) -> (found: bool)
    ensures
        found == occurs_in(haystack@, needle@),
{
    if needle.len() == 0 {
        assert(occurs_at(haystack@, needle@, 0)) by {
            assert(haystack@.subrange(0, 0) == needle@);
        }
        return true;
    }
    if needle.len() > haystack.len() {
        return false;
    }
    let last: usize = haystack.len() - needle.len();
    let mut at: usize = 0;
    while at <= last
        invariant
            at <= last + 1,
            last == haystack.len() - needle.len(),
            0 < needle.len() <= haystack.len(),
            forall|j: int| 0 <= j < at ==> !occurs_at(haystack@, needle@, j),
        decreases last + 1 - at,
    {
        if matches_at(haystack, needle, at) {
            return true;
        }
        at += 1;
    }
    false
}

/// Whether `filter` is empty or stands in `value`, upper-case and lower-case
/// ASCII letters taken as equal.
pub open spec fn filter_accepts(filter: Seq<char>, value: Seq<char>) -> bool {
    filter.len() == 0 || occurs_in(folded(value), folded(filter))
}

/// Tells whether a filter text accepts a value: an empty filter accepts
/// every value, any other filter the values it stands in, without regard to
/// the case of ASCII letters.
pub fn filter_matches(filter: &str, value: &str) -> (accepted: bool)
    ensures
        accepted == filter_accepts(filter@, value@),
{
    let wanted = folded_chars(filter);
    if wanted.len() == 0 {
        return true;
    }
    let given = folded_chars(value);
    contains_chars(&given, &wanted)
}

/// What std's `char::to_uppercase` yields for a character: its upper-case
/// form, which may be more than one character.
pub uninterp spec fn upper_case(c: char) -> Seq<char>;

/// The upper-case form of a character, by std's `char::to_uppercase`, which
/// is trusted to depend on the character alone.
#[verifier::external_body]
pub(crate) fn upper_case_of(c: char) -> (upper: String)
    ensures
        upper@ == upper_case(c),
{
    c.to_uppercase().collect()
}

/// What std's `str::to_lowercase` yields for a text: its lower-case form.
pub uninterp spec fn lower_case(text: Seq<char>) -> Seq<char>;

/// The lower-case form of a text, by std's `str::to_lowercase`, which is
/// trusted to depend on the characters of the text alone.
#[verifier::external_body]
pub(crate) fn lower_case_of(text: &str) -> (lower: String)
    ensures
        lower@ == lower_case(text@),
{
    text.to_lowercase()
}

/// The text with its first character replaced by `initial`; the empty text
/// stays empty.
pub open spec fn with_initial(text: Seq<char>, initial: Seq<char>) -> Seq<char> {
    if text.len() == 0 {
        text
    } else {
        initial + text.skip(1)
    }
}

/// The text with its first character in upper case.
pub open spec fn capitalized(text: Seq<char>) -> Seq<char> {
    if text.len() == 0 {
        text
    } else {
        with_initial(text, upper_case(text[0]))
    }
}

/// Puts `initial` in the place of the first character of `text`. An empty
/// text stays empty.
pub fn replace_initial(text: &str, initial: &str) -> (replaced: String)
    ensures
        replaced@ == with_initial(text@, initial@),
{
    let chars = chars_of(text);
    let mut replaced = String::new();
    if chars.len() == 0 {
        assert(replaced@ =~= text@);
        return replaced;
    }
    replaced.append(initial);
    let mut i: usize = 1;
    while i < chars.len()
        invariant
            1 <= i <= chars.len(),
            chars@ == text@,
            replaced@ == initial@ + text@.subrange(1, i as int),
        decreases chars.len() - i,
    {
        push_char(&mut replaced, chars[i]);
        i += 1;
    }
    assert(text@.subrange(1, text@.len() as int) == text@.skip(1));
    replaced
}

/// Puts the first character of `text` in upper case.
pub fn capitalize(text: &str) -> (upper: String)
    ensures
        upper@ == capitalized(text@),
{
    let chars = chars_of(text);
    if chars.len() == 0 {
        let empty = String::new();
        assert(empty@ =~= text@);
        return empty;
    }
    let initial = upper_case_of(chars[0]);
    replace_initial(text, initial.as_str())
}

/// The text between round brackets, after a space.
pub open spec fn bracketed(text: Seq<char>) -> Seq<char> {
    seq![' ', '('] + text + seq![')']
}

/// Puts `text` between round brackets, after a space.
pub fn in_brackets(text: &str) -> (wrapped: String)
    ensures
        wrapped@ == bracketed(text@),
{
    let mut wrapped = String::new();
    push_char(&mut wrapped, ' ');
    push_char(&mut wrapped, '(');
    wrapped.append(text);
    push_char(&mut wrapped, ')');
    assert(wrapped@ =~= bracketed(text@));
    wrapped
}

} // verus!
