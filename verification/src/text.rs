//! Text operations of the standard library, with what they are taken to do.
//!
//! No function of this module is proved: each hands its arguments to one
//! function of the standard library, and its contract records what that
//! function is documented to return.

use vstd::prelude::*;
use vstd::utf8::*;

verus! {

/// The texts of `strings`, in the same order.
pub open spec fn texts(strings: Seq<String>) -> Seq<Seq<char>> {
    strings.map_values(|s: String| s@)
}

/// `core::str::from_utf8`: the bytes as text when they are valid UTF-8,
/// and nothing when they are not. The text has exactly the given bytes.
#[verifier::external_body]
pub(crate) fn str_from_utf8(bytes: &[u8]) -> (text: Option<&str>)
    ensures
        text is Some <==> valid_utf8(bytes@),
        text is Some ==> encode_utf8(text.unwrap()@) == bytes@,
{
    core::str::from_utf8(bytes).ok()
}

/// `String::from_utf8`: the bytes as an owned text when they are valid
/// UTF-8, and nothing when they are not. The text has exactly the given
/// bytes.
#[verifier::external_body]
pub(crate) fn string_from_utf8(bytes: Vec<u8>) -> (text: Option<String>)
    ensures
        text is Some <==> valid_utf8(bytes@),
        text is Some ==> encode_utf8(text.unwrap()@) == bytes@,
{
    String::from_utf8(bytes).ok()
}

/// The text that `String::from_utf8_lossy` makes of `bytes`. On valid
/// UTF-8 it is the text that the bytes encode; elsewhere it holds a
/// replacement character for each part that is not valid.
pub uninterp spec fn lossy_text(bytes: Seq<u8>) -> Seq<char>;

/// `String::from_utf8_lossy`: the bytes as text, with a replacement
/// character wherever they are not valid UTF-8.
#[verifier::external_body]
pub(crate) fn string_from_utf8_lossy(bytes: &[u8]) -> (text: String)
    ensures
        text@ == lossy_text(bytes@),
        valid_utf8(bytes@) ==> text@ == decode_utf8(bytes@),
{
    String::from_utf8_lossy(bytes).into_owned()
}

/// `String::push`: appends one character.
#[verifier::external_body]
pub(crate) fn string_push(text: &mut String, c: char)
    ensures
        final(text)@ == old(text)@.push(c),
{
    text.push(c)
}

/// `text` with `to` in place of each `from`.
pub open spec fn replaced(text: Seq<char>, from: char, to: Seq<char>) -> Seq<char>
    decreases text.len(),
{
    if text.len() == 0 {
        text
    } else if text.last() == from {
        replaced(text.drop_last(), from, to) + to
    } else {
        replaced(text.drop_last(), from, to).push(text.last())
    }
}

/// `str::replace` with a character as the pattern: the text with `to` in
/// place of each `from`.
#[verifier::external_body]
pub(crate) fn str_replace(text: &str, from: char, to: &str) -> (out: String)
    ensures
        out@ == replaced(text@, from, to@),
{
    text.replace(from, to)
}

/// `text` without the `c`s that it begins with.
pub open spec fn trimmed_start(text: Seq<char>, c: char) -> Seq<char>
    decreases text.len(),
{
    if text.len() > 0 && text[0] == c {
        trimmed_start(text.drop_first(), c)
    } else {
        text
    }
}

/// `str::trim_start_matches` with a character as the pattern: the text
/// without the `c`s that it begins with.
#[verifier::external_body]
pub(crate) fn str_trim_start_matches(text: &str, c: char) -> (out: &str)
    ensures
        out@ == trimmed_start(text@, c),
{
    text.trim_start_matches(c)
}

/// True for the characters that Unicode gives the property White_Space.
pub open spec fn is_white_space(c: char) -> bool {
    let code = c as u32;
    ||| 0x09 <= code <= 0x0d
    ||| code == 0x20
    ||| code == 0x85
    ||| code == 0xa0
    ||| code == 0x1680
    ||| 0x2000 <= code <= 0x200a
    ||| code == 0x2028
    ||| code == 0x2029
    ||| code == 0x202f
    ||| code == 0x205f
    ||| code == 0x3000
}

/// `text` without the white space that it begins with.
pub open spec fn trimmed_front(text: Seq<char>) -> Seq<char>
    decreases text.len(),
{
    if text.len() > 0 && is_white_space(text[0]) {
        trimmed_front(text.drop_first())
    } else {
        text
    }
}

/// `text` without the white space that it ends with.
pub open spec fn trimmed_back(text: Seq<char>) -> Seq<char>
    decreases text.len(),
{
    if text.len() > 0 && is_white_space(text.last()) {
        trimmed_back(text.drop_last())
    } else {
        text
    }
}

/// `text` without the white space at its beginning and at its end.
pub open spec fn trimmed(text: Seq<char>) -> Seq<char> {
    trimmed_back(trimmed_front(text))
}

/// `str::trim`: the text without the white space, as Unicode defines it
/// by the property White_Space, at its beginning and at its end.
#[verifier::external_body]
pub(crate) fn str_trim(text: &str) -> (out: &str)
    ensures
        out@ == trimmed(text@),
{
    text.trim()
}

/// The text that `str::to_lowercase` makes of `text`: its lower case, as
/// Unicode defines it.
pub uninterp spec fn lowercased(text: Seq<char>) -> Seq<char>;

/// `str::to_lowercase`: the text in lower case.
#[verifier::external_body]
pub(crate) fn str_to_lowercase(text: &str) -> (out: String)
    ensures
        out@ == lowercased(text@),
{
    text.to_lowercase()
}

/// True when `needle` occurs in `text` as a run of neighbouring characters.
pub open spec fn contains_text(text: Seq<char>, needle: Seq<char>) -> bool {
    exists|i: int|
        0 <= i <= text.len() - needle.len() && #[trigger] text.subrange(i, i + needle.len())
            == needle
}

/// `str::contains` with a text as the pattern: whether the pattern occurs
/// in the text.
#[verifier::external_body]
pub(crate) fn str_contains(text: &str, needle: &str) -> (found: bool)
    ensures
        found == contains_text(text@, needle@),
{
    text.contains(needle)
}

/// `str::starts_with` with a text as the pattern: whether the text begins
/// with the pattern.
#[verifier::external_body]
pub(crate) fn str_starts_with(text: &str, prefix: &str) -> (found: bool)
    ensures
        found == prefix@.is_prefix_of(text@),
{
    text.starts_with(prefix)
}

/// True when `text` is made of decimal digits only.
pub open spec fn all_digits(text: Seq<char>) -> bool {
    forall|i: int| 0 <= i < text.len() ==> '0' <= #[trigger] text[i] <= '9'
}

/// The number that the decimal digits of `text` state.
pub open spec fn digits_value(text: Seq<char>) -> nat
    decreases text.len(),
{
    if text.len() == 0 {
        0
    } else {
        (digits_value(text.drop_last()) * 10 + (text.last() as u32 - '0' as u32)) as nat
    }
}

/// The number that `text` states as a `usize`: the value of its decimal
/// digits, before which a plus sign may stand. There is none when no
/// digit is there, when anything but a digit is there, or when the value
/// is too large.
pub open spec fn parsed_usize(text: Seq<char>) -> Option<usize> {
    let digits = if text.len() > 0 && text[0] == '+' {
        text.drop_first()
    } else {
        text
    };
    if digits.len() > 0 && all_digits(digits) && digits_value(digits) <= usize::MAX {
        Some(digits_value(digits) as usize)
    } else {
        None
    }
}

/// `str::parse` for `usize`: the number that the text states in decimal
/// digits, with or without a plus sign before them; nothing when the
/// text is empty, holds anything else, or states too large a number.
#[verifier::external_body]
pub(crate) fn str_parse_usize(text: &str) -> (number: Option<usize>)
    ensures
        number == parsed_usize(text@),
{
    text.parse::<usize>().ok()
}

} // verus!
