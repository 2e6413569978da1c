//! Classification and repair of raw line bytes into valid UTF-8.
//!
//! A line arrives as bytes of unknown encoding. [`decode_line`] returns it
//! as text: unchanged when the bytes are valid UTF-8, and otherwise read as
//! Latin-1, so that no line is ever rejected.

pub mod latin1;
pub mod recognition;
pub mod scanner;

use vstd::prelude::*;
use vstd::utf8::*;
use crate::encoding::latin1::{iso_8859_1_to_utf8, latin1_text, latin1_to_utf8, lemma_latin1_to_utf8};
use crate::encoding::recognition::{is_utf8_prefix, lemma_scan_alive_iff_prefix};
use crate::encoding::scanner::{next_state, scan, AFTER_F4, UTF8_ACCEPT, UTF8_REJECT};
use crate::text::{str_from_utf8, string_from_utf8};

verus! {

/// The control byte that some filings use to separate fields.
pub const SEPARATOR: u8 = 28;

/// What one pass over a line's bytes finds.
#[derive(Debug)]
pub struct LineInfo {
    /// Whether the separator byte occurs.
    pub ascii28: bool,
    /// Whether every byte is below 128.
    pub ascii_only: bool,
    /// Whether the scanner never rejected: the bytes are valid UTF-8, or
    /// valid UTF-8 followed by the beginning of one more scalar.
    pub valid_utf8: bool,
    /// The number of bytes.
    pub length: usize,
}

impl Default for LineInfo {
    /// What an empty line holds.
    fn default() -> (info: Self)
        ensures
            info == (LineInfo { ascii28: false, ascii_only: true, valid_utf8: true, length: 0 }),
    {
        LineInfo { ascii28: false, ascii_only: true, valid_utf8: true, length: 0 }
    }
}

/// True when the separator byte occurs in `bytes`.
pub open spec fn has_separator(bytes: Seq<u8>) -> bool {
    exists|i: int| 0 <= i < bytes.len() && bytes[i] == SEPARATOR
}

/// True when every byte of `bytes` is below 128.
pub open spec fn is_ascii_only(bytes: Seq<u8>) -> bool {
    forall|i: int| 0 <= i < bytes.len() ==> bytes[i] < 128
}

/// The bytes of the text that a line decodes to: the line itself when it is
/// valid UTF-8, its Latin-1 reading otherwise.
pub open spec fn decoded_bytes(bytes: Seq<u8>) -> Seq<u8> {
    if valid_utf8(bytes) {
        bytes
    } else {
        latin1_to_utf8(bytes)
    }
}

/// The text that a line decodes to.
pub open spec fn decoded_text(bytes: Seq<u8>) -> Seq<char> {
    if valid_utf8(bytes) {
        decode_utf8(bytes)
    } else {
        latin1_text(bytes)
    }
}

/// One more byte brings the separator when it is the separator, and keeps
/// a line ASCII when it is below 128.
pub proof fn lemma_flags_of_push(bytes: Seq<u8>, byte: u8)
    ensures
        has_separator(bytes.push(byte)) == (has_separator(bytes) || byte == SEPARATOR),
        is_ascii_only(bytes.push(byte)) == (is_ascii_only(bytes) && byte < 128),
{
    let next = bytes.push(byte);
    if has_separator(bytes) {
        let j = choose|j: int| 0 <= j < bytes.len() && bytes[j] == SEPARATOR;
        assert(next[j] == SEPARATOR);
    }
    if has_separator(next) {
        let j = choose|j: int| 0 <= j < next.len() && next[j] == SEPARATOR;
        assert(j < bytes.len() ==> bytes[j] == SEPARATOR);
    }
    if byte == SEPARATOR {
        assert(next[bytes.len() as int] == SEPARATOR);
    }
    if is_ascii_only(next) {
        assert(forall|j: int| 0 <= j < bytes.len() ==> bytes[j] == next[j]);
        assert(next[bytes.len() as int] < 128);
    }
}

/// Scans `data` once, from the first byte to the last without stopping
/// early, and reports what it holds.
pub fn collect_line_info(data: &[u8]) -> (info: LineInfo)
    ensures
        info.ascii28 == has_separator(data@),
        info.ascii_only == is_ascii_only(data@),
        info.valid_utf8 == is_utf8_prefix(data@),
        info.valid_utf8 == (scan(data@) != UTF8_REJECT),
        info.length == data@.len(),
{
    let mut info = LineInfo::default();
    let mut state: u8 = UTF8_ACCEPT;
    let mut i: usize = 0;
    while i < data.len()
        invariant
            i <= data.len(),
            info.length == i,
            info.ascii28 == has_separator(data@.subrange(0, i as int)),
            info.ascii_only == is_ascii_only(data@.subrange(0, i as int)),
            info.valid_utf8 == (scan(data@.subrange(0, i as int)) != UTF8_REJECT),
            state == scan(data@.subrange(0, i as int)),
            state <= AFTER_F4,
        decreases data.len() - i,
    {
        let byte: u8 = data[i];
        proof {
            let seen = data@.subrange(0, i as int);
            assert(data@.subrange(0, i + 1) =~= seen.push(byte));
            assert(seen.push(byte).drop_last() =~= seen);
            lemma_flags_of_push(seen, byte);
        }
        info.length += 1;
        if byte == SEPARATOR {
            info.ascii28 = true;
        }
        if byte > 127 {
            info.ascii_only = false;
        }
        state = next_state(state, byte);
        if state == UTF8_REJECT {
            info.valid_utf8 = false;
        }
        i += 1;
    }
    proof {
        assert(data@.subrange(0, data@.len() as int) =~= data@);
        lemma_scan_alive_iff_prefix(data@);
    }
    info
}

/// Decodes one line. The text is the line itself when its bytes are valid
/// UTF-8 and its Latin-1 reading otherwise; the flag says whether the
/// separator byte occurs in the line.
pub fn decode_line(data: &[u8]) -> (decoded: (String, bool))
    ensures
        decoded.0@ == decoded_text(data@),
        encode_utf8(decoded.0@) == decoded_bytes(data@),
        decoded.1 == has_separator(data@),
{
    let info = collect_line_info(data);
    proof {
        lemma_utf8_is_prefix(data@);
    }
    if info.valid_utf8 {
        if let Some(s) = str_from_utf8(data) {
            proof {
                encode_utf8_decode_utf8(s@);
            }
            return (s.to_owned(), info.ascii28);
        }
    }
    let converted = iso_8859_1_to_utf8(data);
    proof {
        lemma_latin1_to_utf8(data@);
    }
    let text = string_from_utf8(converted);
    let s = text.unwrap();
    proof {
        encode_utf8_decode_utf8(s@);
    }
    (s, info.ascii28)
}

/// Valid UTF-8 needs no further bytes to be completed.
pub proof fn lemma_utf8_is_prefix(bytes: Seq<u8>)
    ensures
        valid_utf8(bytes) ==> is_utf8_prefix(bytes),
{
    if valid_utf8(bytes) {
        assert(bytes + Seq::<u8>::empty() =~= bytes);
    }
}

/// The separator occurs in a concatenation exactly when it occurs in one
/// of the parts.
pub proof fn lemma_has_separator_concat(a: Seq<u8>, b: Seq<u8>)
    ensures
        has_separator(a + b) == (has_separator(a) || has_separator(b)),
{
    let ab = a + b;
    if has_separator(a) {
        let i = choose|i: int| 0 <= i < a.len() && a[i] == SEPARATOR;
        assert(ab[i] == SEPARATOR);
    }
    if has_separator(b) {
        let i = choose|i: int| 0 <= i < b.len() && b[i] == SEPARATOR;
        assert(ab[a.len() + i] == SEPARATOR);
    }
}

proof fn lemma_trail_is_high(b: u8)
    by (bit_vector)
    ensures
        (b & 0x3f) | 0x80 >= 0x80,
{
}

/// The fallback keeps the separator: it occurs in the re-encoded bytes
/// exactly when it occurs in the line.
pub proof fn lemma_fallback_keeps_separator(bytes: Seq<u8>)
    ensures
        has_separator(latin1_to_utf8(bytes)) == has_separator(bytes),
    decreases bytes.len(),
{
    if bytes.len() > 0 {
        let init = bytes.drop_last();
        let last = bytes.last();
        let unit = latin1::latin1_unit(last);
        lemma_fallback_keeps_separator(init);
        lemma_has_separator_concat(latin1_to_utf8(init), unit);
        lemma_has_separator_concat(init, seq![last]);
        assert(init + seq![last] =~= bytes);
        lemma_trail_is_high(last);
    }
}

/// Whatever the bytes of a line, the text it decodes to is valid UTF-8
/// and is the text that its bytes encode.
pub proof fn lemma_decoded_is_valid_utf8(bytes: Seq<u8>)
    ensures
        valid_utf8(decoded_bytes(bytes)),
        decode_utf8(decoded_bytes(bytes)) == decoded_text(bytes),
{
    lemma_latin1_to_utf8(bytes);
}

/// Decoding is idempotent: the bytes of a decoded line decode to
/// themselves, with the same text and the same separator flag. In
/// particular a line that is valid UTF-8 is returned unchanged.
pub proof fn lemma_decode_idempotent(bytes: Seq<u8>)
    ensures
        valid_utf8(bytes) ==> decoded_bytes(bytes) == bytes,
        decoded_bytes(decoded_bytes(bytes)) == decoded_bytes(bytes),
        decoded_text(decoded_bytes(bytes)) == decoded_text(bytes),
        has_separator(decoded_bytes(bytes)) == has_separator(bytes),
{
    lemma_decoded_is_valid_utf8(bytes);
    lemma_fallback_keeps_separator(bytes);
}

/// A single byte from 128 on is never valid UTF-8 by itself: it decodes by
/// the fallback, to the two bytes of the rule and to the character of the
/// same number.
pub proof fn lemma_single_high_byte(b: u8)
    requires
        b >= 128,
    ensures
        !valid_utf8(seq![b]),
        decoded_bytes(seq![b]) == seq![if b > 0xbf { 0xc3u8 } else { 0xc2u8 }, (b & 0x3f) | 0x80],
        decoded_text(seq![b]) == seq![b as char],
{
    let line = seq![b];
    assert(latin1_to_utf8(line.drop_last()) =~= Seq::<u8>::empty());
}

} // verus!
