//! Reading a filing: what a line holds, its text, and the records parsed
//! from it.

pub mod context;
pub mod parser;

use vstd::prelude::*;
use vstd::slice::slice_to_vec;
use vstd::utf8::*;
use crate::encoding::latin1::{iso_8859_1_to_utf8, lemma_latin1_to_utf8};
use crate::encoding::{
    decoded_bytes, decoded_text, has_separator, is_ascii_only, lemma_flags_of_push, SEPARATOR,
};
use crate::text::{str_from_utf8, string_from_utf8};

verus! {

/// What a line's bytes hold.
#[derive(Debug)]
pub struct LineInfo {
    /// Whether the separator byte occurs.
    pub ascii28: bool,
    /// Whether every byte is below 128.
    pub ascii_only: bool,
    /// Whether the bytes are valid UTF-8 as they stand.
    pub valid_utf8: bool,
    /// The number of bytes.
    pub length: usize,
}

impl LineInfo {
    /// What an empty line holds.
    pub fn new() -> (info: Self)
        ensures
            info == (LineInfo { ascii28: false, ascii_only: true, valid_utf8: true, length: 0 }),
    {
        LineInfo { ascii28: false, ascii_only: true, valid_utf8: true, length: 0 }
    }
}

/// Reports what `data` holds: whether the separator occurs, whether all
/// bytes are ASCII, whether the bytes are valid UTF-8, and how many there
/// are.
pub fn collect_line_info(data: &[u8]) -> (info: LineInfo)
    ensures
        info.ascii28 == has_separator(data@),
        info.ascii_only == is_ascii_only(data@),
        info.valid_utf8 == valid_utf8(data@),
        info.length == data@.len(),
{
    let mut info = LineInfo::new();
    let mut i: usize = 0;
    while i < data.len()
        invariant
            i <= data.len(),
            info.length == i,
            info.valid_utf8,
            info.ascii28 == has_separator(data@.subrange(0, i as int)),
            info.ascii_only == is_ascii_only(data@.subrange(0, i as int)),
        decreases data.len() - i,
    {
        let byte: u8 = data[i];
        proof {
            let seen = data@.subrange(0, i as int);
            assert(data@.subrange(0, i + 1) =~= seen.push(byte));
            lemma_flags_of_push(seen, byte);
        }
        info.length += 1;
        if byte == SEPARATOR {
            info.ascii28 = true;
        }
        if byte > 127 {
            info.ascii_only = false;
        }
        i += 1;
    }
    assert(data@.subrange(0, data@.len() as int) =~= data@);
    if str_from_utf8(data).is_none() {
        info.valid_utf8 = false;
    }
    info
}

/// Decodes one line and reports what its bytes hold. The text is the line
/// itself when its bytes are valid UTF-8 and its Latin-1 reading otherwise.
pub fn decode_line(data: &[u8]) -> (decoded: (String, LineInfo))
    ensures
        decoded.0@ == decoded_text(data@),
        encode_utf8(decoded.0@) == decoded_bytes(data@),
        decoded.1.ascii28 == has_separator(data@),
        decoded.1.ascii_only == is_ascii_only(data@),
        decoded.1.valid_utf8 == valid_utf8(data@),
        decoded.1.length == data@.len(),
{
    let info = collect_line_info(data);
    let bytes = if info.valid_utf8 {
        slice_to_vec(data)
    } else {
        iso_8859_1_to_utf8(data)
    };
    proof {
        lemma_latin1_to_utf8(data@);
    }
    let text = string_from_utf8(bytes);
    let s = text.unwrap();
    proof {
        encode_utf8_decode_utf8(s@);
    }
    (s, info)
}

} // verus!
