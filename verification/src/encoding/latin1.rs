//! The fallback for bytes that are not valid UTF-8: each byte is read as
//! the Latin-1 character of the same number and written out as UTF-8.

use vstd::prelude::*;
use vstd::utf8::*;

verus! {

/// The UTF-8 encoding of the Latin-1 character `b`: the byte itself below
/// 128, and a lead byte and a trail byte from 128 on.
pub open spec fn latin1_unit(b: u8) -> Seq<u8> {
    if b < 128 {
        seq![b]
    } else {
        seq![if b > 0xbf { 0xc3u8 } else { 0xc2u8 }, (b & 0x3f) | 0x80]
    }
}

/// The UTF-8 encoding of `bytes` read as Latin-1, byte for byte.
pub open spec fn latin1_to_utf8(bytes: Seq<u8>) -> Seq<u8>
    decreases bytes.len(),
{
    if bytes.len() == 0 {
        Seq::<u8>::empty()
    } else {
        latin1_to_utf8(bytes.drop_last()) + latin1_unit(bytes.last())
    }
}

/// The characters of `bytes` read as Latin-1: one for each byte, with the
/// byte's own number.
pub open spec fn latin1_text(bytes: Seq<u8>) -> Seq<char> {
    Seq::new(bytes.len(), |i: int| bytes[i] as char)
}

proof fn lemma_latin1_pair(b: u8)
    by (bit_vector)
    requires
        b >= 128,
    ensures
        0x80 <= (b & 0x3f) | 0x80 <= 0xbf,
        codepoint_width_2(if b > 0xbf { 0xc3u8 } else { 0xc2u8 }, (b & 0x3f) | 0x80) == b as u32,
{
}

proof fn lemma_latin1_single(b: u8)
    by (bit_vector)
    requires
        b < 128,
    ensures
        codepoint_width_1(b) == b as u32,
{
}

/// The encoding of one Latin-1 character is valid UTF-8 and decodes to
/// that character.
pub proof fn lemma_latin1_unit(b: u8)
    ensures
        valid_utf8(latin1_unit(b)),
        decode_utf8(latin1_unit(b)) == seq![b as char],
{
    let q = latin1_unit(b);
    if b < 128 {
        lemma_latin1_single(b);
    } else {
        lemma_latin1_pair(b);
    }
    assert(valid_utf8(pop_first_scalar(q)));
    assert(decode_utf8(pop_first_scalar(q)) =~= Seq::<char>::empty());
}

/// Decoding a concatenation of two valid sequences decodes each part.
pub proof fn lemma_decode_concat(a: Seq<u8>, b: Seq<u8>)
    requires
        valid_utf8(a),
        valid_utf8(b),
    ensures
        valid_utf8(a + b),
        decode_utf8(a + b) == decode_utf8(a) + decode_utf8(b),
    decreases a.len(),
{
    valid_utf8_concat(a, b);
    if a.len() > 0 {
        let rest = pop_first_scalar(a);
        lemma_decode_concat(rest, b);
        assert(pop_first_scalar(a + b) =~= rest + b);
    }
}

/// The fallback encoding is valid UTF-8, whatever the bytes, and decodes to
/// the bytes read as Latin-1.
pub proof fn lemma_latin1_to_utf8(bytes: Seq<u8>)
    ensures
        valid_utf8(latin1_to_utf8(bytes)),
        decode_utf8(latin1_to_utf8(bytes)) == latin1_text(bytes),
    decreases bytes.len(),
{
    if bytes.len() > 0 {
        lemma_latin1_to_utf8(bytes.drop_last());
        lemma_latin1_unit(bytes.last());
        lemma_decode_concat(latin1_to_utf8(bytes.drop_last()), latin1_unit(bytes.last()));
    }
}

/// Re-encodes `data`, read as Latin-1, into UTF-8.
pub fn iso_8859_1_to_utf8(data: &[u8]) -> (output: Vec<u8>)
    ensures
        output@ == latin1_to_utf8(data@),
{
    let mut output: Vec<u8> = Vec::with_capacity(data.len());
    let mut i: usize = 0;
    while i < data.len()
        invariant
            i <= data.len(),
            output@ == latin1_to_utf8(data@.subrange(0, i as int)),
        decreases data.len() - i,
    {
        let b: u8 = data[i];
        proof {
            let next = data@.subrange(0, i + 1);
            assert(next.drop_last() =~= data@.subrange(0, i as int));
        }
        if b < 128 {
            output.push(b);
        } else {
            let first: u8 = if b > 0xbf { 0xc3 } else { 0xc2 };
            let second: u8 = (b & 0x3f) | 0x80;
            output.push(first);
            output.push(second);
        }
        i += 1;
    }
    assert(data@.subrange(0, data@.len() as int) =~= data@);
    output
}

} // verus!
