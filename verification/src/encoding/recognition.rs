//! What the scanner recognises.
//!
//! The scanner ends in the accepting state exactly on the valid UTF-8
//! sequences, and stays out of the rejecting state exactly on the sequences
//! that some further bytes can complete to valid UTF-8.

use vstd::prelude::*;
use vstd::utf8::*;
use crate::encoding::scanner::{
    lemma_alive_prefix, lemma_scan_from_concat, lemma_scan_from_short, scan, scan_from, AFTER_E0,
    AFTER_ED, AFTER_F0, AFTER_F1, AFTER_F4, EXPECT_ONE, EXPECT_TWO, UTF8_ACCEPT, UTF8_REJECT,
};

verus! {

/// True when `q` is the encoding of exactly one scalar, by the ranges that
/// the Unicode standard allows for each byte of a well-formed sequence.
pub open spec fn well_formed_scalar(q: Seq<u8>) -> bool {
    ||| q.len() == 1 && q[0] <= 0x7f
    ||| q.len() == 2 && 0xc2 <= q[0] <= 0xdf && is_continuation_byte(q[1])
    ||| q.len() == 3 && q[0] == 0xe0 && 0xa0 <= q[1] <= 0xbf && is_continuation_byte(q[2])
    ||| q.len() == 3 && 0xe1 <= q[0] <= 0xef && q[0] != 0xed && is_continuation_byte(q[1])
        && is_continuation_byte(q[2])
    ||| q.len() == 3 && q[0] == 0xed && 0x80 <= q[1] <= 0x9f && is_continuation_byte(q[2])
    ||| q.len() == 4 && q[0] == 0xf0 && 0x90 <= q[1] <= 0xbf && is_continuation_byte(q[2])
        && is_continuation_byte(q[3])
    ||| q.len() == 4 && 0xf1 <= q[0] <= 0xf3 && is_continuation_byte(q[1])
        && is_continuation_byte(q[2]) && is_continuation_byte(q[3])
    ||| q.len() == 4 && q[0] == 0xf4 && 0x80 <= q[1] <= 0x8f && is_continuation_byte(q[2])
        && is_continuation_byte(q[3])
}

/// True when `p` is what the scanner has seen of an unfinished scalar when
/// it is in `state`.
pub open spec fn pending(p: Seq<u8>, state: u8) -> bool {
    if state == UTF8_ACCEPT {
        p.len() == 0
    } else if state == EXPECT_ONE {
        ||| p.len() == 1 && 0xc2 <= p[0] <= 0xdf
        ||| p.len() == 2 && p[0] == 0xe0 && 0xa0 <= p[1] <= 0xbf
        ||| p.len() == 2 && 0xe1 <= p[0] <= 0xef && p[0] != 0xed && is_continuation_byte(p[1])
        ||| p.len() == 2 && p[0] == 0xed && 0x80 <= p[1] <= 0x9f
        ||| p.len() == 3 && p[0] == 0xf0 && 0x90 <= p[1] <= 0xbf && is_continuation_byte(p[2])
        ||| p.len() == 3 && 0xf1 <= p[0] <= 0xf3 && is_continuation_byte(p[1])
            && is_continuation_byte(p[2])
        ||| p.len() == 3 && p[0] == 0xf4 && 0x80 <= p[1] <= 0x8f && is_continuation_byte(p[2])
    } else if state == EXPECT_TWO {
        ||| p.len() == 1 && 0xe1 <= p[0] <= 0xef && p[0] != 0xed
        ||| p.len() == 2 && p[0] == 0xf0 && 0x90 <= p[1] <= 0xbf
        ||| p.len() == 2 && 0xf1 <= p[0] <= 0xf3 && is_continuation_byte(p[1])
        ||| p.len() == 2 && p[0] == 0xf4 && 0x80 <= p[1] <= 0x8f
    } else if state == AFTER_E0 {
        p.len() == 1 && p[0] == 0xe0
    } else if state == AFTER_ED {
        p.len() == 1 && p[0] == 0xed
    } else if state == AFTER_F0 {
        p.len() == 1 && p[0] == 0xf0
    } else if state == AFTER_F1 {
        p.len() == 1 && 0xf1 <= p[0] <= 0xf3
    } else if state == AFTER_F4 {
        p.len() == 1 && p[0] == 0xf4
    } else {
        false
    }
}

/// True when some further bytes complete `bytes` to valid UTF-8.
pub open spec fn is_utf8_prefix(bytes: Seq<u8>) -> bool {
    exists|rest: Seq<u8>| valid_utf8(#[trigger] (bytes + rest))
}

/// Bytes that lead from `state` back to the accepting state.
pub open spec fn completion(state: u8) -> Seq<u8> {
    if state == EXPECT_ONE {
        seq![0x80u8]
    } else if state == EXPECT_TWO || state == AFTER_ED {
        seq![0x80u8, 0x80u8]
    } else if state == AFTER_E0 {
        seq![0xa0u8, 0x80u8]
    } else if state == AFTER_F0 {
        seq![0x90u8, 0x80u8, 0x80u8]
    } else if state == AFTER_F1 || state == AFTER_F4 {
        seq![0x80u8, 0x80u8, 0x80u8]
    } else {
        Seq::<u8>::empty()
    }
}

proof fn lemma_width_2_range(b0: u8, b1: u8)
    by (bit_vector)
    requires
        0xc0 <= b0 <= 0xdf,
        0x80 <= b1 <= 0xbf,
    ensures
        0x80 <= codepoint_width_2(b0, b1) <==> 0xc2 <= b0,
        codepoint_width_2(b0, b1) <= 0x7ff,
{
}

proof fn lemma_width_3_range(b0: u8, b1: u8, b2: u8)
    by (bit_vector)
    requires
        0xe0 <= b0 <= 0xef,
        0x80 <= b1 <= 0xbf,
        0x80 <= b2 <= 0xbf,
    ensures
        0x800 <= codepoint_width_3(b0, b1, b2) <==> !(b0 == 0xe0 && b1 < 0xa0),
        0xd800 <= codepoint_width_3(b0, b1, b2) <= 0xdfff <==> (b0 == 0xed && 0xa0 <= b1),
{
}

proof fn lemma_width_4_range(b0: u8, b1: u8, b2: u8, b3: u8)
    by (bit_vector)
    requires
        0xf0 <= b0 <= 0xf7,
        0x80 <= b1 <= 0xbf,
        0x80 <= b2 <= 0xbf,
        0x80 <= b3 <= 0xbf,
    ensures
        0x10000 <= codepoint_width_4(b0, b1, b2, b3) <= 0x10ffff <==> ((b0 == 0xf0 && 0x90 <= b1)
            || (0xf1 <= b0 <= 0xf3) || (b0 == 0xf4 && b1 <= 0x8f)),
{
}

/// The first scalar of `bytes` is valid exactly when the bytes it takes up
/// are well formed.
pub proof fn lemma_first_scalar_ranges(bytes: Seq<u8>)
    requires
        bytes.len() > 0,
    ensures
        valid_first_scalar(bytes) <==> (length_of_first_scalar(bytes) <= bytes.len()
            && well_formed_scalar(take_first_scalar(bytes))),
{
    let n = length_of_first_scalar(bytes);
    if n <= bytes.len() {
        if n == 2 && is_leading_byte_width_2(bytes[0]) && is_continuation_byte(bytes[1]) {
            lemma_width_2_range(bytes[0], bytes[1]);
        }
        if n == 3 && is_leading_byte_width_3(bytes[0]) && is_continuation_byte(bytes[1])
            && is_continuation_byte(bytes[2]) {
            lemma_width_3_range(bytes[0], bytes[1], bytes[2]);
        }
        if n == 4 && is_leading_byte_width_4(bytes[0]) && is_continuation_byte(bytes[1])
            && is_continuation_byte(bytes[2]) && is_continuation_byte(bytes[3]) {
            lemma_width_4_range(bytes[0], bytes[1], bytes[2], bytes[3]);
        }
    }
}

/// A well-formed scalar is valid UTF-8 by itself.
pub proof fn lemma_well_formed_scalar_valid(q: Seq<u8>)
    requires
        well_formed_scalar(q),
    ensures
        valid_utf8(q),
{
    lemma_first_scalar_ranges(q);
    assert(valid_utf8(pop_first_scalar(q)));
}

/// The scanner accepts a well-formed scalar.
pub proof fn lemma_scan_well_formed_scalar(q: Seq<u8>)
    requires
        well_formed_scalar(q),
    ensures
        scan(q) == UTF8_ACCEPT,
{
    lemma_scan_from_short(UTF8_ACCEPT, q);
}

/// The scanner accepts every valid UTF-8 sequence.
pub proof fn lemma_valid_implies_accept(bytes: Seq<u8>)
    requires
        valid_utf8(bytes),
    ensures
        scan(bytes) == UTF8_ACCEPT,
    decreases bytes.len(),
{
    if bytes.len() > 0 {
        let first = take_first_scalar(bytes);
        let rest = pop_first_scalar(bytes);
        lemma_first_scalar_ranges(bytes);
        lemma_scan_well_formed_scalar(first);
        lemma_valid_implies_accept(rest);
        assert(bytes =~= first + rest);
        lemma_scan_from_concat(UTF8_ACCEPT, first, rest);
    }
}

/// Splits what the scanner has seen, when it has not rejected, into a valid
/// part and the beginning of one more scalar. Returns where the valid part
/// ends.
pub proof fn lemma_scan_decompose(bytes: Seq<u8>) -> (k: int)
    requires
        scan(bytes) != UTF8_REJECT,
    ensures
        0 <= k <= bytes.len(),
        valid_utf8(bytes.subrange(0, k)),
        pending(bytes.subrange(k, bytes.len() as int), scan(bytes)),
    decreases bytes.len(),
{
    if bytes.len() == 0 {
        0
    } else {
        let init = bytes.drop_last();
        let split_at = lemma_scan_decompose(init);
        let valid_part = init.subrange(0, split_at);
        let grown = bytes.subrange(split_at, bytes.len() as int);
        assert(bytes.subrange(0, split_at) =~= valid_part);
        if scan(bytes) == UTF8_ACCEPT {
            lemma_well_formed_scalar_valid(grown);
            valid_utf8_concat(valid_part, grown);
            assert(bytes.subrange(0, bytes.len() as int) =~= valid_part + grown);
            bytes.len() as int
        } else {
            split_at
        }
    }
}

/// The scanner ends in the accepting state exactly on valid UTF-8.
pub proof fn lemma_scan_accepts_iff_valid(bytes: Seq<u8>)
    ensures
        scan(bytes) == UTF8_ACCEPT <==> valid_utf8(bytes),
{
    if valid_utf8(bytes) {
        lemma_valid_implies_accept(bytes);
    }
    if scan(bytes) == UTF8_ACCEPT {
        let k = lemma_scan_decompose(bytes);
        assert(bytes.subrange(0, k) =~= bytes);
    }
}

/// From every state but the rejecting one, some bytes lead back to the
/// accepting state.
pub proof fn lemma_completion_accepts(state: u8)
    requires
        state <= AFTER_F4,
        state != UTF8_REJECT,
    ensures
        scan_from(state, completion(state)) == UTF8_ACCEPT,
{
    lemma_scan_from_short(state, completion(state));
}

/// The state of a scan is one of the nine states.
pub proof fn lemma_scan_state_range(bytes: Seq<u8>)
    ensures
        scan(bytes) <= AFTER_F4,
    decreases bytes.len(),
{
    if bytes.len() > 0 {
        lemma_scan_state_range(bytes.drop_last());
    }
}

/// The scanner stays out of the rejecting state exactly on the sequences
/// that can be completed to valid UTF-8.
pub proof fn lemma_scan_alive_iff_prefix(bytes: Seq<u8>)
    ensures
        scan(bytes) != UTF8_REJECT <==> is_utf8_prefix(bytes),
{
    if is_utf8_prefix(bytes) {
        let rest = choose|rest: Seq<u8>| valid_utf8(#[trigger] (bytes + rest));
        lemma_valid_implies_accept(bytes + rest);
        lemma_alive_prefix(bytes + rest, bytes.len() as int);
        assert((bytes + rest).subrange(0, bytes.len() as int) =~= bytes);
    }
    if scan(bytes) != UTF8_REJECT {
        lemma_scan_state_range(bytes);
        let rest = completion(scan(bytes));
        lemma_completion_accepts(scan(bytes));
        lemma_scan_from_concat(UTF8_ACCEPT, bytes, rest);
        lemma_scan_accepts_iff_valid(bytes + rest);
    }
}

} // verus!
