//! How the bytes written to one stream are cut into chunks.
//!
//! A stream's buffer holds at most `capacity` bytes. Whenever more than
//! that is waiting, the oldest `capacity` bytes leave as one chunk; what
//! remains at the end stays in the buffer until the stream is flushed.

use vstd::prelude::*;

verus! {

/// The chunks that leave a buffer of the given capacity when `total` is
/// what it held followed by what was written to it, oldest first.
pub open spec fn flushed_chunks(capacity: nat, total: Seq<u8>) -> Seq<Seq<u8>>
    decreases total.len(),
{
    if capacity == 0 || total.len() <= capacity {
        Seq::<Seq<u8>>::empty()
    } else {
        seq![total.take(capacity as int)] + flushed_chunks(capacity, total.skip(capacity as int))
    }
}

/// The bytes that stay in the buffer after the chunks have left.
pub open spec fn kept_bytes(capacity: nat, total: Seq<u8>) -> Seq<u8>
    decreases total.len(),
{
    if capacity == 0 || total.len() <= capacity {
        total
    } else {
        kept_bytes(capacity, total.skip(capacity as int))
    }
}

/// Nothing is lost and nothing reordered: the chunks, in the order in
/// which they leave, followed by what stays, are the bytes written.
pub proof fn lemma_chunks_rejoin(capacity: nat, total: Seq<u8>)
    ensures
        flushed_chunks(capacity, total).flatten() + kept_bytes(capacity, total) == total,
    decreases total.len(),
{
    let chunks = flushed_chunks(capacity, total);
    if !(capacity == 0 || total.len() <= capacity) {
        let head = total.take(capacity as int);
        let tail = total.skip(capacity as int);
        lemma_chunks_rejoin(capacity, tail);
        let rest = flushed_chunks(capacity, tail);
        assert(chunks.drop_first() =~= rest);
        assert(head + (rest.flatten() + kept_bytes(capacity, tail)) =~= total);
    }
}

/// Chunks leave exactly when the capacity is exceeded, each chunk is as
/// large as the capacity, and what stays fits the buffer and is not empty
/// unless nothing was written.
pub proof fn lemma_chunk_sizes(capacity: nat, total: Seq<u8>)
    requires
        capacity > 0,
    ensures
        flushed_chunks(capacity, total).len() > 0 <==> total.len() > capacity,
        forall|i: int|
            0 <= i < flushed_chunks(capacity, total).len() ==> (#[trigger] flushed_chunks(
                capacity,
                total,
            )[i]).len() == capacity,
        kept_bytes(capacity, total).len() <= capacity,
        total.len() > 0 ==> kept_bytes(capacity, total).len() > 0,
        total.len() == flushed_chunks(capacity, total).len() * capacity + kept_bytes(
            capacity,
            total,
        ).len(),
    decreases total.len(),
{
    if total.len() > capacity {
        let tail = total.skip(capacity as int);
        lemma_chunk_sizes(capacity, tail);
        let chunks = flushed_chunks(capacity, total);
        let rest = flushed_chunks(capacity, tail);
        assert forall|i: int| 0 <= i < chunks.len() implies (#[trigger] chunks[i]).len()
            == capacity by {
        }
        assert((rest.len() + 1) * capacity == rest.len() * capacity + capacity)
            by (nonlinear_arith);
    }
}

/// Cutting does not depend on how the bytes were split into writes:
/// writing `a` and then `b` lets the same chunks leave, and keeps the same
/// bytes, as writing both at once.
pub proof fn lemma_chunking_composes(capacity: nat, a: Seq<u8>, b: Seq<u8>)
    ensures
        flushed_chunks(capacity, a + b) == flushed_chunks(capacity, a) + flushed_chunks(
            capacity,
            kept_bytes(capacity, a) + b,
        ),
        kept_bytes(capacity, a + b) == kept_bytes(capacity, kept_bytes(capacity, a) + b),
    decreases a.len(),
{
    if !(capacity == 0 || a.len() <= capacity) {
        let tail = a.skip(capacity as int);
        lemma_chunking_composes(capacity, tail, b);
        assert((a + b).take(capacity as int) =~= a.take(capacity as int));
        assert((a + b).skip(capacity as int) =~= tail + b);
    }
}

} // verus!
