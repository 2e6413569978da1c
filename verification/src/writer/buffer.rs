//! A byte buffer of fixed capacity, and how a stream of writes is cut into
//! the chunks that leave it.

use vstd::prelude::*;
use vstd::slice::{slice_subrange, slice_to_vec};

verus! {

/// An accumulator of bytes with a fixed capacity. Writes fill it up to its
/// capacity and hand back what did not fit.
pub struct BufferFile {
    buffer: Vec<u8>,
    position: usize,
    capacity: usize,
}

impl View for BufferFile {
    type V = Seq<u8>;

    /// The bytes held.
    closed spec fn view(&self) -> Seq<u8> {
        self.buffer@
    }
}

impl BufferFile {
    /// The most bytes the buffer can hold.
    pub closed spec fn spec_capacity(&self) -> nat {
        self.capacity as nat
    }

    /// The buffer holds no more than its capacity, and its position counts
    /// the bytes held.
    pub closed spec fn wf(&self) -> bool {
        &&& self.position == self.buffer@.len()
        &&& self.position <= self.capacity
    }

    /// An empty buffer of the given capacity. Memory is taken as the
    /// buffer fills, not here.
    pub fn new(capacity: usize) -> (buffer: Self)
        ensures
            buffer.wf(),
            buffer@ == Seq::<u8>::empty(),
            buffer.spec_capacity() == capacity,
    {
        BufferFile { buffer: Vec::new(), position: 0, capacity }
    }

    /// The most bytes the buffer can hold.
    pub fn capacity(&self) -> (capacity: usize)
        ensures
            capacity == self.spec_capacity(),
    {
        self.capacity
    }

    /// The number of bytes held.
    pub fn position(&self) -> (position: usize)
        requires
            self.wf(),
        ensures
            position == self@.len(),
            position <= self.spec_capacity(),
    {
        self.position
    }

    /// A well-formed buffer holds no more than its capacity.
    pub proof fn lemma_wf_bound(&self)
        requires
            self.wf(),
        ensures
            self@.len() <= self.spec_capacity(),
    {
    }

    /// Appends as much of `data` as fits and returns the rest.
    pub fn write_bytes(&mut self, data: &[u8]) -> (leftover: Vec<u8>)
        requires
            old(self).wf(),
        ensures
            final(self).wf(),
            final(self).spec_capacity() == old(self).spec_capacity(),
            final(self)@ == old(self)@ + data@.take(fitting(old(self).spec_capacity(), old(self)@, data@)),
            leftover@ == data@.skip(fitting(old(self).spec_capacity(), old(self)@, data@)),
    {
        let space_left: usize = self.capacity - self.position;
        if data.len() <= space_left {
            self.buffer.extend_from_slice(data);
            self.position += data.len();
            let leftover: Vec<u8> = Vec::new();
            leftover
        } else {
            let first = slice_subrange(data, 0, space_left);
            let second = slice_subrange(data, space_left, data.len());
            self.buffer.extend_from_slice(first);
            self.position += space_left;
            slice_to_vec(second)
        }
    }

    /// Whether the buffer holds nothing.
    pub fn is_empty(&self) -> (empty: bool)
        requires
            self.wf(),
        ensures
            empty == (self@.len() == 0),
    {
        self.position == 0
    }

    /// Empties the buffer.
    pub fn clear(&mut self)
        ensures
            final(self).wf(),
            final(self).spec_capacity() == old(self).spec_capacity(),
            final(self)@ == Seq::<u8>::empty(),
    {
        self.buffer.clear();
        self.position = 0;
    }

    /// Empties the buffer and returns what it held.
    pub fn take(&mut self) -> (held: Vec<u8>)
        requires
            old(self).wf(),
        ensures
            final(self).wf(),
            final(self).spec_capacity() == old(self).spec_capacity(),
            final(self)@ == Seq::<u8>::empty(),
            held@ == old(self)@,
    {
        let mut held: Vec<u8> = Vec::new();
        core::mem::swap(&mut self.buffer, &mut held);
        self.position = 0;
        held
    }
}

/// How many bytes of `data` fit into a buffer of the given capacity that
/// already holds `held`.
pub open spec fn fitting(capacity: nat, held: Seq<u8>, data: Seq<u8>) -> int {
    if held.len() + data.len() <= capacity {
        data.len() as int
    } else {
        capacity - held.len()
    }
}

} // verus!
