//! The bookkeeping of a memory arena: blocks are handed out one after the
//! other, each at a multiple of 16 bytes, until the capacity is used up.
//! The memory itself belongs to the caller; a block is known by its offset.

use vstd::prelude::*;

verus! {

/// The size of a block for `size` bytes: the next multiple of 16.
pub open spec fn block_size(size: nat) -> nat {
    ((size + 15) / 16) * 16
}

/// The bookkeeping of an arena.
pub struct Arena {
    offset: usize,
    capacity: usize,
}

impl Arena {
    /// The bytes handed out so far.
    pub closed spec fn used(&self) -> nat {
        self.offset as nat
    }

    /// The bytes that the arena holds.
    pub closed spec fn capacity(&self) -> nat {
        self.capacity as nat
    }

    /// No more is handed out than the arena holds, and the next block starts
    /// at a multiple of 16.
    pub closed spec fn wf(&self) -> bool {
        self.offset <= self.capacity && self.offset % 16 == 0
    }

    /// An arena of a capacity, all of it free.
    pub fn new(capacity: usize) -> (r: Self)
        ensures
            r.wf(),
            r.used() == 0,
            r.capacity() == capacity,
    {
        Self { offset: 0, capacity }
    }

    /// Hands out a block for `size` bytes: its offset, or nothing if the
    /// rest of the arena is too small for it.
    pub fn allocate(&mut self, size: usize) -> (r: Option<usize>)
        requires
            old(self).wf(),
        ensures
            final(self).wf(),
            final(self).capacity() == old(self).capacity(),
            match r {
                Some(at) => at == old(self).used() && at % 16 == 0 && final(self).used() == old(self).used() + block_size(size as nat) && final(self).used() <= final(self).capacity(),
                None => final(self).used() == old(self).used() && old(self).used() + block_size(
                    size as nat,
                ) > old(self).capacity(),
            },
    {
        if size > usize::MAX - 15 {
            assert(block_size(size as nat) >= size) by (nonlinear_arith)
                requires
                    block_size(size as nat) == ((size + 15) / 16) * 16,
            ;
            return None;
        }
        let aligned: usize = (size + 15) / 16 * 16;
        if aligned > self.capacity - self.offset {
            return None;
        }
        let at = self.offset;
        self.offset = self.offset + aligned;
        Some(at)
    }

    /// Frees every block.
    pub fn reset(&mut self)
        ensures
            final(self).wf(),
            final(self).used() == 0,
            final(self).capacity() == old(self).capacity(),
    {
        self.offset = 0;
    }

    /// The bytes that are still free.
    pub fn remaining(&self) -> (r: usize)
        requires
            self.wf(),
        ensures
            r == self.capacity() - self.used(),
    {
        self.capacity - self.offset
    }
}

/// Two blocks handed out one after the other do not overlap: the second
/// starts where the first ends or later.
pub proof fn lemma_blocks_apart(first: nat, first_size: nat, second: nat)
    requires
        second == first + block_size(first_size),
    ensures
        first + first_size <= second,
{
    assert(block_size(first_size) >= first_size) by (nonlinear_arith)
        requires
            block_size(first_size) == ((first_size + 15) / 16) * 16,
    ;
}

/// An allocator for memory at an alignment.
#[derive(Debug, Clone, Copy, PartialEq, Eq)]
pub struct AlignedAllocator {
    alignment: usize,
}

impl AlignedAllocator {
    /// The alignment of the memory that this allocator hands out.
    pub closed spec fn alignment(&self) -> usize {
        self.alignment
    }

    /// An allocator for an alignment.
    pub fn new(alignment: usize) -> (r: Self)
        ensures
            r.alignment() == alignment,
    {
        Self { alignment }
    }

    /// The alignment of the memory that this allocator hands out.
    pub fn align(&self) -> (r: usize)
        ensures
            r == self.alignment(),
    {
        self.alignment
    }
}

} // verus!
