//! The allocator handle, and what reallocation does with the answer of the
//! allocator.

use vstd::prelude::*;

verus! {

/// A memory allocator that can be registered as the default allocator of a
/// program.
#[derive(Debug, Clone, Copy, PartialEq, Eq)]
pub struct TCMalloc;

/// What is left to do for a reallocation once the allocator has answered.
#[derive(Debug, Clone, Copy, PartialEq, Eq, Structural)]
pub enum ReallocStep {
    /// Nothing: the allocator failed, or the block stays where it is.
    Keep,
    /// Copy the first `copy_len` bytes of the old block to the new one, then
    /// free the old block.
    Move { copy_len: usize },
}

/// What is left to do for a reallocation. `old_addr` and `old_size` are the
/// address and size of the block, `new_size` the size asked for, `new_addr`
/// the address that the allocator answered with, 0 where it failed.
pub open spec fn realloc_step_of(
    old_addr: usize,
    old_size: usize,
    new_addr: usize,
    new_size: usize,
) -> ReallocStep {
    if new_addr != 0 && new_addr != old_addr {
        ReallocStep::Move {
            copy_len: if old_size <= new_size {
                old_size
            } else {
                new_size
            },
        }
    } else {
        ReallocStep::Keep
    }
}

impl TCMalloc {
    /// What is left to do for a reallocation once the allocator has
    /// answered with `new_addr`: where it gave another block, as many bytes
    /// move as both blocks hold, and the old block is freed.
    pub fn realloc_step(old_addr: usize, old_size: usize, new_addr: usize, new_size: usize) -> (s:
        ReallocStep)
        ensures
            s == realloc_step_of(old_addr, old_size, new_addr, new_size),
    {
        if new_addr != 0 && new_addr != old_addr {
            let copy_len: usize = if old_size <= new_size {
                old_size
            } else {
                new_size
            };
            ReallocStep::Move { copy_len }
        } else {
            ReallocStep::Keep
        }
    }
}

} // verus!
