//! Dynamic heap allocation for kernel-internal data: an allocate-only bump
//! strategy and a first-fit free-list strategy over one byte region.

use vstd::prelude::*;

pub mod bump;
pub mod linked_list;

verus! {

/// A snapshot of the heap's usage.
#[derive(Debug, Clone, Copy, PartialEq, Eq, Structural)]
pub struct HeapStats {
    /// First byte of the heap region.
    pub heap_start: usize,
    /// Size of the heap region in bytes.
    pub heap_size: usize,
    /// Bytes handed out so far.
    pub used: usize,
    /// Bytes still available.
    pub free: usize,
}

} // verus!
