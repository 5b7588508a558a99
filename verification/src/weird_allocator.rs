//! The skeleton of a doubly-linked-node allocator over an unaligned byte
//! region. Only construction exists so far: the wrapper records the region
//! and probes the alignment of its base address, which a node layout would
//! be chosen by.

use crate::backing_alloc::BackingAllocation;
use crate::const_allocator_shared::get_alignment_of_addr;
use crate::unaligned_generic_buffer::UnalignedGenericBuffer;
use vstd::prelude::*;

verus! {

/// The linkage of one block in a doubly-linked block chain: the offsets of
/// its neighbors, where it has any.
#[derive(Debug)]
pub struct AllocatorNode {
    next: Option<usize>,
    prev: Option<usize>,
}

/// An allocator shell over an unaligned byte region.
pub struct WeirdAllocator {
    mem: UnalignedGenericBuffer<u8>,
}

impl WeirdAllocator {
    /// The logical address of the region's first byte, for contracts.
    pub closed spec fn base_spec(self) -> usize {
        self.mem.base_spec()
    }

    /// The region's bytes, for contracts.
    pub closed spec fn bytes_spec(self) -> Seq<u8> {
        self.mem@
    }

    /// Wraps a caller-owned byte region at logical address `base_addr`; the
    /// region is poisoned.
    #[inline]
    #[must_use]
    pub fn from_unique_slice(mem: Vec<u8>, base_addr: usize) -> (r: Self)
        requires
            base_addr + mem@.len() <= usize::MAX,
        ensures
            r.base_spec() == base_addr,
            r.bytes_spec() == Seq::new(mem@.len(), |i: int| crate::backing_alloc::POISON_BYTE),
    {
        let ugb = UnalignedGenericBuffer::from_unique_slice(mem, base_addr);
        Self::from_raw_parts(ugb)
    }

    /// Wraps an existing backing region.
    #[inline]
    #[must_use]
    pub fn from_backing_allocation(mem: BackingAllocation) -> (r: Self)
        requires
            mem.wf(),
        ensures
            r.base_spec() == mem.base_spec(),
            r.bytes_spec() == mem@,
    {
        let ugb = UnalignedGenericBuffer::from_backing_allocation(mem);
        Self::from_raw_parts(ugb)
    }

    /// As [`Self::from_unique_slice`], for a region whose contents are not
    /// yet meaningful.
    #[inline]
    #[must_use]
    pub fn from_unique_uninit_slice(mem: Vec<u8>, base_addr: usize) -> (r: Self)
        requires
            base_addr + mem@.len() <= usize::MAX,
        ensures
            r.base_spec() == base_addr,
            r.bytes_spec() == Seq::new(mem@.len(), |i: int| crate::backing_alloc::POISON_BYTE),
    {
        let ugb = UnalignedGenericBuffer::from_unique_uninit_slice(mem, base_addr);
        Self::from_raw_parts(ugb)
    }

    #[inline]
    fn from_raw_parts(mem: UnalignedGenericBuffer<u8>) -> (r: Self)
        ensures
            r.base_spec() == mem.base_spec(),
            r.bytes_spec() == mem@,
    {
        // the alignment of the region's base address bounds what node
        // layouts could be placed at its start
        let align = get_alignment_of_addr(mem.as_unaligned_ptr());
        let _ = align;

        WeirdAllocator { mem }
    }
}

} // verus!
