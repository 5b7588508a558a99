//! A bump allocator wrapped for shared, single-threaded use: the escape
//! hatch that lets one allocator instance serve a general allocation
//! interface. The wrapper provides no synchronization whatsoever — callers
//! must guarantee single-threaded, exclusive use, which the exclusive
//! receiver of each method enforces here.

use crate::backing_alloc::BackingAllocation;
use crate::const_allocator_shared::next_aligned_addr;
use crate::const_allocator_shared::AllocError;
use crate::const_allocator_shared::Layout;
use crate::stack_allocator::spec_alloc_result;
use crate::stack_allocator::spec_dealloc_pos;
use crate::unaligned_generic_buffer::UnalignedGenericBuffer;
use vstd::arithmetic::power2::is_pow2;
use vstd::prelude::*;

verus! {

broadcast use vstd::layout::layout_of_primitives;

/// The bump allocator state behind the wrapper: a byte buffer and a cursor.
pub struct StackAllocator {
    mem: UnalignedGenericBuffer<u8>,
    pos: usize,
}

/// A single-threaded allocator over a caller-owned byte slice.
pub struct SingleThreadedSliceAllocator {
    alloc: StackAllocator,
}

impl SingleThreadedSliceAllocator {
    /// The logical address of the region's first byte, for contracts.
    pub closed spec fn base_spec(self) -> usize {
        self.alloc.mem.base_spec()
    }

    /// The region's bytes, for contracts.
    pub closed spec fn bytes_spec(self) -> Seq<u8> {
        self.alloc.mem@
    }

    /// The region's capacity in bytes, for contracts.
    pub open spec fn cap_spec(self) -> nat {
        self.bytes_spec().len()
    }

    /// The cursor: the offset of the next free byte, for contracts.
    pub closed spec fn pos_spec(self) -> usize {
        self.alloc.pos
    }

    /// The cursor never leaves the region and the region never wraps around
    /// the address space.
    pub open spec fn wf(self) -> bool {
        self.pos_spec() <= self.cap_spec() && self.base_spec() + self.cap_spec() <= usize::MAX
    }

    /// Wraps a caller-owned byte region at logical address `base_addr`; the
    /// region is poisoned. Single-threaded use only.
    #[inline]
    pub fn from_unique_slice(slice: Vec<u8>, base_addr: usize) -> (r: Self)
        requires
            base_addr + slice@.len() <= usize::MAX,
        ensures
            r.wf(),
            r.base_spec() == base_addr,
            r.pos_spec() == 0,
            r.cap_spec() == slice@.len(),
    {
        let mem = UnalignedGenericBuffer::from_unique_slice(slice, base_addr);
        SingleThreadedSliceAllocator::from_raw_parts(mem, 0)
    }

    /// As [`Self::from_unique_slice`], for a region whose contents are not
    /// yet meaningful.
    #[inline]
    pub fn from_unique_uninit_slice(slice: Vec<u8>, base_addr: usize) -> (r: Self)
        requires
            base_addr + slice@.len() <= usize::MAX,
        ensures
            r.wf(),
            r.base_spec() == base_addr,
            r.pos_spec() == 0,
            r.cap_spec() == slice@.len(),
    {
        let mem = UnalignedGenericBuffer::from_unique_uninit_slice(slice, base_addr);
        SingleThreadedSliceAllocator::from_raw_parts(mem, 0)
    }

    /// Wraps an existing backing region. Single-threaded use only.
    #[inline]
    #[must_use]
    pub fn from_backing_allocation(backing_alloc: BackingAllocation) -> (r: Self)
        requires
            backing_alloc.wf(),
        ensures
            r.wf(),
            r.base_spec() == backing_alloc.base_spec(),
            r.pos_spec() == 0,
            r.cap_spec() == backing_alloc@.len(),
    {
        let mem = UnalignedGenericBuffer::from_backing_allocation(backing_alloc);
        SingleThreadedSliceAllocator::from_raw_parts(mem, 0)
    }

    /// Wraps an existing unaligned buffer. Single-threaded use only.
    #[inline]
    #[must_use]
    pub fn from_unaligned_generic_buffer(mem: UnalignedGenericBuffer<u8>) -> (r: Self)
        requires
            mem.wf(),
        ensures
            r.wf(),
            r.base_spec() == mem.base_spec(),
            r.pos_spec() == 0,
            r.cap_spec() == mem@.len(),
    {
        SingleThreadedSliceAllocator::from_raw_parts(mem, 0)
    }

    fn from_raw_parts(mem: UnalignedGenericBuffer<u8>, pos: usize) -> (r: Self)
        requires
            mem.wf(),
            pos <= mem@.len(),
        ensures
            r.wf(),
            r.base_spec() == mem.base_spec(),
            r.pos_spec() == pos,
            r.cap_spec() == mem@.len(),
    {
        let alloc = StackAllocator { mem, pos };
        SingleThreadedSliceAllocator { alloc }
    }

    /// Bump-allocates a block of `layout.size()` bytes at the next address
    /// aligned for `layout.align()`, or reports that it does not fit.
    pub fn allocate(&mut self, layout: Layout) -> (r: Result<usize, AllocError>)
        requires
            old(self).wf(),
            layout.wf(),
            old(self).base_spec() + old(self).pos_spec() + layout.align_spec() - 1 <= usize::MAX,
        ensures
            final(self).wf(),
            final(self).base_spec() == old(self).base_spec(),
            final(self).bytes_spec() == old(self).bytes_spec(),
            match spec_alloc_result(
                old(self).base_spec() as int,
                old(self).cap_spec() as int,
                old(self).pos_spec() as int,
                layout.size_spec() as int,
                layout.align_spec() as int,
            ) {
                Some((new_pos, addr)) => r == Ok::<usize, AllocError>(addr as usize)
                    && final(self).pos_spec() == new_pos && addr % layout.align_spec() as int == 0,
                None => r == Err::<usize, AllocError>(AllocError) && final(self).pos_spec() == old(
                    self,
                ).pos_spec(),
            },
    {
        proof {
            reveal(is_pow2);
            assert(layout.align_spec() > 0);
        }
        let allocator = &mut self.alloc;
        let align = layout.align();
        let size = layout.size();

        let base = allocator.mem.as_unaligned_ptr();
        let current = base + allocator.pos;
        let aligned_addr = next_aligned_addr(current, align);
        let aligned_pos = aligned_addr - base;

        let new_pos = match aligned_pos.checked_add(size) {
            None => return Err(AllocError),
            Some(pos) => pos,
        };

        let end_past_one = allocator.mem.unaligned_len();
        if new_pos > end_past_one {
            return Err(AllocError);
        }

        allocator.pos = new_pos;
        Ok(aligned_addr)
    }

    /// As [`Self::allocate`], then fills the new block with zero bytes.
    pub fn allocate_zeroed(&mut self, layout: Layout) -> (r: Result<usize, AllocError>)
        requires
            old(self).wf(),
            layout.wf(),
            old(self).base_spec() + old(self).pos_spec() + layout.align_spec() - 1 <= usize::MAX,
        ensures
            final(self).wf(),
            final(self).base_spec() == old(self).base_spec(),
            final(self).bytes_spec().len() == old(self).bytes_spec().len(),
            match spec_alloc_result(
                old(self).base_spec() as int,
                old(self).cap_spec() as int,
                old(self).pos_spec() as int,
                layout.size_spec() as int,
                layout.align_spec() as int,
            ) {
                Some((new_pos, addr)) => {
                    let off = addr - old(self).base_spec();
                    r == Ok::<usize, AllocError>(addr as usize) && final(self).pos_spec() == new_pos
                        && forall|j: int|
                        0 <= j < old(self).bytes_spec().len() ==> final(self).bytes_spec()[j]
                            == if off <= j < off + layout.size_spec() {
                            0u8
                        } else {
                            old(self).bytes_spec()[j]
                        }
                },
                None => r == Err::<usize, AllocError>(AllocError) && final(self).pos_spec() == old(
                    self,
                ).pos_spec() && final(self).bytes_spec() == old(self).bytes_spec(),
            },
    {
        let base = self.alloc.mem.as_unaligned_ptr();
        proof {
            reveal(is_pow2);
            crate::align_twiddle::lemma_next_multiple_of(
                old(self).base_spec() + old(self).pos_spec(),
                layout.align_spec() as int,
            );
        }
        let ptr = match self.allocate(layout) {
            Ok(p) => p,
            Err(e) => return Err(e),
        };
        let off = ptr - base;
        self.alloc.mem.fill_range(off, off + layout.size(), 0);
        Ok(ptr)
    }

    /// Frees the block at `ptr`: the block's bytes are overwritten with the
    /// poison sentinel, and the cursor rewinds exactly when the block is the
    /// topmost allocation; freeing any other block leaks its space.
    pub fn deallocate(&mut self, ptr: usize, layout: Layout)
        requires
            old(self).wf(),
            old(self).base_spec() <= ptr,
            ptr - old(self).base_spec() + layout.size_spec() <= old(self).cap_spec(),
        ensures
            final(self).wf(),
            final(self).base_spec() == old(self).base_spec(),
            final(self).bytes_spec().len() == old(self).bytes_spec().len(),
            final(self).pos_spec() == spec_dealloc_pos(
                old(self).pos_spec() as int,
                ptr - old(self).base_spec(),
                layout.size_spec() as int,
            ),
            ({
                let off = ptr - old(self).base_spec();
                forall|j: int|
                    0 <= j < old(self).bytes_spec().len() ==> final(self).bytes_spec()[j]
                        == if off <= j < off + layout.size_spec() {
                        crate::backing_alloc::POISON_BYTE
                    } else {
                        old(self).bytes_spec()[j]
                    }
            }),
    {
        let allocator = &mut self.alloc;
        let offset = ptr - allocator.mem.as_unaligned_ptr();
        let size = layout.size();

        allocator.mem.fill_range(offset, offset + size, crate::backing_alloc::POISON_BYTE);

        if offset + size == allocator.pos {
            allocator.pos = offset;
        }
    }
}

} // verus!
