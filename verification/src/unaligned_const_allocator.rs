//! The bump allocator restricted to address-opaque arithmetic, as required
//! during compile-time evaluation where raw addresses carry no observable
//! integer value: alignment bookkeeping is skipped entirely, and offsets are
//! tracked relative to the region start.
//!
//! The stack-discipline reclaim rule is the same as the runtime bump
//! allocator's: only the topmost block's space is ever recovered.

use crate::const_allocator_shared::AllocError;
use crate::const_allocator_shared::Layout;
use crate::stack_allocator::spec_dealloc_pos;
use crate::unaligned_generic_buffer::UnalignedGenericBuffer;
use vstd::prelude::*;

verus! {

broadcast use vstd::layout::layout_of_primitives;

/// What an unaligned bump allocation does to the cursor: the block of `size`
/// bytes is carved exactly at the cursor, with no alignment padding. `None`
/// where it would overrun the region's `cap` bytes; otherwise the new cursor
/// (the block's address is the region base plus the old cursor).
pub open spec fn spec_const_alloc_pos(cap: int, pos: int, size: int) -> Option<int> {
    if pos + size <= cap {
        Some(pos + size)
    } else {
        None
    }
}

/// A single-owner bump allocator whose arithmetic is legal during constant
/// evaluation: no address is ever inspected for alignment.
pub struct UnalignedConstStackAllocator {
    buffer: UnalignedGenericBuffer<u8>,
    pos: usize,
}

impl View for UnalignedConstStackAllocator {
    type V = Seq<u8>;

    closed spec fn view(&self) -> Seq<u8> {
        self.buffer@
    }
}

impl UnalignedConstStackAllocator {
    /// The logical address of the region's first byte, for contracts.
    pub closed spec fn base_spec(self) -> usize {
        self.buffer.base_spec()
    }

    /// The region's capacity in bytes, for contracts.
    pub open spec fn cap_spec(self) -> nat {
        self@.len()
    }

    /// The cursor: the offset of the next free byte, for contracts.
    pub closed spec fn pos_spec(self) -> usize {
        self.pos
    }

    /// The cursor never leaves the region and the region never wraps around
    /// the address space.
    pub open spec fn wf(self) -> bool {
        self.pos_spec() <= self.cap_spec() && self.base_spec() + self.cap_spec() <= usize::MAX
    }

    /// A fresh allocator over a caller-owned byte region at logical address
    /// `base_addr`. The region is poisoned and the cursor starts at zero.
    #[inline]
    #[must_use]
    pub fn from_unique_slice(slice: Vec<u8>, base_addr: usize) -> (r: Self)
        requires
            base_addr + slice@.len() <= usize::MAX,
        ensures
            r.wf(),
            r.base_spec() == base_addr,
            r.pos_spec() == 0,
            r@ == Seq::new(slice@.len(), |i: int| crate::backing_alloc::POISON_BYTE),
    {
        UnalignedConstStackAllocator {
            buffer: UnalignedGenericBuffer::from_unique_slice(slice, base_addr),
            pos: 0,
        }
    }

    /// As [`Self::from_unique_slice`], for a region whose contents are not
    /// yet meaningful.
    #[inline]
    #[must_use]
    pub fn from_unique_uninit_slice(slice: Vec<u8>, base_addr: usize) -> (r: Self)
        requires
            base_addr + slice@.len() <= usize::MAX,
        ensures
            r.wf(),
            r.base_spec() == base_addr,
            r.pos_spec() == 0,
            r@ == Seq::new(slice@.len(), |i: int| crate::backing_alloc::POISON_BYTE),
    {
        UnalignedConstStackAllocator {
            buffer: UnalignedGenericBuffer::from_unique_uninit_slice(slice, base_addr),
            pos: 0,
        }
    }

    /// Carves a block of `layout.size()` bytes exactly at the cursor — the
    /// requested alignment is deliberately ignored, since it cannot be
    /// observed in address-opaque arithmetic — or reports that the block
    /// does not fit.
    #[inline]
    pub fn alloc_const_unaligned_fallible(&mut self, layout: Layout) -> (r: Result<
        usize,
        AllocError,
    >)
        requires
            old(self).wf(),
        ensures
            final(self).wf(),
            final(self).base_spec() == old(self).base_spec(),
            final(self)@ == old(self)@,
            match spec_const_alloc_pos(
                old(self).cap_spec() as int,
                old(self).pos_spec() as int,
                layout.size_spec() as int,
            ) {
                Some(new_pos) => r == Ok::<usize, AllocError>(
                    (old(self).base_spec() + old(self).pos_spec()) as usize,
                ) && final(self).pos_spec() == new_pos,
                None => r == Err::<usize, AllocError>(AllocError) && final(self).pos_spec() == old(
                    self,
                ).pos_spec(),
            },
    {
        let len = layout.size();

        if len > self.buffer.unaligned_len() - self.pos {
            return Err(AllocError);
        }

        let ptr = self.buffer.as_unaligned_mut_ptr() + self.pos;
        self.pos = self.pos + len;

        Ok(ptr)
    }

    /// As [`Self::alloc_const_unaligned_fallible`], for requests known to
    /// fit: exhaustion is excluded by precondition.
    #[inline]
    pub fn alloc_const_unaligned(&mut self, layout: Layout) -> (r: usize)
        requires
            old(self).wf(),
            old(self).pos_spec() + layout.size_spec() <= old(self).cap_spec(),
        ensures
            final(self).wf(),
            final(self).base_spec() == old(self).base_spec(),
            final(self)@ == old(self)@,
            r == old(self).base_spec() + old(self).pos_spec(),
            final(self).pos_spec() == old(self).pos_spec() + layout.size_spec(),
    {
        match self.alloc_const_unaligned_fallible(layout) {
            Ok(ptr) => ptr,
            Err(_) => unreached(),
        }
    }

    /// Resizes the block at `ptr` from `old_layout` to `new_layout`, without
    /// alignment bookkeeping. A topmost block is shrunk or grown in place by
    /// moving the cursor; otherwise a new block is carved at the cursor and
    /// the lesser of the two sizes is copied over.
    pub fn realloc_const_unaligned_fallible(
        &mut self,
        ptr: usize,
        old_layout: Layout,
        new_layout: Layout,
    ) -> (r: Result<usize, AllocError>)
        requires
            old(self).wf(),
            old(self).base_spec() <= ptr,
            ptr - old(self).base_spec() + old_layout.size_spec() <= old(self).pos_spec(),
        ensures
            final(self).wf(),
            final(self).base_spec() == old(self).base_spec(),
            final(self)@.len() == old(self)@.len(),
            ({
                let base = old(self).base_spec() as int;
                let pos = old(self).pos_spec() as int;
                let off = ptr - base;
                let osz = old_layout.size_spec() as int;
                let nsz = new_layout.size_spec() as int;
                if off + osz == pos && nsz <= osz {
                    r == Ok::<usize, AllocError>(ptr) && final(self).pos_spec() == off + nsz
                        && final(self)@ == old(self)@
                } else if off + osz == pos && pos + (nsz - osz) <= old(self).cap_spec() {
                    r == Ok::<usize, AllocError>(ptr) && final(self).pos_spec() == pos + (nsz - osz)
                        && final(self)@ == old(self)@
                } else {
                    match spec_const_alloc_pos(old(self).cap_spec() as int, pos, nsz) {
                        Some(new_pos) => {
                            let count = if osz < nsz {
                                osz
                            } else {
                                nsz
                            };
                            r == Ok::<usize, AllocError>((base + pos) as usize)
                                && final(self).pos_spec() == new_pos && forall|j: int|
                                0 <= j < old(self)@.len() ==> final(self)@[j] == if pos <= j < pos
                                    + count {
                                    old(self)@[j - pos + off]
                                } else {
                                    old(self)@[j]
                                }
                        },
                        None => r == Err::<usize, AllocError>(AllocError) && final(self).pos_spec()
                            == old(self).pos_spec() && final(self)@ == old(self)@,
                    }
                }
            }),
    {
        let offset = ptr - self.buffer.as_unaligned_ptr();

        if offset + old_layout.size() == self.pos {
            if new_layout.size() <= old_layout.size() {
                self.pos = offset + new_layout.size();
                return Ok(ptr);
            }

            let additional_space = new_layout.size() - old_layout.size();
            if additional_space <= self.buffer.unaligned_len() - self.pos {
                self.pos = self.pos + additional_space;
                return Ok(ptr);
            }
        }

        let dst = self.pos;
        let new_ptr = match self.alloc_const_unaligned_fallible(new_layout) {
            Ok(p) => p,
            Err(e) => return Err(e),
        };

        let old_size = old_layout.size();
        let new_size = new_layout.size();
        let count = if old_size < new_size {
            old_size
        } else {
            new_size
        };
        self.buffer.copy_within(offset, dst, count);

        Ok(new_ptr)
    }

    /// As [`Self::realloc_const_unaligned_fallible`], for resizes known to
    /// succeed.
    pub fn realloc_const_unaligned(
        &mut self,
        ptr: usize,
        old_layout: Layout,
        new_layout: Layout,
    ) -> (r: usize)
        requires
            old(self).wf(),
            old(self).base_spec() <= ptr,
            ptr - old(self).base_spec() + old_layout.size_spec() <= old(self).pos_spec(),
            ({
                let pos = old(self).pos_spec() as int;
                let off = ptr - old(self).base_spec();
                let osz = old_layout.size_spec() as int;
                let nsz = new_layout.size_spec() as int;
                (off + osz == pos && nsz <= osz) || (off + osz == pos && pos + (nsz - osz) <= old(
                    self,
                ).cap_spec()) || pos + nsz <= old(self).cap_spec()
            }),
        ensures
            final(self).wf(),
            final(self).base_spec() == old(self).base_spec(),
            final(self)@.len() == old(self)@.len(),
            ({
                let base = old(self).base_spec() as int;
                let pos = old(self).pos_spec() as int;
                let off = ptr - base;
                let osz = old_layout.size_spec() as int;
                let nsz = new_layout.size_spec() as int;
                if off + osz == pos && nsz <= osz {
                    r == ptr && final(self).pos_spec() == off + nsz && final(self)@ == old(self)@
                } else if off + osz == pos && pos + (nsz - osz) <= old(self).cap_spec() {
                    r == ptr && final(self).pos_spec() == pos + (nsz - osz) && final(self)@ == old(
                        self,
                    )@
                } else {
                    let count = if osz < nsz {
                        osz
                    } else {
                        nsz
                    };
                    r == base + pos && final(self).pos_spec() == pos + nsz && forall|j: int|
                        0 <= j < old(self)@.len() ==> final(self)@[j] == if pos <= j < pos
                            + count {
                            old(self)@[j - pos + off]
                        } else {
                            old(self)@[j]
                        }
                }
            }),
    {
        match self.realloc_const_unaligned_fallible(ptr, old_layout, new_layout) {
            Ok(p) => p,
            Err(_) => unreached(),
        }
    }

    /// Frees the block at `ptr`: its bytes are overwritten with the poison
    /// sentinel, and the cursor rewinds exactly when the block is the
    /// topmost one; any other block's space stays occupied.
    pub fn dealloc_const_unaligned(&mut self, ptr: usize, layout: Layout)
        requires
            old(self).wf(),
            old(self).base_spec() <= ptr,
            ptr - old(self).base_spec() + layout.size_spec() <= old(self).cap_spec(),
        ensures
            final(self).wf(),
            final(self).base_spec() == old(self).base_spec(),
            final(self)@.len() == old(self)@.len(),
            final(self).pos_spec() == spec_dealloc_pos(
                old(self).pos_spec() as int,
                ptr - old(self).base_spec(),
                layout.size_spec() as int,
            ),
            ({
                let off = ptr - old(self).base_spec();
                forall|j: int|
                    0 <= j < old(self)@.len() ==> final(self)@[j] == if off <= j < off
                        + layout.size_spec() {
                        crate::backing_alloc::POISON_BYTE
                    } else {
                        old(self)@[j]
                    }
            }),
    {
        let offset = ptr - self.buffer.as_unaligned_ptr();

        self.buffer.fill_range(
            offset,
            offset + layout.size(),
            crate::backing_alloc::POISON_BYTE,
        );

        if offset + layout.size() == self.pos {
            self.pos = offset;
        }
    }
}

} // verus!
