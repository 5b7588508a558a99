//! The runtime bump allocator: allocation bumps a cursor forward with
//! alignment padding; deallocation reclaims space only when the freed block
//! is exactly the most recently allocated one (stack discipline).

use crate::align_twiddle::spec_next_multiple_of;
use crate::backing_alloc::BackingAllocation;
use crate::const_allocator_shared::next_aligned_addr;
use crate::const_allocator_shared::AllocError;
use crate::const_allocator_shared::Layout;
use vstd::arithmetic::power2::is_pow2;
use vstd::prelude::*;

verus! {

/// What a bump allocation does to a cursor: the cursor is aligned upward for
/// the requested alignment, and the block of `size` bytes is carved there.
/// `None` where the block would overrun the region's `cap` bytes; otherwise
/// the new cursor and the address of the block's first byte.
pub open spec fn spec_alloc_result(base: int, cap: int, pos: int, size: int, align: int) -> Option<
    (int, int),
> {
    let aligned_addr = spec_next_multiple_of(base + pos, align);
    let aligned_pos = aligned_addr - base;
    if aligned_pos + size <= cap {
        Some((aligned_pos + size, aligned_addr))
    } else {
        None
    }
}

/// What freeing a block at `offset` of `size` bytes does to a bump cursor:
/// the cursor rewinds to `offset` exactly when the block is the topmost one,
/// and stays put otherwise.
pub open spec fn spec_dealloc_pos(pos: int, offset: int, size: int) -> int {
    if offset + size == pos {
        offset
    } else {
        pos
    }
}

/// A single-owner bump allocator over a backing region.
pub struct StackAllocator {
    buffer: BackingAllocation,
    pos: usize,
}

impl View for StackAllocator {
    type V = Seq<u8>;

    closed spec fn view(&self) -> Seq<u8> {
        self.buffer@
    }
}

impl StackAllocator {
    /// The logical address of the region's first byte, for contracts.
    pub closed spec fn base_spec(self) -> usize {
        self.buffer.base_spec()
    }

    /// The region's capacity in bytes, for contracts.
    pub open spec fn cap_spec(self) -> nat {
        self@.len()
    }

    /// The cursor: the offset of the next free byte, for contracts.
    pub closed spec fn pos_spec(self) -> usize {
        self.pos
    }

    /// The cursor never leaves the region and the region never wraps around
    /// the address space.
    pub open spec fn wf(self) -> bool {
        self.pos_spec() <= self.cap_spec() && self.base_spec() + self.cap_spec() <= usize::MAX
    }

    /// A fresh allocator over a caller-owned byte region at logical address
    /// `base_addr`. The region is poisoned and the cursor starts at zero.
    #[inline]
    pub fn from_unique_slice(slice: Vec<u8>, base_addr: usize) -> (r: Self)
        requires
            base_addr + slice@.len() <= usize::MAX,
        ensures
            r.wf(),
            r.base_spec() == base_addr,
            r.pos_spec() == 0,
            r@ == Seq::new(slice@.len(), |i: int| crate::backing_alloc::POISON_BYTE),
    {
        StackAllocator { buffer: BackingAllocation::from_unique_slice(slice, base_addr), pos: 0 }
    }

    /// As [`Self::from_unique_slice`], for a region whose contents are not
    /// yet meaningful.
    #[inline]
    pub fn from_unique_uninit_slice(slice: Vec<u8>, base_addr: usize) -> (r: Self)
        requires
            base_addr + slice@.len() <= usize::MAX,
        ensures
            r.wf(),
            r.base_spec() == base_addr,
            r.pos_spec() == 0,
            r@ == Seq::new(slice@.len(), |i: int| crate::backing_alloc::POISON_BYTE),
    {
        StackAllocator {
            buffer: BackingAllocation::from_unique_uninit_slice(slice, base_addr),
            pos: 0,
        }
    }

    /// Bump-allocates a block of `layout.size()` bytes at the next address
    /// aligned for `layout.align()`, or reports that it does not fit. The
    /// region's bytes are not touched.
    pub fn alloc_fallible(&mut self, layout: Layout) -> (r: Result<usize, AllocError>)
        requires
            old(self).wf(),
            layout.wf(),
            old(self).base_spec() + old(self).pos_spec() + layout.align_spec() - 1 <= usize::MAX,
        ensures
            final(self).wf(),
            final(self).base_spec() == old(self).base_spec(),
            final(self)@ == old(self)@,
            match spec_alloc_result(
                old(self).base_spec() as int,
                old(self).cap_spec() as int,
                old(self).pos_spec() as int,
                layout.size_spec() as int,
                layout.align_spec() as int,
            ) {
                Some((new_pos, addr)) => r == Ok::<usize, AllocError>(addr as usize)
                    && final(self).pos_spec() == new_pos && addr % layout.align_spec() as int == 0
                    && old(self).pos_spec() <= addr - old(self).base_spec(),
                None => r == Err::<usize, AllocError>(AllocError) && final(self).pos_spec() == old(
                    self,
                ).pos_spec(),
            },
    {
        proof {
            reveal(is_pow2);
            assert(layout.align_spec() > 0);
        }
        let align = layout.align();
        let base = self.buffer.as_ptr();
        let current = base + self.pos;
        let aligned_addr = next_aligned_addr(current, align);
        let aligned_pos = aligned_addr - base;

        let new_pos = match aligned_pos.checked_add(layout.size()) {
            None => return Err(AllocError),
            Some(pos) => pos,
        };

        if new_pos > self.buffer.len() {
            return Err(AllocError);
        }

        self.pos = new_pos;
        Ok(aligned_addr)
    }

    /// As [`Self::alloc_fallible`], for requests known to fit: out-of-memory
    /// is excluded by precondition instead of surfacing as an error.
    pub fn alloc_infallible(&mut self, layout: Layout) -> (r: usize)
        requires
            old(self).wf(),
            layout.wf(),
            old(self).base_spec() + old(self).pos_spec() + layout.align_spec() - 1 <= usize::MAX,
            spec_alloc_result(
                old(self).base_spec() as int,
                old(self).cap_spec() as int,
                old(self).pos_spec() as int,
                layout.size_spec() as int,
                layout.align_spec() as int,
            ) is Some,
        ensures
            final(self).wf(),
            final(self).base_spec() == old(self).base_spec(),
            final(self)@ == old(self)@,
            spec_alloc_result(
                old(self).base_spec() as int,
                old(self).cap_spec() as int,
                old(self).pos_spec() as int,
                layout.size_spec() as int,
                layout.align_spec() as int,
            ) == Some((final(self).pos_spec() as int, r as int)),
    {
        match self.alloc_fallible(layout) {
            Ok(ptr) => ptr,
            Err(_) => unreached(),
        }
    }

    /// Bump-allocates as [`Self::alloc_fallible`] and fills the new block
    /// with zero bytes.
    pub fn alloc_zeroed_fallible(&mut self, layout: Layout) -> (r: Result<usize, AllocError>)
        requires
            old(self).wf(),
            layout.wf(),
            old(self).base_spec() + old(self).pos_spec() + layout.align_spec() - 1 <= usize::MAX,
        ensures
            final(self).wf(),
            final(self).base_spec() == old(self).base_spec(),
            final(self)@.len() == old(self)@.len(),
            match spec_alloc_result(
                old(self).base_spec() as int,
                old(self).cap_spec() as int,
                old(self).pos_spec() as int,
                layout.size_spec() as int,
                layout.align_spec() as int,
            ) {
                Some((new_pos, addr)) => {
                    let off = addr - old(self).base_spec();
                    r == Ok::<usize, AllocError>(addr as usize) && final(self).pos_spec() == new_pos
                        && forall|j: int|
                        0 <= j < old(self)@.len() ==> final(self)@[j] == if off <= j < off
                            + layout.size_spec() {
                            0u8
                        } else {
                            old(self)@[j]
                        }
                },
                None => r == Err::<usize, AllocError>(AllocError) && final(self).pos_spec() == old(
                    self,
                ).pos_spec() && final(self)@ == old(self)@,
            },
    {
        let base = self.buffer.as_ptr();
        let ptr = match self.alloc_fallible(layout) {
            Ok(p) => p,
            Err(e) => return Err(e),
        };
        let off = ptr - base;
        self.buffer.fill_range(off, off + layout.size(), 0);
        Ok(ptr)
    }

    /// As [`Self::alloc_zeroed_fallible`], for requests known to fit.
    pub fn alloc_zeroed(&mut self, layout: Layout) -> (r: usize)
        requires
            old(self).wf(),
            layout.wf(),
            old(self).base_spec() + old(self).pos_spec() + layout.align_spec() - 1 <= usize::MAX,
            spec_alloc_result(
                old(self).base_spec() as int,
                old(self).cap_spec() as int,
                old(self).pos_spec() as int,
                layout.size_spec() as int,
                layout.align_spec() as int,
            ) is Some,
        ensures
            final(self).wf(),
            final(self).base_spec() == old(self).base_spec(),
            final(self)@.len() == old(self)@.len(),
            ({
                let outcome = spec_alloc_result(
                    old(self).base_spec() as int,
                    old(self).cap_spec() as int,
                    old(self).pos_spec() as int,
                    layout.size_spec() as int,
                    layout.align_spec() as int,
                );
                let off = outcome.unwrap().1 - old(self).base_spec();
                outcome == Some((final(self).pos_spec() as int, r as int)) && forall|j: int|
                    0 <= j < old(self)@.len() ==> final(self)@[j] == if off <= j < off
                        + layout.size_spec() {
                        0u8
                    } else {
                        old(self)@[j]
                    }
            }),
    {
        match self.alloc_zeroed_fallible(layout) {
            Ok(ptr) => ptr,
            Err(_) => unreached(),
        }
    }

    /// Resizes the block at `ptr` from `old_layout` to `new_layout`.
    ///
    /// A topmost block is shrunk or grown in place by moving the cursor; any
    /// other block, or a grow that no longer fits in place, falls back to
    /// allocating a new block and copying the lesser of the two sizes (the
    /// old block's space then stays unreclaimed until the whole allocator is
    /// dropped).
    pub fn realloc_fallible(
        &mut self,
        ptr: usize,
        old_layout: Layout,
        new_layout: Layout,
    ) -> (r: Result<usize, AllocError>)
        requires
            old(self).wf(),
            old_layout.wf(),
            new_layout.wf(),
            old(self).base_spec() <= ptr,
            ptr - old(self).base_spec() + old_layout.size_spec() <= old(self).pos_spec(),
            old(self).base_spec() + old(self).pos_spec() + new_layout.align_spec() - 1
                <= usize::MAX,
        ensures
            final(self).wf(),
            final(self).base_spec() == old(self).base_spec(),
            final(self)@.len() == old(self)@.len(),
            ({
                let base = old(self).base_spec() as int;
                let pos = old(self).pos_spec() as int;
                let off = ptr - base;
                let osz = old_layout.size_spec() as int;
                let nsz = new_layout.size_spec() as int;
                if off + osz == pos && nsz <= osz {
                    r == Ok::<usize, AllocError>(ptr) && final(self).pos_spec() == off + nsz
                        && final(self)@ == old(self)@
                } else if off + osz == pos && pos + (nsz - osz) <= old(self).cap_spec() {
                    r == Ok::<usize, AllocError>(ptr) && final(self).pos_spec() == pos + (nsz - osz)
                        && final(self)@ == old(self)@
                } else {
                    match spec_alloc_result(
                        base,
                        old(self).cap_spec() as int,
                        pos,
                        nsz,
                        new_layout.align_spec() as int,
                    ) {
                        Some((new_pos, addr)) => {
                            let dst = addr - base;
                            let count = if osz < nsz {
                                osz
                            } else {
                                nsz
                            };
                            r == Ok::<usize, AllocError>(addr as usize) && final(self).pos_spec()
                                == new_pos && forall|j: int|
                                0 <= j < old(self)@.len() ==> final(self)@[j] == if dst <= j < dst
                                    + count {
                                    old(self)@[j - dst + off]
                                } else {
                                    old(self)@[j]
                                }
                        },
                        None => r == Err::<usize, AllocError>(AllocError) && final(self).pos_spec()
                            == old(self).pos_spec() && final(self)@ == old(self)@,
                    }
                }
            }),
    {
        let base = self.buffer.as_ptr();
        let old_start_offset = ptr - base;

        if old_start_offset + old_layout.size() == self.pos {
            if new_layout.size() <= old_layout.size() {
                self.pos = old_start_offset + new_layout.size();
                return Ok(ptr);
            }

            let additional_space = new_layout.size() - old_layout.size();
            if additional_space <= self.buffer.len() - self.pos {
                self.pos = self.pos + additional_space;
                return Ok(ptr);
            }
        }

        let new_ptr = match self.alloc_fallible(new_layout) {
            Ok(p) => p,
            Err(e) => return Err(e),
        };

        let count = if old_layout.size() < new_layout.size() {
            old_layout.size()
        } else {
            new_layout.size()
        };
        self.buffer.copy_within(old_start_offset, new_ptr - base, count);

        Ok(new_ptr)
    }

    /// As [`Self::realloc_fallible`], for resizes known to succeed.
    pub fn realloc(&mut self, ptr: usize, old_layout: Layout, new_layout: Layout) -> (r: usize)
        requires
            old(self).wf(),
            old_layout.wf(),
            new_layout.wf(),
            old(self).base_spec() <= ptr,
            ptr - old(self).base_spec() + old_layout.size_spec() <= old(self).pos_spec(),
            old(self).base_spec() + old(self).pos_spec() + new_layout.align_spec() - 1
                <= usize::MAX,
            ({
                let base = old(self).base_spec() as int;
                let pos = old(self).pos_spec() as int;
                let off = ptr - base;
                let osz = old_layout.size_spec() as int;
                let nsz = new_layout.size_spec() as int;
                (off + osz == pos && nsz <= osz) || (off + osz == pos && pos + (nsz - osz) <= old(
                    self,
                ).cap_spec()) || spec_alloc_result(
                    base,
                    old(self).cap_spec() as int,
                    pos,
                    nsz,
                    new_layout.align_spec() as int,
                ) is Some
            }),
        ensures
            final(self).wf(),
            final(self).base_spec() == old(self).base_spec(),
            final(self)@.len() == old(self)@.len(),
            ({
                let base = old(self).base_spec() as int;
                let pos = old(self).pos_spec() as int;
                let off = ptr - base;
                let osz = old_layout.size_spec() as int;
                let nsz = new_layout.size_spec() as int;
                if off + osz == pos && nsz <= osz {
                    r == ptr && final(self).pos_spec() == off + nsz && final(self)@ == old(self)@
                } else if off + osz == pos && pos + (nsz - osz) <= old(self).cap_spec() {
                    r == ptr && final(self).pos_spec() == pos + (nsz - osz) && final(self)@ == old(
                        self,
                    )@
                } else {
                    let alloc_to = spec_alloc_result(
                        base,
                        old(self).cap_spec() as int,
                        pos,
                        nsz,
                        new_layout.align_spec() as int,
                    );
                    let (new_pos, addr) = alloc_to.unwrap();
                    let dst = addr - base;
                    let count = if osz < nsz {
                        osz
                    } else {
                        nsz
                    };
                    alloc_to is Some && r == addr && final(self).pos_spec() == new_pos && forall|
                        j: int,
                    |
                        0 <= j < old(self)@.len() ==> final(self)@[j] == if dst <= j < dst
                            + count {
                            old(self)@[j - dst + off]
                        } else {
                            old(self)@[j]
                        }
                }
            }),
    {
        match self.realloc_fallible(ptr, old_layout, new_layout) {
            Ok(p) => p,
            Err(_) => unreached(),
        }
    }

    /// Frees the block at `ptr`. Space is reclaimed only when the block is
    /// exactly the topmost allocation, by rewinding the cursor; freeing any
    /// other block is a silent no-op and its space stays occupied.
    pub fn dealloc(&mut self, ptr: usize, layout: Layout)
        requires
            old(self).wf(),
            old(self).base_spec() <= ptr,
            ptr - old(self).base_spec() + layout.size_spec() <= old(self).cap_spec(),
        ensures
            final(self).wf(),
            final(self).base_spec() == old(self).base_spec(),
            final(self)@ == old(self)@,
            final(self).pos_spec() == spec_dealloc_pos(
                old(self).pos_spec() as int,
                ptr - old(self).base_spec(),
                layout.size_spec() as int,
            ),
    {
        let offset = ptr - self.buffer.as_ptr();

        if offset + layout.size() == self.pos {
            self.pos = offset;
        }
    }

    /// Releases the backing region; the cursor is forgotten and nothing is
    /// re-poisoned.
    #[inline]
    #[must_use]
    pub fn into_inner(self) -> (r: BackingAllocation)
        ensures
            r@ == self@,
            r.base_spec() == self.base_spec(),
    {
        self.buffer
    }
}

/// Last-in, first-out reclaim. Blocks A, B and C are bump-allocated in that
/// order, each placed exactly at the cursor (no alignment padding); then:
/// freeing C, then B, then A rewinds the cursor exactly to where it stood
/// before A was allocated, while freeing A first (B and C still live) leaves
/// the cursor unchanged — that space leaks rather than being reclaimed.
pub proof fn lemma_stack_lifo(
    base: int,
    cap: int,
    pos0: int,
    sa: int,
    aa: int,
    sb: int,
    ab: int,
    sc: int,
    ac: int,
)
    requires
        base >= 0,
        0 <= pos0,
        sa > 0 && sb > 0 && sc > 0,
        aa > 0 && ab > 0 && ac > 0,
        spec_next_multiple_of(base + pos0, aa) == base + pos0,
        spec_alloc_result(base, cap, pos0, sa, aa) is Some,
        spec_next_multiple_of(base + (pos0 + sa), ab) == base + (pos0 + sa),
        spec_alloc_result(base, cap, pos0 + sa, sb, ab) is Some,
        spec_next_multiple_of(base + (pos0 + sa + sb), ac) == base + (pos0 + sa + sb),
        spec_alloc_result(base, cap, pos0 + sa + sb, sc, ac) is Some,
    ensures
        ({
            let (pos1, addr_a) = spec_alloc_result(base, cap, pos0, sa, aa).unwrap();
            let (pos2, addr_b) = spec_alloc_result(base, cap, pos1, sb, ab).unwrap();
            let (pos3, addr_c) = spec_alloc_result(base, cap, pos2, sc, ac).unwrap();
            let after_c = spec_dealloc_pos(pos3, addr_c - base, sc);
            let after_b = spec_dealloc_pos(after_c, addr_b - base, sb);
            let after_a = spec_dealloc_pos(after_b, addr_a - base, sa);
            after_a == pos0 && spec_dealloc_pos(pos3, addr_a - base, sa) == pos3
        }),
{
}

} // verus!
