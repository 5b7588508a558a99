//! A view of a backing region as a sequence of logically-`T`-typed elements,
//! without requiring the region's base address to satisfy `T`'s alignment.
//!
//! The number of valid elements is derived, never cached: it is recomputed
//! from the region's base address and `T`'s layout on every query, so it is
//! correct under any base address.

use crate::align_twiddle::spec_next_multiple_of;
use crate::aligned_raw_slice::AlignedMutRawSlice;
use crate::aligned_raw_slice::AlignedRawSlice;
use crate::backing_alloc::BackingAllocation;
use crate::const_allocator_shared::next_aligned_addr;
use crate::nonstandard_slices::BaseAddress;
use core::marker::PhantomData;
use vstd::layout::align_of;
use vstd::layout::size_of;
use vstd::prelude::*;

verus! {

/// Bytes of padding needed to bring `base` up to `T`'s alignment.
pub open spec fn spec_padding_for<T>(base: int) -> int {
    spec_next_multiple_of(base, align_of::<T>() as int) - base
}

/// How many whole, properly aligned `T` elements fit in `len` bytes starting
/// at address `base`: zero where the padding alone exceeds the region.
pub open spec fn spec_valid_len_for<T>(base: int, len: int) -> int {
    if spec_padding_for::<T>(base) >= len {
        0
    } else {
        (len - spec_padding_for::<T>(base)) / (size_of::<T>() as int)
    }
}

/// The padding that brings `base` up to a multiple of `align`, computed
/// without overflow: the distance to the next multiple is `align - base %
/// align`, or zero where `base` is already a multiple.
pub proof fn lemma_padding_form(base: int, align: int)
    requires
        align > 0,
        base >= 0,
    ensures
        spec_next_multiple_of(base, align) - base == if base % align == 0 {
            0int
        } else {
            align - base % align
        },
{
    let rem = base % align;
    if rem == 0 {
        assert(spec_next_multiple_of(base, align) == base) by (nonlinear_arith)
            requires
                align > 0,
                base >= 0,
                base % align == 0,
        ;
    } else {
        assert(spec_next_multiple_of(base, align) == base + align - rem) by (nonlinear_arith)
            requires
                align > 0,
                base >= 0,
                base % align == rem,
                rem != 0,
        ;
    }
}

/// A byte region viewed as storage for elements of `T`, with no assumption
/// that the region's base address is aligned for `T`.
pub struct UnalignedGenericBuffer<T> {
    mem: BackingAllocation,
    _marker: PhantomData<T>,
}

impl<T> View for UnalignedGenericBuffer<T> {
    type V = Seq<u8>;

    closed spec fn view(&self) -> Seq<u8> {
        self.mem@
    }
}

impl<T> UnalignedGenericBuffer<T> {
    /// The logical address of the region's first byte, for contracts.
    pub closed spec fn base_spec(self) -> usize {
        self.mem.base_spec()
    }

    /// The region does not wrap around the address space.
    pub open spec fn wf(self) -> bool {
        self.base_spec() + self@.len() <= usize::MAX
    }

    #[inline]
    #[must_use]
    pub fn from_backing_allocation(mem: BackingAllocation) -> (r: Self)
        requires
            mem.wf(),
        ensures
            r.wf(),
            r.base_spec() == mem.base_spec(),
            r@ == mem@,
    {
        UnalignedGenericBuffer { mem, _marker: PhantomData }
    }

    /// Wraps a caller-owned byte region at logical address `base_addr`; the
    /// region is poisoned.
    #[inline]
    #[must_use]
    pub fn from_unique_slice(slice: Vec<u8>, base_addr: usize) -> (r: Self)
        requires
            base_addr + slice@.len() <= usize::MAX,
        ensures
            r.wf(),
            r.base_spec() == base_addr,
            r@ == Seq::new(slice@.len(), |i: int| crate::backing_alloc::POISON_BYTE),
    {
        let backing_allocation = BackingAllocation::from_unique_slice(slice, base_addr);
        UnalignedGenericBuffer { mem: backing_allocation, _marker: PhantomData }
    }

    /// As [`Self::from_unique_slice`], for a region whose contents are not
    /// yet meaningful.
    #[inline]
    #[must_use]
    pub fn from_unique_uninit_slice(slice: Vec<u8>, base_addr: usize) -> (r: Self)
        requires
            base_addr + slice@.len() <= usize::MAX,
        ensures
            r.wf(),
            r.base_spec() == base_addr,
            r@ == Seq::new(slice@.len(), |i: int| crate::backing_alloc::POISON_BYTE),
    {
        let backing_allocation = BackingAllocation::from_unique_uninit_slice(slice, base_addr);
        UnalignedGenericBuffer { mem: backing_allocation, _marker: PhantomData }
    }

    /// The amount of `T`s the underlying buffer can meaningfully fit: the
    /// space after aligning the start for `T`, divided by `T`'s size. Never
    /// underflows; zero where padding alone exceeds the region.
    #[inline]
    #[must_use]
    pub fn valid_len(&self) -> (r: usize)
        requires
            size_of::<T>() > 0,
        ensures
            r == spec_valid_len_for::<T>(self.base_spec() as int, self@.len() as int),
    {
        vstd::layout::layout_for_type_is_valid::<T>();
        let buffer_size = self.mem.len();
        let original_start = self.mem.as_ptr();
        let align = core::mem::align_of::<T>();

        let rem = original_start % align;
        let alignment_padding = if rem == 0 {
            0
        } else {
            align - rem
        };
        proof {
            lemma_padding_form(original_start as int, align as int);
        }

        if alignment_padding >= buffer_size {
            return 0;
        }

        let remaining_space = buffer_size - alignment_padding;

        remaining_space / core::mem::size_of::<T>()
    }

    /// The element count ignoring alignment: the byte length divided by `T`'s
    /// size.
    #[inline]
    #[must_use]
    pub fn unaligned_len(&self) -> (r: usize)
        requires
            size_of::<T>() > 0,
        ensures
            r == self@.len() as int / size_of::<T>() as int,
    {
        vstd::layout::layout_for_type_is_valid::<T>();
        self.mem.len() / core::mem::size_of::<T>()
    }

    /// The first address at or after the region start where a `T` may live.
    /// The address is arithmetic only: it may lie past every valid element.
    #[inline]
    #[must_use]
    pub fn as_next_aligned_ptr(&self) -> (r: usize)
        requires
            spec_next_multiple_of(self.base_spec() as int, align_of::<T>() as int) <= usize::MAX,
        ensures
            r == spec_next_multiple_of(self.base_spec() as int, align_of::<T>() as int),
    {
        vstd::layout::layout_for_type_is_valid::<T>();
        let original_start = self.mem.as_ptr();
        let align = core::mem::align_of::<T>();
        let rem = original_start % align;
        let alignment_padding = if rem == 0 {
            0
        } else {
            align - rem
        };
        proof {
            lemma_padding_form(original_start as int, align as int);
        }
        original_start + alignment_padding
    }

    /// As [`Self::as_next_aligned_ptr`], for writes by the region's owner.
    #[inline]
    pub fn as_next_aligned_mut_ptr(&mut self) -> (r: usize)
        requires
            spec_next_multiple_of(old(self).base_spec() as int, align_of::<T>() as int)
                <= usize::MAX,
        ensures
            *final(self) == *old(self),
            r == spec_next_multiple_of(old(self).base_spec() as int, align_of::<T>() as int),
    {
        self.as_next_aligned_ptr()
    }

    /// A descriptor of the whole region reinterpreted element-wise: the base
    /// address with the raw byte length as its count.
    #[inline]
    #[must_use]
    pub fn as_unaligned_slice(&self) -> (r: BaseAddress)
        ensures
            r.base_spec() == self.base_spec(),
            r.len_spec() == self@.len(),
    {
        self.mem.as_raw_slice()
    }

    /// The region's base address, which need not be aligned for `T`.
    #[inline]
    #[must_use]
    pub fn as_unaligned_ptr(&self) -> (r: usize)
        ensures
            r == self.base_spec(),
    {
        self.mem.as_ptr()
    }

    /// As [`Self::as_unaligned_slice`], for writes by the region's owner.
    #[inline]
    pub fn as_unaligned_mut_slice(&mut self) -> (r: BaseAddress)
        ensures
            *final(self) == *old(self),
            r.base_spec() == old(self).base_spec(),
            r.len_spec() == old(self)@.len(),
    {
        self.mem.as_mut_raw_slice()
    }

    /// As [`Self::as_unaligned_ptr`], for writes by the region's owner.
    #[inline]
    pub fn as_unaligned_mut_ptr(&mut self) -> (r: usize)
        ensures
            *final(self) == *old(self),
            r == old(self).base_spec(),
    {
        self.mem.as_mut_ptr()
    }

    /// A descriptor over exactly the valid elements: the first aligned
    /// address and the valid length.
    #[inline]
    #[must_use]
    pub fn as_raw_slice(&self) -> (r: BaseAddress)
        requires
            size_of::<T>() > 0,
            spec_next_multiple_of(self.base_spec() as int, align_of::<T>() as int) <= usize::MAX,
        ensures
            r.base_spec() == spec_next_multiple_of(self.base_spec() as int, align_of::<T>() as int),
            r.len_spec() == spec_valid_len_for::<T>(self.base_spec() as int, self@.len() as int),
    {
        let data = self.as_next_aligned_ptr();
        let len = self.valid_len();
        BaseAddress::from_ptr_len(data, len)
    }

    /// As [`Self::as_raw_slice`], for writes by the region's owner.
    #[inline]
    pub fn as_mut_raw_slice(&mut self) -> (r: BaseAddress)
        requires
            size_of::<T>() > 0,
            spec_next_multiple_of(old(self).base_spec() as int, align_of::<T>() as int)
                <= usize::MAX,
        ensures
            *final(self) == *old(self),
            r.base_spec() == spec_next_multiple_of(
                old(self).base_spec() as int,
                align_of::<T>() as int,
            ),
            r.len_spec() == spec_valid_len_for::<T>(
                old(self).base_spec() as int,
                old(self)@.len() as int,
            ),
    {
        let data = self.as_next_aligned_ptr();
        let len = self.valid_len();
        BaseAddress::from_ptr_len(data, len)
    }

    /// Overwrites the bytes at `[start, end)` with `value`.
    pub(crate) fn fill_range(&mut self, start: usize, end: usize, value: u8)
        requires
            start <= end <= old(self)@.len(),
        ensures
            final(self).base_spec() == old(self).base_spec(),
            final(self)@.len() == old(self)@.len(),
            forall|j: int|
                0 <= j < old(self)@.len() ==> final(self)@[j] == if start <= j < end {
                    value
                } else {
                    old(self)@[j]
                },
    {
        self.mem.fill_range(start, end, value)
    }

    /// Copies `count` bytes from `[src, src + count)` to `[dst, dst + count)`;
    /// the ranges must not overlap.
    pub(crate) fn copy_within(&mut self, src: usize, dst: usize, count: usize)
        requires
            src + count <= old(self)@.len(),
            dst + count <= old(self)@.len(),
            src + count <= dst || dst + count <= src,
        ensures
            final(self).base_spec() == old(self).base_spec(),
            final(self)@.len() == old(self)@.len(),
            forall|j: int|
                0 <= j < old(self)@.len() ==> final(self)@[j] == if dst <= j < dst + count {
                    old(self)@[j - dst + src]
                } else {
                    old(self)@[j]
                },
    {
        self.mem.copy_within(src, dst, count)
    }

    /// The aligned, read-only view over the valid prefix: aligned by
    /// construction, no runtime check.
    #[inline]
    #[must_use]
    pub fn as_aligned_raw_slice(&self) -> (r: AlignedRawSlice<T>)
        requires
            size_of::<T>() > 0,
            spec_next_multiple_of(self.base_spec() as int, align_of::<T>() as int) <= usize::MAX,
        ensures
            r.wf(),
            r.addr_spec() == spec_next_multiple_of(self.base_spec() as int, align_of::<T>() as int),
            r.len_spec() == spec_valid_len_for::<T>(self.base_spec() as int, self@.len() as int),
    {
        vstd::layout::layout_for_type_is_valid::<T>();
        proof {
            crate::align_twiddle::lemma_next_multiple_of(
                self.base_spec() as int,
                align_of::<T>() as int,
            );
        }
        let data = self.as_next_aligned_ptr();
        let len = self.valid_len();
        AlignedRawSlice::from_raw_slice(data, len)
    }

    /// The aligned, writable view over the valid prefix.
    #[inline]
    pub fn as_mut_aligned_raw_slice(&mut self) -> (r: AlignedMutRawSlice<T>)
        requires
            size_of::<T>() > 0,
            spec_next_multiple_of(old(self).base_spec() as int, align_of::<T>() as int)
                <= usize::MAX,
        ensures
            *final(self) == *old(self),
            r.wf(),
            r.addr_spec() == spec_next_multiple_of(
                old(self).base_spec() as int,
                align_of::<T>() as int,
            ),
            r.len_spec() == spec_valid_len_for::<T>(
                old(self).base_spec() as int,
                old(self)@.len() as int,
            ),
    {
        vstd::layout::layout_for_type_is_valid::<T>();
        proof {
            crate::align_twiddle::lemma_next_multiple_of(
                self.base_spec() as int,
                align_of::<T>() as int,
            );
        }
        let data = self.as_next_aligned_ptr();
        let len = self.valid_len();
        AlignedMutRawSlice::from_mut_raw_slice(data, len)
    }
}

} // verus!
