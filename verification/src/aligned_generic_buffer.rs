//! A thin typed accessor over a span already proven aligned for `T`.
//!
//! The aligned view is established by the types that construct it (for
//! example the unaligned buffer's aligned-prefix view), never by a runtime
//! check here.

use crate::aligned_raw_slice::AlignedMutRawSlice;
use crate::backing_alloc::BackingAllocation;
use crate::nonstandard_slices::BaseAddress;
use crate::unaligned_generic_buffer::UnalignedGenericBuffer;
use core::marker::PhantomData;
use vstd::layout::align_of;
use vstd::layout::size_of;
use vstd::prelude::*;

verus! {

/// A buffer of elements of `T` whose starting address satisfies `T`'s
/// alignment by construction.
pub struct AlignedGenericBuffer<T> {
    mem: AlignedMutRawSlice<T>,
    _marker: PhantomData<T>,
}

impl<T> AlignedGenericBuffer<T> {
    /// The aligned starting address, for contracts.
    pub closed spec fn addr_spec(self) -> usize {
        self.mem.addr_spec()
    }

    /// The element count, for contracts.
    pub closed spec fn len_spec(self) -> usize {
        self.mem.len_spec()
    }

    /// The starting address satisfies `T`'s alignment.
    pub closed spec fn wf(self) -> bool {
        self.mem.wf()
    }

    /// The aligned view over the valid prefix of a caller-owned byte region
    /// at logical address `base_addr`.
    #[inline]
    #[must_use]
    pub fn from_unique_slice(slice: Vec<u8>, base_addr: usize) -> (r: Self)
        requires
            base_addr + slice@.len() <= usize::MAX,
            size_of::<T>() > 0,
            crate::align_twiddle::spec_next_multiple_of(base_addr as int, align_of::<T>() as int)
                <= usize::MAX,
        ensures
            r.wf(),
            r.addr_spec() == crate::align_twiddle::spec_next_multiple_of(
                base_addr as int,
                align_of::<T>() as int,
            ),
            r.len_spec() == crate::unaligned_generic_buffer::spec_valid_len_for::<T>(
                base_addr as int,
                slice@.len() as int,
            ),
    {
        let mem = AlignedMutRawSlice::from_unique_slice(slice, base_addr);
        AlignedGenericBuffer { mem, _marker: PhantomData }
    }

    /// As [`Self::from_unique_slice`], for a region whose contents are not
    /// yet meaningful.
    #[inline]
    #[must_use]
    pub fn from_unique_uninit_slice(slice: Vec<u8>, base_addr: usize) -> (r: Self)
        requires
            base_addr + slice@.len() <= usize::MAX,
            size_of::<T>() > 0,
            crate::align_twiddle::spec_next_multiple_of(base_addr as int, align_of::<T>() as int)
                <= usize::MAX,
        ensures
            r.wf(),
            r.addr_spec() == crate::align_twiddle::spec_next_multiple_of(
                base_addr as int,
                align_of::<T>() as int,
            ),
            r.len_spec() == crate::unaligned_generic_buffer::spec_valid_len_for::<T>(
                base_addr as int,
                slice@.len() as int,
            ),
    {
        let mem = AlignedMutRawSlice::from_unique_uninit_slice(slice, base_addr);
        AlignedGenericBuffer { mem, _marker: PhantomData }
    }

    /// The aligned view over the valid prefix of a backing region.
    #[inline]
    #[must_use]
    pub fn from_backing_allocation(mem: BackingAllocation) -> (r: Self)
        requires
            mem.wf(),
            size_of::<T>() > 0,
            crate::align_twiddle::spec_next_multiple_of(
                mem.base_spec() as int,
                align_of::<T>() as int,
            ) <= usize::MAX,
        ensures
            r.wf(),
            r.addr_spec() == crate::align_twiddle::spec_next_multiple_of(
                mem.base_spec() as int,
                align_of::<T>() as int,
            ),
            r.len_spec() == crate::unaligned_generic_buffer::spec_valid_len_for::<T>(
                mem.base_spec() as int,
                mem@.len() as int,
            ),
    {
        let mem = AlignedMutRawSlice::from_backing_allocation(mem);
        AlignedGenericBuffer { mem, _marker: PhantomData }
    }

    /// The aligned view over the valid prefix of an unaligned buffer.
    #[inline]
    #[must_use]
    pub fn from_unaligned_generic_buffer(ugb: UnalignedGenericBuffer<T>) -> (r: Self)
        requires
            size_of::<T>() > 0,
            crate::align_twiddle::spec_next_multiple_of(
                ugb.base_spec() as int,
                align_of::<T>() as int,
            ) <= usize::MAX,
        ensures
            r.wf(),
            r.addr_spec() == crate::align_twiddle::spec_next_multiple_of(
                ugb.base_spec() as int,
                align_of::<T>() as int,
            ),
            r.len_spec() == crate::unaligned_generic_buffer::spec_valid_len_for::<T>(
                ugb.base_spec() as int,
                ugb@.len() as int,
            ),
    {
        let mut ugb = ugb;
        let mem = ugb.as_mut_aligned_raw_slice();
        AlignedGenericBuffer { mem, _marker: PhantomData }
    }

    /// Wraps an aligned writable span directly.
    #[inline]
    #[must_use]
    pub fn from_aligned_mut_raw_slice(mem: AlignedMutRawSlice<T>) -> (r: Self)
        ensures
            r.wf() == mem.wf(),
            r.addr_spec() == mem.addr_spec(),
            r.len_spec() == mem.len_spec(),
    {
        AlignedGenericBuffer { mem, _marker: PhantomData }
    }

    /// The element count.
    #[inline]
    #[must_use]
    pub fn len(&self) -> (r: usize)
        ensures
            r == self.len_spec(),
    {
        self.mem.len()
    }

    /// Whether the buffer holds no elements.
    #[inline]
    #[must_use]
    pub fn is_empty(&self) -> (r: bool)
        ensures
            r == (self.len_spec() == 0),
    {
        self.mem.is_empty()
    }

    /// The aligned starting address.
    #[inline]
    #[must_use]
    pub fn as_ptr(&self) -> (r: usize)
        ensures
            r == self.addr_spec(),
    {
        self.mem.as_ptr()
    }

    /// The aligned starting address, for writes by the buffer's owner.
    #[inline]
    pub fn as_mut_ptr(&mut self) -> (r: usize)
        ensures
            *final(self) == *old(self),
            r == old(self).addr_spec(),
    {
        let r = self.mem.as_mut_ptr();
        r
    }

    /// The buffer as an address/length descriptor.
    #[inline]
    #[must_use]
    pub fn as_raw_slice(&self) -> (r: BaseAddress)
        ensures
            r.base_spec() == self.addr_spec(),
            r.len_spec() == self.len_spec(),
    {
        self.mem.as_raw_slice()
    }

    /// The buffer as an address/length descriptor, for writes by its owner.
    #[inline]
    pub fn as_mut_raw_slice(&mut self) -> (r: BaseAddress)
        ensures
            *final(self) == *old(self),
            r.base_spec() == old(self).addr_spec(),
            r.len_spec() == old(self).len_spec(),
    {
        let r = self.mem.as_mut_raw_slice();
        r
    }
}

} // verus!
