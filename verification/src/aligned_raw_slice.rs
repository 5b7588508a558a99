//! Descriptors of element spans whose starting address is known statically
//! to satisfy `T`'s alignment.
//!
//! These are descriptions of memory, not owners of it: they carry an address
//! and an element count, and the well-formedness invariant that the address
//! is a multiple of `T`'s alignment. They are produced by the buffer types,
//! which establish alignment by construction rather than by runtime check.

use crate::backing_alloc::BackingAllocation;
use crate::nonstandard_slices::BaseAddress;
use crate::unaligned_generic_buffer::UnalignedGenericBuffer;
use core::marker::PhantomData;
use vstd::layout::align_of;
use vstd::layout::size_of;
use vstd::prelude::*;

verus! {

/// A read-only span of `len` elements of `T` at an address aligned for `T`.
pub struct AlignedRawSlice<T> {
    addr: usize,
    len: usize,
    _marker: PhantomData<T>,
}

impl<T> AlignedRawSlice<T> {
    /// The starting address, for contracts.
    pub closed spec fn addr_spec(self) -> usize {
        self.addr
    }

    /// The element count, for contracts.
    pub closed spec fn len_spec(self) -> usize {
        self.len
    }

    /// The starting address satisfies `T`'s alignment.
    pub open spec fn wf(self) -> bool {
        self.addr_spec() as int % align_of::<T>() as int == 0
    }

    /// Describes the span of `len` elements of `T` at `addr`. The address
    /// must already satisfy `T`'s alignment.
    #[inline]
    pub fn from_raw_slice(addr: usize, len: usize) -> (r: Self)
        requires
            addr as int % align_of::<T>() as int == 0,
        ensures
            r.wf(),
            r.addr_spec() == addr,
            r.len_spec() == len,
    {
        AlignedRawSlice { addr, len, _marker: PhantomData }
    }

    /// The element count.
    #[inline]
    #[must_use]
    pub fn len(&self) -> (r: usize)
        ensures
            r == self.len_spec(),
    {
        self.len
    }

    /// Whether the span holds no elements.
    #[inline]
    #[must_use]
    pub fn is_empty(&self) -> (r: bool)
        ensures
            r == (self.len_spec() == 0),
    {
        self.len == 0
    }

    /// The aligned starting address.
    #[inline]
    #[must_use]
    pub fn as_ptr(&self) -> (r: usize)
        ensures
            r == self.addr_spec(),
    {
        self.addr
    }

    /// The span as an address/length descriptor.
    #[inline]
    #[must_use]
    pub fn as_raw_slice(&self) -> (r: BaseAddress)
        ensures
            r.base_spec() == self.addr_spec(),
            r.len_spec() == self.len_spec(),
    {
        BaseAddress::from_ptr_len(self.addr, self.len)
    }
}

/// A writable span of `len` elements of `T` at an address aligned for `T`.
pub struct AlignedMutRawSlice<T> {
    addr: usize,
    len: usize,
    _marker: PhantomData<T>,
}

impl<T> AlignedMutRawSlice<T> {
    /// The starting address, for contracts.
    pub closed spec fn addr_spec(self) -> usize {
        self.addr
    }

    /// The element count, for contracts.
    pub closed spec fn len_spec(self) -> usize {
        self.len
    }

    /// The starting address satisfies `T`'s alignment.
    pub open spec fn wf(self) -> bool {
        self.addr_spec() as int % align_of::<T>() as int == 0
    }

    /// Describes the writable span of `len` elements of `T` at `addr`. The
    /// address must already satisfy `T`'s alignment.
    #[inline]
    pub fn from_mut_raw_slice(addr: usize, len: usize) -> (r: Self)
        requires
            addr as int % align_of::<T>() as int == 0,
        ensures
            r.wf(),
            r.addr_spec() == addr,
            r.len_spec() == len,
    {
        AlignedMutRawSlice { addr, len, _marker: PhantomData }
    }

    /// The aligned view over the valid prefix of a caller-owned byte region
    /// at logical address `base_addr`.
    #[inline]
    #[must_use]
    pub fn from_unique_slice(slice: Vec<u8>, base_addr: usize) -> (r: Self)
        requires
            base_addr + slice@.len() <= usize::MAX,
            size_of::<T>() > 0,
            crate::align_twiddle::spec_next_multiple_of(base_addr as int, align_of::<T>() as int)
                <= usize::MAX,
        ensures
            r.wf(),
            r.addr_spec() == crate::align_twiddle::spec_next_multiple_of(
                base_addr as int,
                align_of::<T>() as int,
            ),
            r.len_spec() == crate::unaligned_generic_buffer::spec_valid_len_for::<T>(
                base_addr as int,
                slice@.len() as int,
            ),
    {
        let mut ugb: UnalignedGenericBuffer<T> = UnalignedGenericBuffer::from_unique_slice(
            slice,
            base_addr,
        );
        ugb.as_mut_aligned_raw_slice()
    }

    /// As [`Self::from_unique_slice`], for a region whose contents are not
    /// yet meaningful.
    #[inline]
    #[must_use]
    pub fn from_unique_uninit_slice(slice: Vec<u8>, base_addr: usize) -> (r: Self)
        requires
            base_addr + slice@.len() <= usize::MAX,
            size_of::<T>() > 0,
            crate::align_twiddle::spec_next_multiple_of(base_addr as int, align_of::<T>() as int)
                <= usize::MAX,
        ensures
            r.wf(),
            r.addr_spec() == crate::align_twiddle::spec_next_multiple_of(
                base_addr as int,
                align_of::<T>() as int,
            ),
            r.len_spec() == crate::unaligned_generic_buffer::spec_valid_len_for::<T>(
                base_addr as int,
                slice@.len() as int,
            ),
    {
        let mut ugb: UnalignedGenericBuffer<T> = UnalignedGenericBuffer::from_unique_uninit_slice(
            slice,
            base_addr,
        );
        ugb.as_mut_aligned_raw_slice()
    }

    /// The aligned view over the valid prefix of a backing region.
    #[inline]
    #[must_use]
    pub fn from_backing_allocation(mem: BackingAllocation) -> (r: Self)
        requires
            mem.wf(),
            size_of::<T>() > 0,
            crate::align_twiddle::spec_next_multiple_of(
                mem.base_spec() as int,
                align_of::<T>() as int,
            ) <= usize::MAX,
        ensures
            r.wf(),
            r.addr_spec() == crate::align_twiddle::spec_next_multiple_of(
                mem.base_spec() as int,
                align_of::<T>() as int,
            ),
            r.len_spec() == crate::unaligned_generic_buffer::spec_valid_len_for::<T>(
                mem.base_spec() as int,
                mem@.len() as int,
            ),
    {
        let mut ugb: UnalignedGenericBuffer<T> = UnalignedGenericBuffer::from_backing_allocation(
            mem,
        );
        ugb.as_mut_aligned_raw_slice()
    }

    /// The aligned view over the valid prefix of an unaligned buffer.
    #[inline]
    #[must_use]
    pub fn from_unaligned_generic_buffer(ugb: UnalignedGenericBuffer<T>) -> (r: Self)
        requires
            size_of::<T>() > 0,
            crate::align_twiddle::spec_next_multiple_of(
                ugb.base_spec() as int,
                align_of::<T>() as int,
            ) <= usize::MAX,
        ensures
            r.wf(),
            r.addr_spec() == crate::align_twiddle::spec_next_multiple_of(
                ugb.base_spec() as int,
                align_of::<T>() as int,
            ),
            r.len_spec() == crate::unaligned_generic_buffer::spec_valid_len_for::<T>(
                ugb.base_spec() as int,
                ugb@.len() as int,
            ),
    {
        let mut ugb = ugb;
        ugb.as_mut_aligned_raw_slice()
    }

    /// The element count.
    #[inline]
    #[must_use]
    pub fn len(&self) -> (r: usize)
        ensures
            r == self.len_spec(),
    {
        self.len
    }

    /// Whether the span holds no elements.
    #[inline]
    #[must_use]
    pub fn is_empty(&self) -> (r: bool)
        ensures
            r == (self.len_spec() == 0),
    {
        self.len == 0
    }

    /// The aligned starting address.
    #[inline]
    #[must_use]
    pub fn as_ptr(&self) -> (r: usize)
        ensures
            r == self.addr_spec(),
    {
        self.addr
    }

    /// The aligned starting address, for writes by the span's owner.
    #[inline]
    pub fn as_mut_ptr(&mut self) -> (r: usize)
        ensures
            *final(self) == *old(self),
            r == old(self).addr_spec(),
    {
        self.addr
    }

    /// The span as an address/length descriptor.
    #[inline]
    #[must_use]
    pub fn as_raw_slice(&self) -> (r: BaseAddress)
        ensures
            r.base_spec() == self.addr_spec(),
            r.len_spec() == self.len_spec(),
    {
        BaseAddress::from_ptr_len(self.addr, self.len)
    }

    /// The span as an address/length descriptor, for writes by its owner.
    #[inline]
    pub fn as_mut_raw_slice(&mut self) -> (r: BaseAddress)
        ensures
            *final(self) == *old(self),
            r.base_spec() == old(self).addr_spec(),
            r.len_spec() == old(self).len_spec(),
    {
        BaseAddress::from_ptr_len(self.addr, self.len)
    }
}

} // verus!
