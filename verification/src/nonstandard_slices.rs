//! Address/length descriptors and narrow offset types.
//!
//! A [`BaseAddress`] names a span of memory by its starting address and its
//! length in bytes; it is a description only and cannot be dereferenced.
//! Offsets relative to such a base are carried by narrow offset and slice
//! types, written once generically over the stored width instead of once per
//! integer type.

use vstd::prelude::*;

verus! {

/// The address and length of a span of memory. Purely descriptive: nothing
/// can be read or written through it.
#[derive(Clone, Copy, PartialEq, Eq, Hash, Debug, Structural)]
pub struct BaseAddress {
    base: usize,
    len: usize,
}

impl BaseAddress {
    /// The starting address, for contracts.
    pub closed spec fn base_spec(self) -> usize {
        self.base
    }

    /// The length in elements, for contracts.
    pub closed spec fn len_spec(self) -> usize {
        self.len
    }

    /// Describes the span of `len` elements starting at `base`.
    #[inline]
    pub fn from_ptr_len(base: usize, len: usize) -> (r: Self)
        ensures
            r.base_spec() == base,
            r.len_spec() == len,
    {
        Self { base, len }
    }

    /// The starting address, read through a shared reference.
    #[inline]
    #[must_use]
    pub fn base_const(&self) -> (r: usize)
        ensures
            r == self.base_spec(),
    {
        self.base
    }

    /// The starting address, read through an exclusive reference.
    #[inline]
    pub fn base_mut(&mut self) -> (r: usize)
        ensures
            *final(self) == *old(self),
            r == old(self).base_spec(),
    {
        self.base
    }

    /// The length in elements.
    #[inline]
    #[must_use]
    pub fn len(&self) -> (r: usize)
        ensures
            r == self.len_spec(),
    {
        self.len
    }

    /// Whether the span is empty.
    #[inline]
    #[must_use]
    pub fn is_empty(&self) -> (r: bool)
        ensures
            r == (self.len_spec() == 0),
    {
        self.len == 0
    }
}

/// An offset that resolves to an address within a [`BaseAddress`] span.
pub trait ByAddrConst {
    /// The offset in bytes that `self` stands for.
    spec fn spec_offset(&self) -> nat;

    /// The address `base + offset`. The offset must lie within the span, and
    /// the resolved address must not wrap around the address space.
    fn by_addr(&self, base: BaseAddress) -> (r: usize)
        requires
            self.spec_offset() <= base.len_spec(),
            base.base_spec() + self.spec_offset() <= usize::MAX,
        ensures
            r == base.base_spec() + self.spec_offset(),
    ;
}

/// As [`ByAddrConst`], resolved through an exclusive reference so that the
/// resulting address may be used for writes by whoever owns the span.
pub trait ByAddrMut {
    /// The offset in bytes that `self` stands for.
    spec fn spec_offset_mut(&self) -> nat;

    /// The address `base + offset`, for mutation.
    fn by_addr_mut(&mut self, base: BaseAddress) -> (r: usize)
        requires
            old(self).spec_offset_mut() <= base.len_spec(),
            base.base_spec() + old(self).spec_offset_mut() <= usize::MAX,
        ensures
            final(self).spec_offset_mut() == old(self).spec_offset_mut(),
            r == base.base_spec() + old(self).spec_offset_mut(),
    ;
}

/// An element offset relative to a [`BaseAddress`]. The fixed-width offset
/// family collapses into this one component: every narrower offset integer
/// embeds losslessly here, so one type serves all widths.
#[derive(Clone, Copy, PartialEq, Eq, Hash, Debug, Structural)]
pub struct OffsetAddr {
    inner: usize,
}

impl OffsetAddr {
    /// The stored offset, for contracts.
    pub closed spec fn inner_spec(self) -> usize {
        self.inner
    }

    /// Wraps an offset.
    pub fn from_offset(inner: usize) -> (r: Self)
        ensures
            r.inner_spec() == inner,
    {
        OffsetAddr { inner }
    }
}

impl ByAddrConst for OffsetAddr {
    closed spec fn spec_offset(&self) -> nat {
        self.inner as nat
    }

    fn by_addr(&self, base: BaseAddress) -> (r: usize) {
        base.base_const() + self.inner
    }
}

impl ByAddrMut for OffsetAddr {
    closed spec fn spec_offset_mut(&self) -> nat {
        self.inner as nat
    }

    fn by_addr_mut(&mut self, base: BaseAddress) -> (r: usize) {
        base.base_const() + self.inner
    }
}

/// A span of elements at an offset: the offset of its first element and
/// its length.
#[derive(Clone, Copy, PartialEq, Eq, Hash, Debug, Structural)]
pub struct OffsetSlice {
    offset: OffsetAddr,
    len: usize,
}

impl OffsetSlice {
    /// The span's length, for contracts.
    pub closed spec fn len_spec(self) -> usize {
        self.len
    }

    /// Describes `len` elements starting at `offset`.
    pub fn from_offset_len(offset: OffsetAddr, len: usize) -> (r: Self)
        ensures
            r.len_spec() == len,
            r.spec_offset() == offset.spec_offset(),
    {
        OffsetSlice { offset, len }
    }

    /// The span's length.
    #[inline]
    #[must_use]
    pub fn len(&self) -> (r: usize)
        ensures
            r == self.len_spec(),
    {
        self.len
    }

    /// Whether the span is empty.
    #[inline]
    #[must_use]
    pub fn is_empty(&self) -> (r: bool)
        ensures
            r == (self.len_spec() == 0),
    {
        self.len == 0
    }
}

impl ByAddrConst for OffsetSlice {
    closed spec fn spec_offset(&self) -> nat {
        self.offset.spec_offset()
    }

    fn by_addr(&self, base: BaseAddress) -> (r: usize) {
        self.offset.by_addr(base)
    }
}

impl ByAddrMut for OffsetSlice {
    closed spec fn spec_offset_mut(&self) -> nat {
        self.offset.spec_offset()
    }

    fn by_addr_mut(&mut self, base: BaseAddress) -> (r: usize) {
        self.offset.by_addr(base)
    }
}

} // verus!
