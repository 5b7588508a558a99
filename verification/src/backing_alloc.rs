//! The backing region of every allocator: an owned byte buffer paired with
//! the caller-chosen logical address of its first byte.
//!
//! On construction the whole region is overwritten with a fixed poison byte,
//! so that reads of memory never handed out by an allocator are visible as
//! the sentinel value rather than as stale caller data.

use crate::nonstandard_slices::BaseAddress;
use vstd::prelude::*;

verus! {

/// The sentinel written over a freshly wrapped region and over freed blocks.
pub const POISON_BYTE: u8 = 0xAA;

/// A caller-supplied byte region, owned for the allocator's whole lifetime.
///
/// The `base` address is the logical address of `bytes[0]`; all alignment
/// arithmetic in the crate is relative to it. A well-formed region never
/// wraps around the address space: `base + len <= usize::MAX`.
pub struct BackingAllocation {
    bytes: Vec<u8>,
    base: usize,
}

impl View for BackingAllocation {
    type V = Seq<u8>;

    closed spec fn view(&self) -> Seq<u8> {
        self.bytes@
    }
}

impl BackingAllocation {
    /// The logical address of the first byte, for contracts.
    pub closed spec fn base_spec(self) -> usize {
        self.base
    }

    /// The span `[base, base + len]` fits in the address space.
    pub open spec fn wf(self) -> bool {
        self.base_spec() + self@.len() <= usize::MAX
    }

    /// Wraps a caller-owned byte region whose first byte sits at logical
    /// address `base_addr`. The whole region is poisoned.
    pub fn from_unique_slice(slice: Vec<u8>, base_addr: usize) -> (r: Self)
        requires
            base_addr + slice@.len() <= usize::MAX,
        ensures
            r.wf(),
            r.base_spec() == base_addr,
            r@ == Seq::new(slice@.len(), |i: int| POISON_BYTE),
    {
        let mut bytes = slice;
        let n = bytes.len();
        let mut i: usize = 0;
        while i < n
            invariant
                n == bytes@.len(),
                i <= n,
                forall|j: int| 0 <= j < i ==> bytes@[j] == POISON_BYTE,
            decreases n - i,
        {
            bytes[i] = POISON_BYTE;
            i = i + 1;
        }
        proof {
            assert(bytes@ =~= Seq::new(slice@.len(), |i: int| POISON_BYTE));
        }
        BackingAllocation { bytes, base: base_addr }
    }

    /// Wraps a region whose contents are not yet meaningful. Identical to
    /// [`Self::from_unique_slice`]: the region is poisoned, so every byte is
    /// initialized from here on.
    pub fn from_unique_uninit_slice(slice: Vec<u8>, base_addr: usize) -> (r: Self)
        requires
            base_addr + slice@.len() <= usize::MAX,
        ensures
            r.wf(),
            r.base_spec() == base_addr,
            r@ == Seq::new(slice@.len(), |i: int| POISON_BYTE),
    {
        BackingAllocation::from_unique_slice(slice, base_addr)
    }

    /// The region's length in bytes.
    #[inline]
    #[must_use]
    pub fn len(&self) -> (r: usize)
        ensures
            r == self@.len(),
    {
        self.bytes.len()
    }

    /// Whether the region is empty.
    #[inline]
    #[must_use]
    pub fn is_empty(&self) -> (r: bool)
        ensures
            r == (self@.len() == 0),
    {
        self.bytes.len() == 0
    }

    /// The logical address of the region's first byte.
    #[inline]
    #[must_use]
    pub fn as_ptr(&self) -> (r: usize)
        ensures
            r == self.base_spec(),
    {
        self.base
    }

    /// The logical address of the region's first byte, for writes.
    #[inline]
    pub fn as_mut_ptr(&mut self) -> (r: usize)
        ensures
            *final(self) == *old(self),
            r == old(self).base_spec(),
    {
        self.base
    }

    /// A descriptor of the whole region: its base address and length.
    #[inline]
    #[must_use]
    pub fn as_raw_slice(&self) -> (r: BaseAddress)
        ensures
            r.base_spec() == self.base_spec(),
            r.len_spec() == self@.len(),
    {
        BaseAddress::from_ptr_len(self.base, self.bytes.len())
    }

    /// A descriptor of the whole region, for writes by its owner.
    #[inline]
    pub fn as_mut_raw_slice(&mut self) -> (r: BaseAddress)
        ensures
            *final(self) == *old(self),
            r.base_spec() == old(self).base_spec(),
            r.len_spec() == old(self)@.len(),
    {
        BaseAddress::from_ptr_len(self.base, self.bytes.len())
    }

    /// The region's bytes. Every byte is initialized (the constructors poison
    /// the region), so this view is always safe to take.
    #[inline]
    #[must_use]
    pub fn as_slice(&self) -> (r: &[u8])
        ensures
            r@ == self@,
    {
        self.bytes.as_slice()
    }

    /// The region's bytes, writable by its owner. Every byte is initialized
    /// (the constructors poison the region), so this view is always safe to
    /// hand out; the base address cannot change through it.
    #[inline]
    pub fn as_mut_slice(&mut self) -> (r: &mut [u8])
        ensures
            r@ == old(self)@,
            final(self)@ == final(r)@,
            final(self).base_spec() == old(self).base_spec(),
    {
        self.bytes.as_mut_slice()
    }

    /// Releases the underlying byte buffer. The bytes are returned as they
    /// last stood; no re-poisoning takes place.
    #[inline]
    #[must_use]
    pub fn into_inner(self) -> (r: Vec<u8>)
        ensures
            r@ == self@,
    {
        self.bytes
    }

    /// Overwrites the bytes at `[start, end)` with `value`.
    pub(crate) fn fill_range(&mut self, start: usize, end: usize, value: u8)
        requires
            start <= end <= old(self)@.len(),
        ensures
            final(self).base_spec() == old(self).base_spec(),
            final(self)@.len() == old(self)@.len(),
            forall|j: int|
                0 <= j < old(self)@.len() ==> final(self)@[j] == if start <= j < end {
                    value
                } else {
                    old(self)@[j]
                },
    {
        let mut i: usize = start;
        while i < end
            invariant
                start <= i <= end <= self@.len(),
                self.base_spec() == old(self).base_spec(),
                self@.len() == old(self)@.len(),
                forall|j: int|
                    0 <= j < old(self)@.len() ==> self@[j] == if start <= j < i {
                        value
                    } else {
                        old(self)@[j]
                    },
            decreases end - i,
        {
            self.bytes[i] = value;
            i = i + 1;
        }
    }

    /// Copies `count` bytes from `[src, src + count)` to `[dst, dst + count)`.
    /// The two ranges must not overlap.
    pub(crate) fn copy_within(&mut self, src: usize, dst: usize, count: usize)
        requires
            src + count <= old(self)@.len(),
            dst + count <= old(self)@.len(),
            src + count <= dst || dst + count <= src,
        ensures
            final(self).base_spec() == old(self).base_spec(),
            final(self)@.len() == old(self)@.len(),
            forall|j: int|
                0 <= j < old(self)@.len() ==> final(self)@[j] == if dst <= j < dst + count {
                    old(self)@[j - dst + src]
                } else {
                    old(self)@[j]
                },
    {
        let n = self.bytes.len();
        let mut i: usize = 0;
        while i < count
            invariant
                i <= count,
                src + count <= n,
                dst + count <= n,
                n == self@.len(),
                src + count <= dst || dst + count <= src,
                self.base_spec() == old(self).base_spec(),
                self@.len() == old(self)@.len(),
                forall|j: int|
                    0 <= j < old(self)@.len() ==> self@[j] == if dst <= j < dst + i {
                        old(self)@[j - dst + src]
                    } else {
                        old(self)@[j]
                    },
            decreases count - i,
        {
            let b = self.bytes[src + i];
            self.bytes[dst + i] = b;
            i = i + 1;
        }
    }
}

} // verus!
