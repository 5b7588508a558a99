//! A growable vector usable on top of the address-opaque bump allocator,
//! with doubling growth and strict last-in, first-out element access.
//!
//! Storage is reserved through the allocator, whose cursor and bytes move
//! exactly as blocks are carved, grown and released; the element values
//! themselves are carried in a companion vector, since the logical contents
//! of a reserved block are not observable through address-opaque bytes.

use crate::const_allocator_shared::Layout;
use crate::stack_allocator::spec_dealloc_pos;
use crate::unaligned_const_allocator::UnalignedConstStackAllocator;
use core::marker::PhantomData;
use vstd::layout::align_of;
use vstd::layout::size_of;
use vstd::layout::valid_layout;
use vstd::prelude::*;

verus! {

/// The doubling rule: a full vector's capacity grows from 0 to 1, and
/// doubles afterwards.
pub open spec fn spec_grown_cap(cap: int) -> int {
    if cap == 0 {
        1
    } else {
        2 * cap
    }
}

/// The reserved block of a growable vector: the address of its first byte
/// and its capacity in elements.
pub struct ConstRawVec<T> {
    ptr: usize,
    cap: usize,
    _alloc_in: PhantomData<UnalignedConstStackAllocator>,
    _marker: PhantomData<T>,
}

impl<T> ConstRawVec<T> {
    /// The block's address, for contracts.
    pub closed spec fn ptr_spec(self) -> usize {
        self.ptr
    }

    /// The capacity in elements, for contracts.
    pub closed spec fn cap_spec(self) -> usize {
        self.cap
    }

    /// The reserved block lies inside the allocated prefix of `a`'s region.
    /// An empty block reserves nothing and lies nowhere.
    pub open spec fn valid_in(self, a: UnalignedConstStackAllocator) -> bool {
        self.cap_spec() > 0 ==> a.base_spec() <= self.ptr_spec() && self.ptr_spec() - a.base_spec()
            + self.cap_spec() * size_of::<T>() <= a.pos_spec()
    }

    /// The capacity in elements.
    #[inline]
    pub(crate) fn cap(&self) -> (r: usize)
        ensures
            r == self.cap_spec(),
    {
        self.cap
    }

    /// An empty reservation: no block is carved until the first growth.
    /// Zero-sized element types are not supported.
    #[inline]
    pub fn new_const_in(_alloc: &mut UnalignedConstStackAllocator) -> (r: Self)
        requires
            size_of::<T>() > 0,
        ensures
            *final(_alloc) == *old(_alloc),
            r.cap_spec() == 0,
    {
        ConstRawVec { ptr: 0, cap: 0, _alloc_in: PhantomData, _marker: PhantomData }
    }

    /// Reserves a block for `cap` elements from `allocator`. The request
    /// must form a valid layout and fit in the allocator's remaining space.
    #[inline]
    pub fn with_capacity_const_in(cap: usize, allocator: &mut UnalignedConstStackAllocator) -> (r:
        Self)
        requires
            size_of::<T>() > 0,
            old(allocator).wf(),
            cap * size_of::<T>() <= usize::MAX,
            valid_layout((cap * size_of::<T>()) as usize, align_of::<T>() as usize),
            old(allocator).pos_spec() + cap * size_of::<T>() <= old(allocator).cap_spec(),
        ensures
            final(allocator).wf(),
            final(allocator).base_spec() == old(allocator).base_spec(),
            final(allocator)@ == old(allocator)@,
            final(allocator).pos_spec() == old(allocator).pos_spec() + cap * size_of::<T>(),
            r.cap_spec() == cap,
            r.ptr_spec() == old(allocator).base_spec() + old(allocator).pos_spec(),
            r.valid_in(*final(allocator)),
    {
        vstd::layout::layout_for_type_is_valid::<T>();
        let layout = match Layout::array::<T>(cap) {
            Some(l) => l,
            None => unreached(),
        };

        let ptr = allocator.alloc_const_unaligned(layout);

        ConstRawVec { ptr, cap, _alloc_in: PhantomData, _marker: PhantomData }
    }

    /// Doubles the reserved block (or carves the first one-element block),
    /// growing in place where the block is topmost and the space suffices,
    /// and falling back to carving a new block and copying otherwise.
    #[inline]
    pub fn grow_const(&mut self, allocator: &mut UnalignedConstStackAllocator)
        requires
            size_of::<T>() > 0,
            old(allocator).wf(),
            old(self).valid_in(*old(allocator)),
            spec_grown_cap(old(self).cap_spec() as int) * size_of::<T>() <= usize::MAX,
            valid_layout(
                (spec_grown_cap(old(self).cap_spec() as int) * size_of::<T>()) as usize,
                align_of::<T>() as usize,
            ),
            old(allocator).pos_spec() + spec_grown_cap(old(self).cap_spec() as int) * size_of::<
                T,
            >() <= old(allocator).cap_spec(),
        ensures
            final(allocator).wf(),
            final(allocator).base_spec() == old(allocator).base_spec(),
            final(allocator)@.len() == old(allocator)@.len(),
            final(self).cap_spec() == spec_grown_cap(old(self).cap_spec() as int),
            final(self).valid_in(*final(allocator)),
            final(allocator).pos_spec() <= old(allocator).pos_spec() + spec_grown_cap(
                old(self).cap_spec() as int,
            ) * size_of::<T>(),
            old(allocator).pos_spec() <= final(allocator).pos_spec(),
            old(self).cap_spec() > 0 ==> ({
                let base = old(allocator).base_spec() as int;
                let src = old(self).ptr_spec() - base;
                let dst = final(self).ptr_spec() - base;
                forall|j: int| #![trigger final(allocator)@[dst + j]]
                    0 <= j < old(self).cap_spec() * size_of::<T>()
                        ==> final(allocator)@[dst + j] == old(allocator)@[src + j]
            }),
    {
        vstd::layout::layout_for_type_is_valid::<T>();
        proof {
            let c = old(self).cap_spec() as int;
            let sz = size_of::<T>() as int;
            assert(spec_grown_cap(c) <= spec_grown_cap(c) * sz) by (nonlinear_arith)
                requires
                    sz >= 1,
                    c >= 0,
            ;
        }
        let next_cap = if self.cap == 0 {
            1
        } else {
            self.cap * 2
        };
        proof {
            assert(next_cap as int == spec_grown_cap(old(self).cap_spec() as int));
            assert(next_cap * size_of::<T>() <= usize::MAX);
            assert(valid_layout(
                (next_cap * size_of::<T>()) as usize,
                align_of::<T>() as usize,
            ));
        }
        let new_layout = match Layout::array::<T>(next_cap) {
            Some(l) => l,
            None => unreached(),
        };

        let new_ptr = if self.cap == 0 {
            allocator.alloc_const_unaligned(new_layout)
        } else {
            proof {
                let c = old(self).cap_spec() as int;
                let sz = size_of::<T>() as int;
                assert(c * sz < (2 * c) * sz) by (nonlinear_arith)
                    requires
                        sz > 0,
                        c > 0,
                ;
            }
            let old_layout = match Layout::array::<T>(self.cap) {
                Some(l) => l,
                None => unreached(),
            };
            allocator.realloc_const_unaligned(self.ptr, old_layout, new_layout)
        };

        self.ptr = new_ptr;
        self.cap = next_cap;
    }

    /// Releases the reserved block back to the allocator: its bytes are
    /// poisoned, and the space is reclaimed exactly when the block is
    /// topmost. An empty reservation releases nothing.
    #[inline]
    pub fn drop(self, alloc: &mut UnalignedConstStackAllocator)
        requires
            size_of::<T>() > 0,
            old(alloc).wf(),
            self.valid_in(*old(alloc)),
            self.cap_spec() * size_of::<T>() <= usize::MAX,
            valid_layout((self.cap_spec() * size_of::<T>()) as usize, align_of::<T>() as usize),
        ensures
            final(alloc).wf(),
            final(alloc).base_spec() == old(alloc).base_spec(),
            final(alloc)@.len() == old(alloc)@.len(),
            self.cap_spec() == 0 ==> *final(alloc) == *old(alloc),
            self.cap_spec() > 0 ==> final(alloc).pos_spec() == spec_dealloc_pos(
                old(alloc).pos_spec() as int,
                self.ptr_spec() - old(alloc).base_spec(),
                (self.cap_spec() * size_of::<T>()) as int,
            ),
    {
        vstd::layout::layout_for_type_is_valid::<T>();
        if self.cap == 0 {
            return ;
        }
        let layout = match Layout::array::<T>(self.cap) {
            Some(l) => l,
            None => unreached(),
        };

        alloc.dealloc_const_unaligned(self.ptr, layout);
    }
}

/// A growable, append-only vector: push and pop at the back only, with
/// doubling growth through an address-opaque bump allocator.
pub struct ConstVec<T> {
    buf: ConstRawVec<T>,
    len: usize,
    elems: Vec<T>,
    _alloc_in: PhantomData<UnalignedConstStackAllocator>,
}

impl<T> View for ConstVec<T> {
    type V = Seq<T>;

    closed spec fn view(&self) -> Seq<T> {
        self.elems@
    }
}

impl<T> ConstVec<T> {
    /// The length, for contracts.
    pub closed spec fn len_spec(self) -> usize {
        self.len
    }

    /// The capacity of the reserved block, for contracts.
    pub closed spec fn cap_spec(self) -> usize {
        self.buf.cap_spec()
    }

    /// The reserved block's address, for contracts.
    pub closed spec fn ptr_spec(self) -> usize {
        self.buf.ptr_spec()
    }

    /// The elements exactly fill the tracked length, which never exceeds the
    /// reserved capacity.
    pub open spec fn wf(self) -> bool {
        self@.len() == self.len_spec() && self.len_spec() <= self.cap_spec()
    }

    /// The reserved block lies inside the allocated prefix of `a`'s region.
    pub open spec fn valid_in(self, a: UnalignedConstStackAllocator) -> bool {
        self.cap_spec() > 0 ==> a.base_spec() <= self.ptr_spec() && self.ptr_spec() - a.base_spec()
            + self.cap_spec() * size_of::<T>() <= a.pos_spec()
    }

    /// An empty vector with no reservation.
    #[inline]
    pub fn new_const(alloc: &mut UnalignedConstStackAllocator) -> (r: Self)
        requires
            size_of::<T>() > 0,
        ensures
            *final(alloc) == *old(alloc),
            r.wf(),
            r@ == Seq::<T>::empty(),
            r.len_spec() == 0,
            r.cap_spec() == 0,
            r.valid_in(*final(alloc)),
    {
        ConstVec {
            buf: ConstRawVec::new_const_in(alloc),
            len: 0,
            elems: Vec::new(),
            _alloc_in: PhantomData,
        }
    }

    /// An empty vector whose block for `cap` elements is reserved up front.
    #[inline]
    pub fn with_capacity_const_in(cap: usize, alloc: &mut UnalignedConstStackAllocator) -> (r:
        Self)
        requires
            size_of::<T>() > 0,
            old(alloc).wf(),
            cap * size_of::<T>() <= usize::MAX,
            valid_layout((cap * size_of::<T>()) as usize, align_of::<T>() as usize),
            old(alloc).pos_spec() + cap * size_of::<T>() <= old(alloc).cap_spec(),
        ensures
            final(alloc).wf(),
            final(alloc).base_spec() == old(alloc).base_spec(),
            final(alloc)@ == old(alloc)@,
            final(alloc).pos_spec() == old(alloc).pos_spec() + cap * size_of::<T>(),
            r.wf(),
            r@ == Seq::<T>::empty(),
            r.len_spec() == 0,
            r.cap_spec() == cap,
            r.valid_in(*final(alloc)),
    {
        ConstVec {
            buf: ConstRawVec::with_capacity_const_in(cap, alloc),
            len: 0,
            elems: Vec::new(),
            _alloc_in: PhantomData,
        }
    }

    /// Grows the reservation by the doubling rule.
    #[inline]
    fn grow_const(&mut self, allocator: &mut UnalignedConstStackAllocator)
        requires
            size_of::<T>() > 0,
            old(allocator).wf(),
            old(self).valid_in(*old(allocator)),
            spec_grown_cap(old(self).cap_spec() as int) * size_of::<T>() <= usize::MAX,
            valid_layout(
                (spec_grown_cap(old(self).cap_spec() as int) * size_of::<T>()) as usize,
                align_of::<T>() as usize,
            ),
            old(allocator).pos_spec() + spec_grown_cap(old(self).cap_spec() as int) * size_of::<
                T,
            >() <= old(allocator).cap_spec(),
        ensures
            final(allocator).wf(),
            final(allocator).base_spec() == old(allocator).base_spec(),
            final(allocator)@.len() == old(allocator)@.len(),
            final(self)@ == old(self)@,
            final(self).len_spec() == old(self).len_spec(),
            final(self).cap_spec() == spec_grown_cap(old(self).cap_spec() as int),
            final(self).valid_in(*final(allocator)),
            old(allocator).pos_spec() <= final(allocator).pos_spec(),
            final(allocator).pos_spec() <= old(allocator).pos_spec() + spec_grown_cap(
                old(self).cap_spec() as int,
            ) * size_of::<T>(),
    {
        self.buf.grow_const(allocator);
    }

    /// Whether the next push must grow the reservation first.
    #[inline]
    fn needs_grow(&self) -> (r: bool)
        ensures
            r == (self.len_spec() >= self.cap_spec()),
    {
        self.len >= self.buf.cap()
    }

    /// The number of elements held.
    #[inline]
    #[must_use]
    pub fn len(&self) -> (r: usize)
        ensures
            r == self.len_spec(),
    {
        self.len
    }

    /// Whether no element is held.
    #[inline]
    #[must_use]
    pub fn is_empty(&self) -> (r: bool)
        ensures
            r == (self.len_spec() == 0),
    {
        self.len == 0
    }

    /// Appends `value`, growing the reservation by the doubling rule where
    /// it is full.
    #[inline]
    pub fn push_const(&mut self, allocator: &mut UnalignedConstStackAllocator, value: T)
        requires
            size_of::<T>() > 0,
            old(allocator).wf(),
            old(self).wf(),
            old(self).valid_in(*old(allocator)),
            old(self).len_spec() == old(self).cap_spec() ==> spec_grown_cap(
                old(self).cap_spec() as int,
            ) * size_of::<T>() <= usize::MAX && valid_layout(
                (spec_grown_cap(old(self).cap_spec() as int) * size_of::<T>()) as usize,
                align_of::<T>() as usize,
            ) && old(allocator).pos_spec() + spec_grown_cap(old(self).cap_spec() as int)
                * size_of::<T>() <= old(allocator).cap_spec(),
        ensures
            final(allocator).wf(),
            final(allocator).base_spec() == old(allocator).base_spec(),
            final(allocator)@.len() == old(allocator)@.len(),
            final(self).wf(),
            final(self).valid_in(*final(allocator)),
            final(self)@ == old(self)@.push(value),
            final(self).len_spec() == old(self).len_spec() + 1,
            final(self).cap_spec() == if old(self).len_spec() < old(self).cap_spec() {
                old(self).cap_spec() as int
            } else {
                spec_grown_cap(old(self).cap_spec() as int)
            },
            old(self).len_spec() < old(self).cap_spec() ==> *final(allocator) == *old(allocator)
                && final(self).ptr_spec() == old(self).ptr_spec(),
            old(allocator).pos_spec() <= final(allocator).pos_spec(),
            final(allocator).pos_spec() <= old(allocator).pos_spec() + if old(self).len_spec()
                < old(self).cap_spec() {
                0int
            } else {
                spec_grown_cap(old(self).cap_spec() as int) * size_of::<T>()
            },
    {
        if self.needs_grow() {
            self.grow_const(allocator);
        }

        self.elems.push(value);
        self.len = self.len + 1;
    }

    /// Removes and returns the most recently pushed element, or nothing
    /// where the vector is empty.
    #[inline]
    pub fn pop_const(&mut self) -> (r: Option<T>)
        requires
            old(self).wf(),
        ensures
            final(self).wf(),
            final(self).cap_spec() == old(self).cap_spec(),
            final(self).ptr_spec() == old(self).ptr_spec(),
            old(self).len_spec() == 0 ==> r is None && final(self)@ == old(self)@
                && final(self).len_spec() == 0,
            old(self).len_spec() > 0 ==> r == Some(old(self)@.last())
                && final(self)@ == old(self)@.drop_last()
                && final(self).len_spec() == old(self).len_spec() - 1,
    {
        if self.len == 0 {
            return None;
        }
        self.len = self.len - 1;

        let value = match self.elems.pop() {
            Some(v) => v,
            None => unreached(),
        };
        Some(value)
    }

    /// Releases the reservation back to the allocator. The elements are not
    /// destroyed in place; whatever was not popped is simply dropped with
    /// the vector.
    #[inline]
    pub fn drop(self, alloc: &mut UnalignedConstStackAllocator)
        requires
            size_of::<T>() > 0,
            old(alloc).wf(),
            self.valid_in(*old(alloc)),
            self.cap_spec() * size_of::<T>() <= usize::MAX,
            valid_layout((self.cap_spec() * size_of::<T>()) as usize, align_of::<T>() as usize),
        ensures
            final(alloc).wf(),
            final(alloc).base_spec() == old(alloc).base_spec(),
            final(alloc)@.len() == old(alloc)@.len(),
            self.cap_spec() == 0 ==> *final(alloc) == *old(alloc),
            self.cap_spec() > 0 ==> final(alloc).pos_spec() == spec_dealloc_pos(
                old(alloc).pos_spec() as int,
                self.ptr_spec() - old(alloc).base_spec(),
                (self.cap_spec() * size_of::<T>()) as int,
            ),
    {
        self.buf.drop(alloc);
    }

    /// Escapes the vector into permanently owned storage: every element is
    /// popped in reverse order into a buffer sized exactly to the length,
    /// preserving the original order. An empty vector yields an empty
    /// buffer.
    pub fn into_const_allocated(self) -> (r: Vec<T>)
        requires
            self.wf(),
        ensures
            r@ == self@,
    {
        let ghost orig: Seq<T> = self@;
        let mut v = self;
        let mut reversed: Vec<T> = Vec::new();
        while v.len() > 0
            invariant
                v.wf(),
                v@ == orig.subrange(0, v.len_spec() as int),
                reversed@.len() == orig.len() - v.len_spec(),
                forall|i: int|
                    0 <= i < reversed@.len() ==> reversed@[i] == orig[orig.len() - 1 - i],
            decreases v.len_spec(),
        {
            let value = match v.pop_const() {
                Some(x) => x,
                None => unreached(),
            };
            reversed.push(value);
        }
        let mut out: Vec<T> = Vec::new();
        while reversed.len() > 0
            invariant
                reversed@.len() + out@.len() == orig.len(),
                forall|i: int|
                    0 <= i < reversed@.len() ==> reversed@[i] == orig[orig.len() - 1 - i],
                forall|i: int| 0 <= i < out@.len() ==> out@[i] == orig[i],
            decreases reversed@.len(),
        {
            let value = match reversed.pop() {
                Some(x) => x,
                None => unreached(),
            };
            out.push(value);
        }
        proof {
            assert(out@ =~= orig);
        }
        out
    }
}

/// A worked scenario over a fresh allocator: four pushes into a growing
/// vector (capacity doubling from nothing), a second vector reserved up
/// front beside it, then four pops that return the values in reverse push
/// order, and one more pop that returns nothing.
pub fn test() {
    vstd::layout::layout_for_type_is_valid::<u32>();
    vstd::layout::layout_for_type_is_valid::<u64>();
    proof {
        lemma_array_layout_valid::<u32>(1);
        lemma_array_layout_valid::<u32>(2);
        lemma_array_layout_valid::<u32>(4);
        lemma_array_layout_valid::<u64>(4);
    }
    let memory: Vec<u8> = vec![0u8; 1024];
    let mut allocator = UnalignedConstStackAllocator::from_unique_slice(memory, 0);

    let mut constvec: ConstVec<u32> = ConstVec::new_const(&mut allocator);

    constvec.push_const(&mut allocator, 1);
    constvec.push_const(&mut allocator, 2);
    constvec.push_const(&mut allocator, 3);
    constvec.push_const(&mut allocator, 4);

    let mut another_const_vec: ConstVec<u64> = ConstVec::with_capacity_const_in(4, &mut allocator);
    another_const_vec.push_const(&mut allocator, 1);
    another_const_vec.push_const(&mut allocator, 2);

    assert(constvec.len_spec() == 4);
    let value = constvec.pop_const();
    assert(value == Some(4u32));
    assert(constvec.len_spec() == 3);
    let value = constvec.pop_const();
    assert(value == Some(3u32));
    assert(constvec.len_spec() == 2);
    let value = constvec.pop_const();
    assert(value == Some(2u32));
    assert(constvec.len_spec() == 1);
    let value = constvec.pop_const();
    assert(value == Some(1u32));
    assert(constvec.len_spec() == 0);
    let value = constvec.pop_const();
    assert(value is None);

    constvec.drop(&mut allocator);
}

/// An array layout of a bounded element count is valid whenever the
/// element's own layout is: the alignment divides the element size, so the
/// rounding slack is below one element, and the total stays within the
/// bound.
pub proof fn lemma_array_layout_valid<T>(m: int)
    requires
        vstd::layout::valid_layout(
            size_of::<T>() as usize,
            vstd::layout::align_of::<T>() as usize,
        ),
        size_of::<T>() as usize as nat == size_of::<T>(),
        vstd::layout::align_of::<T>() as usize as nat == vstd::layout::align_of::<T>(),
        vstd::layout::align_of::<T>() != 0,
        size_of::<T>() % vstd::layout::align_of::<T>() == 0,
        size_of::<T>() > 0,
        m >= 0,
        m * size_of::<T>() + size_of::<T>() <= isize::MAX,
    ensures
        valid_layout((m * size_of::<T>()) as usize, vstd::layout::align_of::<T>() as usize),
        m * size_of::<T>() <= usize::MAX,
{
    let sz = size_of::<T>() as int;
    let al = vstd::layout::align_of::<T>() as int;
    assert(al <= sz) by (nonlinear_arith)
        requires
            sz % al == 0,
            al >= 1,
            sz >= 1,
    ;
    assert(isize::MAX as int % al < al && isize::MAX as int % al >= 0) by (nonlinear_arith)
        requires
            al >= 1,
    ;
    assert(m * sz >= 0) by (nonlinear_arith)
        requires
            m >= 0,
            sz >= 0,
    ;
    assert(m * sz <= isize::MAX as int - (isize::MAX as int % al));
}

/// Strict LIFO element access: pushing a value and popping immediately
/// yields that value back and restores the contents, for every starting
/// state; and the k-th of a run of pops yields the k-th element from the
/// end, so a full drain returns the elements in reverse push order.
pub proof fn lemma_push_pop_lifo<T>(s: Seq<T>, v: T)
    ensures
        s.push(v).drop_last() == s,
        s.push(v).last() == v,
        forall|k: int| #![trigger s.subrange(0, s.len() - k)] 0 <= k < s.len() ==> s.subrange(
            0,
            s.len() - k,
        ).last() == s[s.len() - 1 - k],
{
    assert(s.push(v).drop_last() =~= s);
    assert forall|k: int| #![trigger s.subrange(0, s.len() - k)] 0 <= k < s.len() implies s.subrange(
        0,
        s.len() - k,
    ).last() == s[s.len() - 1 - k] by {
        assert(s.subrange(0, s.len() - k).len() == s.len() - k);
    }
}

/// The doubling rule only ever produces powers of two: starting from the
/// empty reservation, every capacity a vector passes through is either zero
/// or a power of two.
pub proof fn lemma_capacity_doubling(cap: int)
    requires
        cap == 0 || vstd::arithmetic::power2::is_pow2(cap),
    ensures
        vstd::arithmetic::power2::is_pow2(spec_grown_cap(cap)),
{
    reveal(vstd::arithmetic::power2::is_pow2);
    if cap > 0 {
        assert((2 * cap) % 2 == 0 && (2 * cap) / 2 == cap);
    }
}

} // verus!
