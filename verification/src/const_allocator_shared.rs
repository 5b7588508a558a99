//! Items shared by the allocator family: the allocation error type, block
//! layouts (size and alignment), and alignment queries on addresses.

use vstd::arithmetic::power2::is_pow2;
use vstd::prelude::*;

pub use crate::align_twiddle::next_aligned_addr;
pub use crate::align_twiddle::spec_next_multiple_of;

verus! {

/// The sole error of the fallible bump-allocator operations: the requested
/// block does not fit in the remaining capacity of the backing region.
#[derive(Debug, Clone, Copy, PartialEq, Eq, Structural)]
pub struct AllocError;

/// A requested block shape: a size in bytes and a required alignment.
///
/// A layout is only handed out by [`Layout::from_size_align`] or
/// [`Layout::array`], so a well-formed one always satisfies
/// [`vstd::layout::valid_layout`]: the alignment is a power of two and the
/// size, rounded up to it, stays within `isize::MAX`.
#[derive(Debug, Clone, Copy, PartialEq, Eq, Structural)]
pub struct Layout {
    size: usize,
    align: usize,
}

/// Decides whether `x` is a power of two.
pub fn usize_is_power_of_two(x: usize) -> (b: bool)
    ensures
        b == is_pow2(x as int),
{
    if x == 0 {
        proof {
            reveal(is_pow2);
        }
        return false;
    }
    let mut v: usize = x;
    while v % 2 == 0
        invariant
            v >= 1,
            is_pow2(x as int) == is_pow2(v as int),
        decreases v,
    {
        proof {
            reveal(is_pow2);
        }
        v = v / 2;
    }
    proof {
        reveal(is_pow2);
    }
    v == 1
}

impl Layout {
    /// The requested size in bytes.
    pub fn size(&self) -> (r: usize)
        ensures
            r == self.size_spec(),
    {
        self.size
    }

    /// The required alignment in bytes.
    pub fn align(&self) -> (r: usize)
        ensures
            r == self.align_spec(),
    {
        self.align
    }

    /// The size field, for contracts.
    pub closed spec fn size_spec(self) -> usize {
        self.size
    }

    /// The alignment field, for contracts.
    pub closed spec fn align_spec(self) -> usize {
        self.align
    }

    /// A layout handed out by a constructor: alignment is a power of two and
    /// the size rounded up to it does not overflow `isize`.
    pub open spec fn wf(self) -> bool {
        vstd::layout::valid_layout(self.size_spec(), self.align_spec())
    }

    /// Builds the layout for `size` bytes at alignment `align`, or `None`
    /// where the pair is not a valid layout.
    pub fn from_size_align(size: usize, align: usize) -> (r: Option<Layout>)
        ensures
            match r {
                Some(l) => l.size_spec() == size && l.align_spec() == align && l.wf(),
                None => !vstd::layout::valid_layout(size, align),
            },
    {
        if !usize_is_power_of_two(align) {
            return None;
        }
        proof {
            reveal(is_pow2);
            assert(align > 0);
        }
        let imax: usize = isize::MAX as usize;
        proof {
            assert(imax % align <= imax) by (nonlinear_arith)
                requires
                    align > 0,
                    imax >= 0,
            ;
        }
        if size <= imax - (imax % align) {
            Some(Layout { size, align })
        } else {
            None
        }
    }

    /// The layout of an array of `n` elements of `T`, or `None` where the
    /// total size overflows.
    pub fn array<T>(n: usize) -> (r: Option<Layout>)
        ensures
            match r {
                Some(l) => l.size_spec() == n * vstd::layout::size_of::<T>()
                    && l.align_spec() == vstd::layout::align_of::<T>() && l.wf(),
                None => !vstd::layout::valid_layout(
                    (n * vstd::layout::size_of::<T>()) as usize,
                    vstd::layout::align_of::<T>() as usize,
                ) || n * vstd::layout::size_of::<T>() > usize::MAX,
            },
    {
        vstd::layout::layout_for_type_is_valid::<T>();
        let elem_size: usize = core::mem::size_of::<T>();
        let align: usize = core::mem::align_of::<T>();
        let total = n.checked_mul(elem_size);
        match total {
            Some(size) => Layout::from_size_align(size, align),
            None => None,
        }
    }
}

/// The largest power of two that divides `addr`: the strongest alignment an
/// object at that address is known to have. An address of zero carries no
/// alignment information (as in address-opaque evaluation contexts) and
/// conservatively yields the weakest alignment, 1.
#[must_use]
pub fn get_alignment_of_addr(addr: usize) -> (r: usize)
    ensures
        addr == 0 ==> r == 1,
        addr != 0 ==> is_pow2(r as int) && addr % r == 0 && (addr / r) % 2 == 1,
{
    if addr == 0 {
        return 1;
    }
    let mut p: usize = 1;
    let mut a: usize = addr;
    proof {
        reveal(is_pow2);
    }
    while a % 2 == 0
        invariant
            addr != 0,
            a * p == addr,
            a >= 1,
            p >= 1,
            is_pow2(p as int),
        decreases a,
    {
        proof {
            reveal(is_pow2);
            assert((a / 2) * (p * 2) == a * p) by (nonlinear_arith)
                requires
                    a % 2 == 0,
            ;
            assert(p * 2 <= a * p) by (nonlinear_arith)
                requires
                    a >= 2,
                    p >= 1,
            ;
        }
        a = a / 2;
        p = p * 2;
    }
    proof {
        assert(addr % p == 0 && addr / p == a) by (nonlinear_arith)
            requires
                a * p == addr,
                p >= 1,
        ;
    }
    p
}

} // verus!
