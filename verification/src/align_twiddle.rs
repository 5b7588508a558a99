//! Pure address arithmetic for alignment: the next address at or after a base
//! that satisfies an alignment requirement.

use vstd::prelude::*;

verus! {

/// The smallest multiple of `align` that is at least `base`.
pub open spec fn spec_next_multiple_of(base: int, align: int) -> int
    recommends
        align > 0,
{
    ((base + align - 1) / align) * align
}

/// The rounded value is a multiple of `align`, is at least `base`, and
/// overshoots `base` by less than `align`.
pub proof fn lemma_next_multiple_of(base: int, align: int)
    requires
        align > 0,
        base >= 0,
    ensures
        spec_next_multiple_of(base, align) % align == 0,
        spec_next_multiple_of(base, align) >= base,
        spec_next_multiple_of(base, align) < base + align,
{
    let q = (base + align - 1) / align;
    assert(q * align % align == 0) by (nonlinear_arith)
        requires
            align > 0,
    ;
    assert(base + align - 1 >= 0);
    assert(q * align >= base && q * align < base + align) by (nonlinear_arith)
        requires
            align > 0,
            base >= 0,
            q == (base + align - 1) / align,
    ;
}

/// No multiple of `align` lies in the gap: every aligned value at or after
/// `base` is at or after the rounded value. Together with
/// [`lemma_next_multiple_of`] this pins the rounding down as the smallest
/// aligned address at or after `base`.
pub proof fn lemma_next_multiple_of_minimal(base: int, align: int, other: int)
    requires
        align > 0,
        base >= 0,
        other >= base,
        other % align == 0,
    ensures
        spec_next_multiple_of(base, align) <= other,
{
    let q = (base + align - 1) / align;
    let k = other / align;
    assert(other == k * align) by (nonlinear_arith)
        requires
            align > 0,
            other % align == 0,
            k == other / align,
    ;
    assert(q * align <= k * align) by (nonlinear_arith)
        requires
            align > 0,
            base >= 0,
            other >= base,
            other == k * align,
            q == (base + align - 1) / align,
    ;
}

/// Calculates which address at or after `base` is valid for a type of
/// alignment `align` to exist.
///
/// The result never overflows: the precondition demands that the whole
/// rounding step fits in `usize`, so overflow is ruled out statically rather
/// than left unspecified.
#[inline]
#[must_use]
pub fn next_aligned_addr(base: usize, align: usize) -> (r: usize)
    requires
        align > 0,
        base + align - 1 <= usize::MAX,
    ensures
        r == spec_next_multiple_of(base as int, align as int),
        r % align == 0,
        r >= base,
        r < base + align,
{
    proof {
        lemma_next_multiple_of(base as int, align as int);
    }
    let rem = base % align;
    if rem == 0 {
        assert(base == spec_next_multiple_of(base as int, align as int)) by (nonlinear_arith)
            requires
                align > 0,
                base >= 0,
                (base as int) % (align as int) == 0,
        ;
        base
    } else {
        let r = base + (align - rem);
        assert(r == spec_next_multiple_of(base as int, align as int)) by (nonlinear_arith)
            requires
                align > 0,
                base >= 0,
                (base as int) % (align as int) == rem,
                rem != 0,
                r == base + align - rem,
        ;
        r
    }
}

} // verus!
