//! A general-purpose allocator over a fixed region: an explicit free list in
//! ascending address order, first-fit search with block splitting, and
//! address-order coalescing on free. Allocation and deallocation may come in
//! any order — this is not a stack allocator.
//!
//! Each block's size carries an allocated/free tag in its topmost bit, so
//! the largest representable block is half the address space. Freeing a
//! block that is not currently allocated (a double free, a foreign pointer)
//! is detected and reported as an error unconditionally — a deliberate
//! hardening over checking only in debug configurations.

use crate::backing_alloc::BackingAllocation;
use crate::const_allocator_shared::next_aligned_addr;
use crate::const_allocator_shared::Layout;
use crate::unaligned_generic_buffer::UnalignedGenericBuffer;
use vstd::arithmetic::power2::is_pow2;
use vstd::prelude::*;

verus! {

broadcast use vstd::layout::layout_of_primitives;

/// Every block is aligned to this many bytes.
pub const PORT_BYTE_ALIGNMENT: usize = 8;

/// The in-band bookkeeping footprint of one block: the header that precedes
/// every block's usable bytes, rounded up to the byte alignment.
pub const HEAP_STRUCT_SIZE: usize = 16;

/// A free block of less than this much slack beyond a request is handed out
/// whole rather than split.
pub const MINIMUM_BLOCK_SIZE: usize = 32;

/// The topmost bit of `usize`, as a value: sizes at or above it are not
/// representable, since that bit tags a block as allocated.
pub const ALLOCATED_TAG: usize = usize::MAX / 2 + 1;

/// A block size with the allocated flag folded into the topmost bit.
#[derive(Debug, Clone, Copy)]
struct TaggedUsize(usize);

impl TaggedUsize {
    /// The size with the tag stripped, for contracts.
    spec fn size_spec(self) -> usize {
        if self.0 >= ALLOCATED_TAG {
            (self.0 - ALLOCATED_TAG) as usize
        } else {
            self.0
        }
    }

    /// Whether the allocated tag is set, for contracts.
    spec fn is_allocated_spec(self) -> bool {
        self.0 >= ALLOCATED_TAG
    }

    #[inline]
    fn new(size: usize, allocated: bool) -> (r: Self)
        ensures
            r.size_spec() == if size >= ALLOCATED_TAG {
                (size - ALLOCATED_TAG) as usize
            } else {
                size
            },
            r.is_allocated_spec() == allocated,
    {
        proof {
            assert(usize::MAX == 2 * (usize::MAX / 2) + 1);
        }
        let low = if size >= ALLOCATED_TAG {
            size - ALLOCATED_TAG
        } else {
            size
        };
        if allocated {
            TaggedUsize(low + ALLOCATED_TAG)
        } else {
            TaggedUsize(low)
        }
    }

    #[inline]
    fn size(self) -> (r: usize)
        ensures
            r == self.size_spec(),
    {
        if self.0 >= ALLOCATED_TAG {
            self.0 - ALLOCATED_TAG
        } else {
            self.0
        }
    }

    #[inline]
    fn is_allocated(self) -> (r: bool)
        ensures
            r == self.is_allocated_spec(),
    {
        self.0 >= ALLOCATED_TAG
    }

    #[inline]
    fn set_allocated(&mut self)
        ensures
            final(self).size_spec() == old(self).size_spec(),
            final(self).is_allocated_spec(),
    {
        proof {
            assert(usize::MAX == 2 * (usize::MAX / 2) + 1);
        }
        if self.0 < ALLOCATED_TAG {
            self.0 = self.0 + ALLOCATED_TAG;
        }
    }

    #[inline]
    fn set_free(&mut self)
        ensures
            final(self).size_spec() == old(self).size_spec(),
            !final(self).is_allocated_spec(),
    {
        if self.0 >= ALLOCATED_TAG {
            self.0 = self.0 - ALLOCATED_TAG;
        }
    }

    #[inline]
    fn is_valid(self) -> (r: bool)
        ensures
            r == !self.is_allocated_spec(),
    {
        self.0 < ALLOCATED_TAG
    }
}

/// Whether `x`, taken as a block size, keeps the tag bit clear.
fn block_size_is_valid(x: usize) -> (r: bool)
    ensures
        r == (x < ALLOCATED_TAG),
{
    TaggedUsize(x).is_valid()
}

/// One block of the heap: its offset from the region base and its tagged
/// size. The size counts the whole block, header included.
#[derive(Debug, Clone, Copy)]
struct BlockEntry {
    offset: usize,
    size: TaggedUsize,
}

impl BlockEntry {
    /// The untagged size, for contracts.
    spec fn size_spec(self) -> usize {
        self.size.size_spec()
    }

    /// The block's end offset, for contracts.
    spec fn end_spec(self) -> int {
        self.offset + self.size_spec()
    }
}

/// Whether `block` is currently tagged allocated.
fn block_is_allocated(block: &BlockEntry) -> (r: bool)
    ensures
        r == block.size.is_allocated_spec(),
{
    block.size.is_allocated()
}

/// Tags `block` allocated; its size is unchanged.
fn allocate_block(block: &mut BlockEntry)
    ensures
        final(block).offset == old(block).offset,
        final(block).size_spec() == old(block).size_spec(),
        final(block).size.is_allocated_spec(),
{
    block.size.set_allocated();
}

/// Tags `block` free; its size is unchanged.
fn free_block(block: &mut BlockEntry)
    ensures
        final(block).offset == old(block).offset,
        final(block).size_spec() == old(block).size_spec(),
        !final(block).size.is_allocated_spec(),
{
    block.size.set_free();
}

/// The error of every failed free-list operation, carrying a descriptive
/// static message.
#[derive(Debug, Clone, Copy)]
pub struct ExperimentalAllocError(pub &'static str);

/// The total bytes held by the given blocks.
pub open spec fn sum_block_sizes(s: Seq<(usize, usize)>) -> int
    decreases s.len(),
{
    if s.len() == 0 {
        0
    } else {
        sum_block_sizes(s.drop_last()) + s.last().1
    }
}

/// The index of the first block in `s` of at least `total` bytes, or the
/// length of `s` where none is large enough: first-fit search order.
pub open spec fn spec_first_fit(s: Seq<(usize, usize)>, total: int) -> int
    decreases s.len(),
{
    if s.len() == 0 {
        0
    } else if s[0].1 >= total {
        0
    } else {
        1 + spec_first_fit(s.drop_first(), total)
    }
}

/// The index at which a block at offset `off` belongs in the
/// address-ordered free list `s`: the first index whose block starts at or
/// after `off`, or the length where every block starts before it.
pub open spec fn spec_insert_pos(s: Seq<(usize, usize)>, off: int) -> int
    decreases s.len(),
{
    if s.len() == 0 {
        0
    } else if s[0].0 >= off {
        0
    } else {
        1 + spec_insert_pos(s.drop_first(), off)
    }
}

/// The index of the block at exactly offset `off`, or the length where no
/// block starts there.
pub open spec fn spec_find_block(s: Seq<(usize, usize)>, off: int) -> int
    decreases s.len(),
{
    if s.len() == 0 {
        0
    } else if s[0].0 == off {
        0
    } else {
        1 + spec_find_block(s.drop_first(), off)
    }
}

/// What the insertion index is: every earlier block starts before `off`,
/// and the block at the index (where one exists) starts at or after it.
pub proof fn lemma_insert_pos(s: Seq<(usize, usize)>, off: int)
    ensures
        0 <= spec_insert_pos(s, off) <= s.len(),
        forall|j: int| 0 <= j < spec_insert_pos(s, off) ==> (#[trigger] s[j]).0 < off,
        spec_insert_pos(s, off) < s.len() ==> s[spec_insert_pos(s, off)].0 >= off,
    decreases s.len(),
{
    if s.len() > 0 && s[0].0 < off {
        lemma_insert_pos(s.drop_first(), off);
        assert forall|j: int| 0 <= j < spec_insert_pos(s, off) implies (#[trigger] s[j]).0
            < off by {
            if j > 0 {
                assert(s[j] == s.drop_first()[j - 1]);
            }
        }
    }
}

/// What the find index is: no earlier block starts at `off`, and the found
/// block (where one exists) starts exactly there.
pub proof fn lemma_find_block(s: Seq<(usize, usize)>, off: int)
    ensures
        0 <= spec_find_block(s, off) <= s.len(),
        forall|j: int| 0 <= j < spec_find_block(s, off) ==> (#[trigger] s[j]).0 != off,
        spec_find_block(s, off) < s.len() ==> s[spec_find_block(s, off)].0 == off,
    decreases s.len(),
{
    if s.len() > 0 && s[0].0 != off {
        lemma_find_block(s.drop_first(), off);
        assert forall|j: int| 0 <= j < spec_find_block(s, off) implies (#[trigger] s[j]).0
            != off by {
            if j > 0 {
                assert(s[j] == s.drop_first()[j - 1]);
            }
        }
    }
}

/// The total block size that a request of `size` bytes at alignment
/// `align` occupies: the size plus the header, rounded up to the larger of
/// `align` and the byte alignment.
pub open spec fn spec_total_size(size: int, align: int) -> int {
    crate::align_twiddle::spec_next_multiple_of(
        size + HEAP_STRUCT_SIZE,
        if align < PORT_BYTE_ALIGNMENT {
            PORT_BYTE_ALIGNMENT as int
        } else {
            align
        },
    )
}

/// Where the heap start lands: the region base rounded up to the block
/// alignment. The dummy list head occupies one header footprint here.
pub open spec fn spec_heap_start(base: int) -> int {
    crate::align_twiddle::spec_next_multiple_of(base, PORT_BYTE_ALIGNMENT as int)
}

/// Where the end sentinel lands: one header footprint below the region end,
/// rounded up to the block alignment.
pub open spec fn spec_end_marker(base: int, len: int) -> int {
    crate::align_twiddle::spec_next_multiple_of(
        if base + len >= HEAP_STRUCT_SIZE {
            base + len - HEAP_STRUCT_SIZE
        } else {
            0
        },
        PORT_BYTE_ALIGNMENT as int,
    )
}

/// Whether a region admits the initial heap layout: the base must leave
/// room to round up, the end sentinel must fit at or below the region end,
/// the first block position (one header past the heap start) must not pass
/// the sentinel, and the sentinel's offset must stay below the tag bit.
/// A region that fails this stays uninitialized, and every allocation on it
/// reports that the free list is not initialized.
pub open spec fn spec_heap_initializes(base: int, len: int) -> bool {
    &&& base <= usize::MAX - (PORT_BYTE_ALIGNMENT - 1)
    &&& base + len >= HEAP_STRUCT_SIZE
    &&& spec_end_marker(base, len) <= base + len - HEAP_STRUCT_SIZE
    &&& spec_heap_start(base) + HEAP_STRUCT_SIZE <= spec_end_marker(base, len)
    &&& spec_end_marker(base, len) - base < ALLOCATED_TAG
}

/// The free list that initialization lays out: one block spanning from just
/// past the heap start's header to the end sentinel, or nothing where that
/// span is empty.
pub open spec fn spec_initial_free_blocks(base: int, len: int) -> Seq<(usize, usize)> {
    let hs = spec_heap_start(base);
    let em = spec_end_marker(base, len);
    if em - hs - HEAP_STRUCT_SIZE > 0 {
        seq![(((hs - base + HEAP_STRUCT_SIZE) as usize, (em - hs - HEAP_STRUCT_SIZE) as usize))]
    } else {
        Seq::<(usize, usize)>::empty()
    }
}

/// A power of two no smaller than the block alignment is a multiple of it:
/// halving three times stays integral.
pub proof fn lemma_pow2_multiple_of_alignment(a: int)
    requires
        is_pow2(a),
        a >= PORT_BYTE_ALIGNMENT,
    ensures
        a % (PORT_BYTE_ALIGNMENT as int) == 0,
{
    reveal(is_pow2);
    let h1 = a / 2;
    let h2 = h1 / 2;
    let h3 = h2 / 2;
    assert(a % 2 == 0 && is_pow2(h1));
    assert(h1 % 2 == 0 && is_pow2(h2));
    assert(h2 % 2 == 0);
    assert(a == 8 * h3) by (nonlinear_arith)
        requires
            a % 2 == 0,
            h1 == a / 2,
            h1 % 2 == 0,
            h2 == h1 / 2,
            h2 % 2 == 0,
            h3 == h2 / 2,
    ;
    assert(a % 8 == 0) by (nonlinear_arith)
        requires
            a == 8 * h3,
    ;
}

/// A multiple of an alignment that is itself a multiple of the block
/// alignment is a multiple of the block alignment.
pub proof fn lemma_block_alignment_transitive(x: int, a: int)
    requires
        a > 0,
        x >= 0,
        x % a == 0,
        a % (PORT_BYTE_ALIGNMENT as int) == 0,
    ensures
        x % (PORT_BYTE_ALIGNMENT as int) == 0,
{
    let m = x / a;
    let k = a / (PORT_BYTE_ALIGNMENT as int);
    assert(x == m * a) by (nonlinear_arith)
        requires
            a > 0,
            x % a == 0,
            m == x / a,
    ;
    assert(a == 8 * k) by (nonlinear_arith)
        requires
            a % 8 == 0,
            k == a / 8,
    ;
    assert(x == 8 * (m * k)) by (nonlinear_arith)
        requires
            x == m * a,
            a == 8 * k,
    ;
    assert(x % 8 == 0) by (nonlinear_arith)
        requires
            x == 8 * (m * k),
    ;
}

/// Every total block size is a multiple of the block alignment: the
/// request is rounded up to an alignment that is the block alignment or a
/// larger power of two.
pub proof fn lemma_total_size_block_aligned(size: int, align: int)
    requires
        size >= 0,
        is_pow2(align),
    ensures
        spec_total_size(size, align) % (PORT_BYTE_ALIGNMENT as int) == 0,
        spec_total_size(size, align) >= size + HEAP_STRUCT_SIZE,
{
    let a = if align < PORT_BYTE_ALIGNMENT as int {
        PORT_BYTE_ALIGNMENT as int
    } else {
        align
    };
    if align >= PORT_BYTE_ALIGNMENT as int {
        lemma_pow2_multiple_of_alignment(a);
    }
    crate::align_twiddle::lemma_next_multiple_of(size + HEAP_STRUCT_SIZE, a);
    lemma_block_alignment_transitive(spec_total_size(size, align), a);
}

/// Removing a block takes exactly its size out of the total.
pub proof fn lemma_sum_remove(s: Seq<(usize, usize)>, i: int)
    requires
        0 <= i < s.len(),
    ensures
        sum_block_sizes(s.remove(i)) == sum_block_sizes(s) - s[i].1,
    decreases s.len(),
{
    if i == s.len() - 1 {
        assert(s.remove(i) =~= s.drop_last());
    } else {
        assert(s.remove(i).drop_last() =~= s.drop_last().remove(i));
        lemma_sum_remove(s.drop_last(), i);
        assert(s.remove(i).last() == s.last());
    }
}

/// Replacing a block swaps its size for the new one in the total.
pub proof fn lemma_sum_update(s: Seq<(usize, usize)>, i: int, v: (usize, usize))
    requires
        0 <= i < s.len(),
    ensures
        sum_block_sizes(s.update(i, v)) == sum_block_sizes(s) - s[i].1 + v.1,
    decreases s.len(),
{
    if i == s.len() - 1 {
        assert(s.update(i, v).drop_last() =~= s.drop_last());
        assert(s.update(i, v).last() == v);
    } else {
        assert(s.update(i, v).drop_last() =~= s.drop_last().update(i, v));
        lemma_sum_update(s.drop_last(), i, v);
        assert(s.update(i, v).last() == s.last());
    }
}

/// Inserting a block adds exactly its size to the total.
pub proof fn lemma_sum_insert(s: Seq<(usize, usize)>, i: int, v: (usize, usize))
    requires
        0 <= i <= s.len(),
    ensures
        sum_block_sizes(s.insert(i, v)) == sum_block_sizes(s) + v.1,
    decreases s.len(),
{
    if i == s.len() {
        assert(s.insert(i, v).drop_last() =~= s);
        assert(s.insert(i, v).last() == v);
    } else {
        assert(s.insert(i, v).drop_last() =~= s.drop_last().insert(i, v));
        lemma_sum_insert(s.drop_last(), i, v);
        assert(s.insert(i, v).last() == s.last());
    }
}

/// Appending a block adds exactly its size to the total.
pub proof fn lemma_sum_push(s: Seq<(usize, usize)>, v: (usize, usize))
    ensures
        sum_block_sizes(s.push(v)) == sum_block_sizes(s) + v.1,
{
    assert(s.push(v).drop_last() =~= s);
    assert(s.push(v).last() == v);
}

/// What the first-fit index is: every earlier block is too small, and the
/// found block (where one exists) is large enough.
pub proof fn lemma_first_fit(s: Seq<(usize, usize)>, total: int)
    ensures
        0 <= spec_first_fit(s, total) <= s.len(),
        forall|j: int| 0 <= j < spec_first_fit(s, total) ==> #[trigger] s[j].1 < total,
        spec_first_fit(s, total) < s.len() ==> s[spec_first_fit(s, total)].1 >= total,
    decreases s.len(),
{
    if s.len() > 0 && s[0].1 < total {
        lemma_first_fit(s.drop_first(), total);
        assert(forall|j: int|
            0 <= j < spec_first_fit(s.drop_first(), total) ==> #[trigger] s.drop_first()[j].1
                < total);
        assert forall|j: int| 0 <= j < spec_first_fit(s, total) implies #[trigger] s[j].1
            < total by {
            if j > 0 {
                assert(s[j] == s.drop_first()[j - 1]);
            }
        }
    }
}

/// A block disjoint from two byte-adjacent blocks is disjoint from their
/// union.
pub proof fn lemma_disjoint_union(a: (usize, usize), b: (usize, usize), c: (usize, usize), m: (
    usize,
    usize,
))
    requires
        a.1 >= 1,
        ExperimentalAllocator::blocks_disjoint(b, a),
        ExperimentalAllocator::blocks_disjoint(c, a),
        b.0 + b.1 == c.0,
        m.0 == b.0,
        m.0 + m.1 == c.0 + c.1,
    ensures
        ExperimentalAllocator::blocks_disjoint(m, a),
{
}

/// The free list is strictly ordered: each block ends strictly before the
/// next begins, so no two free blocks are adjacent or overlap.
pub open spec fn free_list_sorted(s: Seq<(usize, usize)>) -> bool {
    &&& forall|i: int, j: int| 0 <= i < j < s.len() ==> (#[trigger] s[i]).0 + s[i].1 < (#[trigger] s[j]).0
    &&& forall|i: int| 0 <= i < s.len() ==> (#[trigger] s[i]).1 >= 1
    &&& forall|i: int| 0 <= i < s.len() ==> (#[trigger] s[i]).0 + s[i].1 <= usize::MAX
}

/// Free-list round trip: allocating a block and freeing it again restores
/// the free list exactly. Where the taken block was split, the freed front
/// part coalesces with the remainder into the original block; where it was
/// taken whole, it is linked back into its original position. In both
/// cases the free capacity returns to what it was before the allocation.
pub proof fn lemma_alloc_free_round_trip(free0: Seq<(usize, usize)>, total: usize)
    requires
        free_list_sorted(free0),
        total >= 1,
        spec_first_fit(free0, total as int) < free0.len(),
    ensures
        ({
            let ff = spec_first_fit(free0, total as int);
            let off = free0[ff].0;
            let bsize = free0[ff].1;
            if bsize - total > MINIMUM_BLOCK_SIZE {
                let free1 = free0.update(ff, (((off + total) as usize, (bsize - total) as usize)));
                let k = spec_insert_pos(free1, off as int);
                &&& k == ff
                &&& !(k > 0 && free1[k - 1].0 + free1[k - 1].1 == off)
                &&& k < free1.len() && off + total == free1[k].0
                &&& free1.update(k, ((off, (total + free1[k].1) as usize))) == free0
                &&& sum_block_sizes(free1.update(k, ((off, (total + free1[k].1) as usize))))
                    == sum_block_sizes(free0)
            } else {
                let free1 = free0.remove(ff);
                let k = spec_insert_pos(free1, off as int);
                &&& k == ff
                &&& !(k > 0 && free1[k - 1].0 + free1[k - 1].1 == off)
                &&& !(k < free1.len() && off + bsize == free1[k].0)
                &&& free1.insert(k, ((off, bsize))) == free0
                &&& sum_block_sizes(free1.insert(k, ((off, bsize)))) == sum_block_sizes(free0)
            }
        }),
{
    lemma_first_fit(free0, total as int);
    let ff = spec_first_fit(free0, total as int);
    let off = free0[ff].0;
    let bsize = free0[ff].1;
    if bsize - total > MINIMUM_BLOCK_SIZE {
        let free1 = free0.update(ff, (((off + total) as usize, (bsize - total) as usize)));
        let k = spec_insert_pos(free1, off as int);
        lemma_insert_pos(free1, off as int);
        if k < ff {
            assert(free1[k] == free0[k]);
            assert(free0[k].0 + free0[k].1 < free0[ff].0);
            assert(free1[k].0 >= off);
            assert(false);
        }
        if k > ff {
            assert(free0[ff].0 + free0[ff].1 <= usize::MAX);
            assert(free1[ff] == (((off + total) as usize, (bsize - total) as usize)));
            assert(free1[ff].0 < off);
            assert(false);
        }
        if k > 0 {
            assert(free1[k - 1] == free0[k - 1]);
            assert(free0[k - 1].0 + free0[k - 1].1 < free0[ff].0);
        }
        assert(free0[ff].0 + free0[ff].1 <= usize::MAX);
        assert(free1.update(k, ((off, (total + free1[k].1) as usize))) =~= free0);
    } else {
        let free1 = free0.remove(ff);
        let k = spec_insert_pos(free1, off as int);
        lemma_insert_pos(free1, off as int);
        if k < ff {
            assert(free1[k] == free0[k]);
            assert(free0[k].0 + free0[k].1 < free0[ff].0);
            assert(free1[k].0 >= off);
            assert(false);
        }
        if k > ff {
            assert(k - 1 < free1.len());
            assert(free1[ff] == free0[ff + 1]);
            assert(free0[ff].0 + free0[ff].1 < free0[ff + 1].0);
            assert(free1[ff].0 < off);
            assert(false);
        }
        if k > 0 {
            assert(free1[k - 1] == free0[k - 1]);
            assert(free0[k - 1].0 + free0[k - 1].1 < free0[ff].0);
        }
        if k < free1.len() {
            assert(free1[k] == free0[ff + 1]);
            assert(free0[ff].0 + free0[ff].1 < free0[ff + 1].0);
        }
        assert(free1.insert(k, ((off, bsize))) =~= free0);
        lemma_sum_insert(free1, k, ((off, bsize)));
        lemma_sum_remove(free0, ff);
    }
}

/// Blocks that are sorted with strict gaps and confined to `[lo, hi]` hold
/// at most `hi - lo` bytes between them.
pub proof fn lemma_blocks_sum_bounded(s: Seq<(usize, usize)>, lo: int, hi: int)
    requires
        lo <= hi,
        forall|i: int, j: int| 0 <= i < j < s.len() ==> (#[trigger] s[i]).0 + s[i].1 < (#[trigger] s[j]).0,
        forall|i: int| 0 <= i < s.len() ==> lo <= (#[trigger] s[i]).0 && s[i].0 + s[i].1 <= hi,
    ensures
        sum_block_sizes(s) <= hi - lo,
    decreases s.len(),
{
    if s.len() > 0 {
        let last = s.last();
        assert forall|i: int|
            0 <= i < s.drop_last().len() implies lo <= (#[trigger] s.drop_last()[i]).0
            && s.drop_last()[i].0 + s.drop_last()[i].1 <= last.0 by {
            assert(s[i].0 + s[i].1 < s[s.len() - 1].0);
        }
        lemma_blocks_sum_bounded(s.drop_last(), lo, last.0 as int);
    }
}

/// Blocks that exactly fill `[lo, hi]` must be one single block: any second
/// block would cost at least one byte of gap. An empty span holds none.
pub proof fn lemma_blocks_sum_packed(s: Seq<(usize, usize)>, lo: int, hi: int)
    requires
        lo <= hi,
        forall|i: int, j: int| 0 <= i < j < s.len() ==> (#[trigger] s[i]).0 + s[i].1 < (#[trigger] s[j]).0,
        forall|i: int| 0 <= i < s.len() ==> lo <= (#[trigger] s[i]).0 && s[i].0 + s[i].1 <= hi,
        forall|i: int| 0 <= i < s.len() ==> (#[trigger] s[i]).1 >= 1,
        sum_block_sizes(s) == hi - lo,
    ensures
        hi == lo ==> s.len() == 0,
        hi > lo ==> s.len() == 1 && s[0] == ((lo as usize, (hi - lo) as usize)),
{
    if s.len() == 0 {
    } else if s.len() == 1 {
        assert(sum_block_sizes(s) == sum_block_sizes(s.drop_last()) + s.last().1);
        assert(s.drop_last() =~= Seq::<(usize, usize)>::empty());
    } else {
        let last = s.last();
        let prev = s[s.len() - 2];
        assert(prev.0 + prev.1 < last.0);
        assert forall|i: int|
            0 <= i < s.drop_last().len() implies lo <= (#[trigger] s.drop_last()[i]).0
            && s.drop_last()[i].0 + s.drop_last()[i].1 <= prev.0 + prev.1 by {
            if i < s.len() - 2 {
                assert(s[i].0 + s[i].1 < s[s.len() - 2].0);
            }
        }
        lemma_blocks_sum_bounded(s.drop_last(), lo, prev.0 + prev.1);
        assert(sum_block_sizes(s) == sum_block_sizes(s.drop_last()) + last.1);
        assert(false);
    }
}

/// A general-purpose free-list allocator over a fixed backing region.
pub struct ExperimentalAllocator {
    mem: UnalignedGenericBuffer<u8>,
    free_list: Vec<BlockEntry>,
    allocated: Vec<BlockEntry>,
    initialized: bool,
    heap_start: usize,
    end_marker: usize,
}

impl ExperimentalAllocator {
    /// The logical address of the region's first byte, for contracts.
    pub closed spec fn base_spec(self) -> usize {
        self.mem.base_spec()
    }

    /// The region's length in bytes, for contracts.
    pub closed spec fn len_spec(self) -> nat {
        self.mem@.len()
    }

    /// Whether the free list was successfully carved out of the region.
    pub closed spec fn initialized_spec(self) -> bool {
        self.initialized
    }

    /// The offset of the end sentinel: no block reaches past it.
    pub closed spec fn end_spec(self) -> usize {
        self.end_marker
    }

    /// The offset at which blocks may start.
    pub closed spec fn blocks_start_spec(self) -> int {
        self.heap_start + HEAP_STRUCT_SIZE
    }

    /// The free blocks, in ascending address order, as (offset, size) pairs.
    pub closed spec fn free_blocks(self) -> Seq<(usize, usize)> {
        self.free_list@.map(|i: int, b: BlockEntry| (b.offset, b.size_spec()))
    }

    /// The live allocations, as (offset, size) pairs, in the order they were
    /// handed out.
    pub closed spec fn allocated_blocks(self) -> Seq<(usize, usize)> {
        self.allocated@.map(|i: int, b: BlockEntry| (b.offset, b.size_spec()))
    }

    /// The total free capacity: the bytes held by the free list.
    pub open spec fn free_capacity(self) -> int {
        sum_block_sizes(self.free_blocks())
    }

    /// One block lies inside the heap span.
    pub open spec fn block_in_heap(self, b: (usize, usize)) -> bool {
        self.blocks_start_spec() <= b.0 && b.0 + b.1 <= self.end_spec()
    }

    /// Two blocks do not overlap.
    pub open spec fn blocks_disjoint(a: (usize, usize), b: (usize, usize)) -> bool {
        a.0 + a.1 <= b.0 || b.0 + b.1 <= a.0
    }

    /// The allocator's invariant. The free list is sorted by address with a
    /// strict gap between consecutive blocks (adjacent free blocks are
    /// always coalesced at rest); every block, free or allocated, lies in
    /// the heap span, starts at a block-aligned address, and overlaps no
    /// other; tags match the list a block is on; and the blocks together
    /// cover the heap span exactly — free and allocated bytes always add up
    /// to the span between the first block position and the end sentinel.
    pub closed spec fn wf(self) -> bool {
        &&& self.wf_lists()
        &&& self.initialized ==> sum_block_sizes(self.free_blocks()) + sum_block_sizes(
            self.allocated_blocks(),
        ) == self.end_spec() - self.blocks_start_spec()
    }

    /// The list-shape part of the invariant: everything except the coverage
    /// equation, which a block in flight between the two lists suspends.
    spec fn wf_lists(self) -> bool {
        &&& self.base_spec() + self.len_spec() <= usize::MAX
        &&& self.initialized ==> {
            &&& self.heap_start + HEAP_STRUCT_SIZE <= self.end_marker
            &&& self.end_marker + HEAP_STRUCT_SIZE <= self.len_spec()
            &&& self.end_marker < ALLOCATED_TAG
            &&& forall|i: int, j: int|
                0 <= i < j < self.free_list@.len() ==> #[trigger] self.free_list@[i].end_spec()
                    < #[trigger] self.free_list@[j].offset
            &&& forall|i: int|
                0 <= i < self.free_list@.len() ==> self.block_in_heap(
                    (
                    (#[trigger] self.free_list@[i]).offset,
                    self.free_list@[i].size_spec(),
                    ),
                ) && !self.free_list@[i].size.is_allocated_spec()
                    && self.free_list@[i].size_spec() >= 1
            &&& forall|i: int|
                0 <= i < self.allocated@.len() ==> self.block_in_heap(
                    (
                    (#[trigger] self.allocated@[i]).offset,
                    self.allocated@[i].size_spec(),
                    ),
                ) && self.allocated@[i].size.is_allocated_spec()
                    && self.allocated@[i].size_spec() >= 1
            &&& forall|i: int, j: int|
                0 <= i < self.free_list@.len() && 0 <= j < self.allocated@.len()
                    ==> Self::blocks_disjoint(
                    ((#[trigger] self.free_list@[i]).offset, self.free_list@[i].size_spec()),
                    ((#[trigger] self.allocated@[j]).offset, self.allocated@[j].size_spec()),
                )
            &&& forall|i: int, j: int|
                0 <= i < j < self.allocated@.len() ==> Self::blocks_disjoint(
                    ((#[trigger] self.allocated@[i]).offset, self.allocated@[i].size_spec()),
                    ((#[trigger] self.allocated@[j]).offset, self.allocated@[j].size_spec()),
                )
            &&& forall|i: int|
                0 <= i < self.free_list@.len() ==> (self.base_spec() + (
                #[trigger] self.free_list@[i]).offset) % (PORT_BYTE_ALIGNMENT as int) == 0
            &&& forall|i: int|
                0 <= i < self.allocated@.len() ==> (self.base_spec() + (
                #[trigger] self.allocated@[i]).offset) % (PORT_BYTE_ALIGNMENT as int) == 0
        }
        &&& !self.initialized ==> self.free_list@.len() == 0 && self.allocated@.len() == 0
    }

    /// Wraps a caller-owned byte region at logical address `base_addr` and
    /// carves the initial free list out of it; the region is poisoned first.
    #[inline]
    #[must_use]
    pub fn from_unique_slice(mem: Vec<u8>, base_addr: usize) -> (r: Self)
        requires
            base_addr + mem@.len() <= usize::MAX,
        ensures
            r.wf(),
            r.base_spec() == base_addr,
            r.len_spec() == mem@.len(),
            r.allocated_blocks().len() == 0,
            r.initialized_spec() == spec_heap_initializes(
                base_addr as int,
                mem@.len() as int,
            ),
            r.initialized_spec() ==> ({
                let b = base_addr as int;
                let n = mem@.len() as int;
                &&& r.end_spec() == spec_end_marker(b, n) - b
                &&& r.blocks_start_spec() == spec_heap_start(b) - b + HEAP_STRUCT_SIZE
                &&& r.free_blocks() == spec_initial_free_blocks(b, n)
                &&& r.free_capacity() == if spec_end_marker(b, n) - spec_heap_start(b)
                    - HEAP_STRUCT_SIZE > 0 {
                    spec_end_marker(b, n) - spec_heap_start(b) - HEAP_STRUCT_SIZE
                } else {
                    0
                }
            }),
            !r.initialized_spec() ==> r.free_blocks().len() == 0,
    {
        let ugb = UnalignedGenericBuffer::from_unique_slice(mem, base_addr);
        ExperimentalAllocator::from_raw_parts(ugb)
    }

    /// As [`Self::from_unique_slice`], for a region whose contents are not
    /// yet meaningful.
    #[inline]
    #[must_use]
    pub fn from_unique_uninit_slice(mem: Vec<u8>, base_addr: usize) -> (r: Self)
        requires
            base_addr + mem@.len() <= usize::MAX,
        ensures
            r.wf(),
            r.base_spec() == base_addr,
            r.len_spec() == mem@.len(),
            r.allocated_blocks().len() == 0,
            r.initialized_spec() == spec_heap_initializes(
                base_addr as int,
                mem@.len() as int,
            ),
            r.initialized_spec() ==> ({
                let b = base_addr as int;
                let n = mem@.len() as int;
                &&& r.end_spec() == spec_end_marker(b, n) - b
                &&& r.blocks_start_spec() == spec_heap_start(b) - b + HEAP_STRUCT_SIZE
                &&& r.free_blocks() == spec_initial_free_blocks(b, n)
                &&& r.free_capacity() == if spec_end_marker(b, n) - spec_heap_start(b)
                    - HEAP_STRUCT_SIZE > 0 {
                    spec_end_marker(b, n) - spec_heap_start(b) - HEAP_STRUCT_SIZE
                } else {
                    0
                }
            }),
            !r.initialized_spec() ==> r.free_blocks().len() == 0,
    {
        let ugb = UnalignedGenericBuffer::from_unique_uninit_slice(mem, base_addr);
        ExperimentalAllocator::from_raw_parts(ugb)
    }

    /// Wraps an existing backing region.
    #[inline]
    #[must_use]
    pub fn from_backing_allocation(mem: BackingAllocation) -> (r: Self)
        requires
            mem.wf(),
        ensures
            r.wf(),
            r.base_spec() == mem.base_spec(),
            r.len_spec() == mem@.len(),
            r.allocated_blocks().len() == 0,
            r.initialized_spec() == spec_heap_initializes(
                mem.base_spec() as int,
                mem@.len() as int,
            ),
            r.initialized_spec() ==> ({
                let b = mem.base_spec() as int;
                let n = mem@.len() as int;
                &&& r.end_spec() == spec_end_marker(b, n) - b
                &&& r.blocks_start_spec() == spec_heap_start(b) - b + HEAP_STRUCT_SIZE
                &&& r.free_blocks() == spec_initial_free_blocks(b, n)
                &&& r.free_capacity() == if spec_end_marker(b, n) - spec_heap_start(b)
                    - HEAP_STRUCT_SIZE > 0 {
                    spec_end_marker(b, n) - spec_heap_start(b) - HEAP_STRUCT_SIZE
                } else {
                    0
                }
            }),
            !r.initialized_spec() ==> r.free_blocks().len() == 0,
    {
        let ugb = UnalignedGenericBuffer::from_backing_allocation(mem);
        ExperimentalAllocator::from_raw_parts(ugb)
    }

    /// Rounds `addr` up to the next multiple of `align`.
    #[inline]
    fn align_up(addr: usize, align: usize) -> (r: usize)
        requires
            align > 0,
            addr + align - 1 <= usize::MAX,
        ensures
            r == crate::align_twiddle::spec_next_multiple_of(addr as int, align as int),
            r % align == 0,
            addr <= r < addr + align,
    {
        next_aligned_addr(addr, align)
    }

    #[inline]
    fn from_raw_parts(ugb: UnalignedGenericBuffer<u8>) -> (r: Self)
        requires
            ugb.wf(),
        ensures
            r.wf(),
            r.base_spec() == ugb.base_spec(),
            r.len_spec() == ugb@.len(),
            r.allocated_blocks().len() == 0,
            r.initialized_spec() == spec_heap_initializes(
                ugb.base_spec() as int,
                ugb@.len() as int,
            ),
            r.initialized_spec() ==> ({
                let b = ugb.base_spec() as int;
                let n = ugb@.len() as int;
                &&& r.end_spec() == spec_end_marker(b, n) - b
                &&& r.blocks_start_spec() == spec_heap_start(b) - b + HEAP_STRUCT_SIZE
                &&& r.free_blocks() == spec_initial_free_blocks(b, n)
                &&& r.free_capacity() == if spec_end_marker(b, n) - spec_heap_start(b)
                    - HEAP_STRUCT_SIZE > 0 {
                    spec_end_marker(b, n) - spec_heap_start(b) - HEAP_STRUCT_SIZE
                } else {
                    0
                }
            }),
            !r.initialized_spec() ==> r.free_blocks().len() == 0,
    {
        let mut alloc = ExperimentalAllocator {
            mem: ugb,
            free_list: Vec::new(),
            allocated: Vec::new(),
            initialized: false,
            heap_start: 0,
            end_marker: 0,
        };
        alloc.init_heap();
        alloc
    }

    /// Lays the initial free list out over the region: a heap start aligned
    /// for blocks, one large free block, and an end sentinel at the aligned
    /// top. A region too small for that layout leaves the allocator
    /// uninitialized, and every allocation then fails.
    #[inline]
    #[verifier::rlimit(100)]
    fn init_heap(&mut self)
        requires
            old(self).mem.wf(),
            !old(self).initialized_spec(),
            old(self).free_blocks().len() == 0,
            old(self).allocated_blocks().len() == 0,
        ensures
            final(self).wf(),
            final(self).base_spec() == old(self).base_spec(),
            final(self).len_spec() == old(self).len_spec(),
            final(self).allocated_blocks().len() == 0,
            final(self).initialized_spec() == spec_heap_initializes(
                old(self).base_spec() as int,
                old(self).len_spec() as int,
            ),
            final(self).initialized_spec() ==> ({
                let b = old(self).base_spec() as int;
                let n = old(self).len_spec() as int;
                &&& final(self).end_spec() == spec_end_marker(b, n) - b
                &&& final(self).blocks_start_spec() == spec_heap_start(b) - b + HEAP_STRUCT_SIZE
                &&& final(self).free_blocks() == spec_initial_free_blocks(b, n)
                &&& final(self).free_capacity() == if spec_end_marker(b, n) - spec_heap_start(b)
                    - HEAP_STRUCT_SIZE > 0 {
                    spec_end_marker(b, n) - spec_heap_start(b) - HEAP_STRUCT_SIZE
                } else {
                    0
                }
            }),
            !final(self).initialized_spec() ==> final(self).free_blocks().len() == 0,
    {
        let buf_ptr = self.mem.as_unaligned_ptr();
        let buf_len = self.mem.unaligned_len();
        if buf_ptr > usize::MAX - (PORT_BYTE_ALIGNMENT - 1) {
            return ;
        }
        let heap_start_addr = Self::align_up(buf_ptr, PORT_BYTE_ALIGNMENT);
        let heap_end_addr = buf_ptr + buf_len;
        let end_marker_addr = {
            let candidate = if heap_end_addr >= HEAP_STRUCT_SIZE {
                heap_end_addr - HEAP_STRUCT_SIZE
            } else {
                0
            };
            Self::align_up(candidate, PORT_BYTE_ALIGNMENT)
        };
        proof {
            let b = old(self).base_spec() as int;
            let n = old(self).len_spec() as int;
            assert(heap_start_addr == spec_heap_start(b));
            assert(end_marker_addr == spec_end_marker(b, n));
        }
        if end_marker_addr < heap_start_addr || heap_end_addr < HEAP_STRUCT_SIZE || end_marker_addr
            > heap_end_addr - HEAP_STRUCT_SIZE {
            return ;
        }
        let first_block_addr = Self::align_up(
            heap_start_addr + HEAP_STRUCT_SIZE,
            PORT_BYTE_ALIGNMENT,
        );
        proof {
            // the heap start is already block-aligned, so one header past it
            // is too, and rounding it up changes nothing
            assert((heap_start_addr + HEAP_STRUCT_SIZE) as int % PORT_BYTE_ALIGNMENT as int == 0);
            assert(first_block_addr == heap_start_addr + HEAP_STRUCT_SIZE);
        }
        if first_block_addr > end_marker_addr {
            return ;
        }
        if end_marker_addr - buf_ptr >= ALLOCATED_TAG {
            return ;
        }
        let first_block_size = end_marker_addr - first_block_addr;

        self.heap_start = heap_start_addr - buf_ptr;
        self.end_marker = end_marker_addr - buf_ptr;
        if first_block_size > 0 {
            let first = BlockEntry {
                offset: first_block_addr - buf_ptr,
                size: TaggedUsize::new(first_block_size, false),
            };
            self.free_list.push(first);
        }
        self.initialized = true;

        proof {
            assert(usize::MAX == 2 * (usize::MAX / 2) + 1);
            let b = old(self).base_spec() as int;
            let n = old(self).len_spec() as int;
            assert(spec_heap_initializes(b, n));
            let laid = spec_initial_free_blocks(b, n);
            assert(self.free_blocks() =~= laid);
            if laid.len() > 0 {
                assert(sum_block_sizes(laid) == sum_block_sizes(laid.drop_last())
                    + laid.last().1);
                assert(laid.drop_last() =~= Seq::<(usize, usize)>::empty());
            }
            assert(sum_block_sizes(Seq::<(usize, usize)>::empty()) == 0);
        }
    }

    /// First-fit allocation: rejects empty requests and requests whose
    /// total block size would spill into the tag bit; walks the free list
    /// in address order for the first block large enough; splits it where
    /// the slack exceeds the minimum block size, and takes it whole
    /// otherwise. Returns the block-aligned address just past the taken
    /// block's header. (Alignment beyond the block alignment is not
    /// guaranteed: only the total size is rounded to larger requested
    /// alignments.)
    #[verifier::rlimit(100)]
    pub fn allocate(&mut self, layout: Layout) -> (r: Result<usize, ExperimentalAllocError>)
        requires
            old(self).wf(),
            layout.wf(),
        ensures
            final(self).wf(),
            final(self).base_spec() == old(self).base_spec(),
            final(self).len_spec() == old(self).len_spec(),
            final(self).initialized_spec() == old(self).initialized_spec(),
            final(self).end_spec() == old(self).end_spec(),
            final(self).blocks_start_spec() == old(self).blocks_start_spec(),
            ({
                let total = spec_total_size(layout.size_spec() as int, layout.align_spec() as int);
                let free0 = old(self).free_blocks();
                let ff = spec_first_fit(free0, total);
                if layout.size_spec() == 0 {
                    (r matches Err(e) && e.0@ == "requested allocation size is zero"@)
                        && *final(self) == *old(self)
                } else if !old(self).initialized_spec() {
                    (r matches Err(e) && e.0@
                        == "free list is not initialized or buffer too small"@) && *final(self)
                        == *old(self)
                } else if total >= ALLOCATED_TAG {
                    (r matches Err(e) && e.0@ == "allocation size overflowed usize or MSB set"@)
                        && *final(self) == *old(self)
                } else if ff == free0.len() {
                    (r matches Err(e) && e.0@ == "no suitable free block found"@) && *final(self)
                        == *old(self)
                } else {
                    let off = free0[ff].0;
                    let bsize = free0[ff].1;
                    r == Ok::<usize, ExperimentalAllocError>(
                        (old(self).base_spec() + off + HEAP_STRUCT_SIZE) as usize,
                    ) && (old(self).base_spec() + off + HEAP_STRUCT_SIZE) % (
                    PORT_BYTE_ALIGNMENT as int) == 0 && sum_block_sizes(
                        final(self).allocated_blocks(),
                    )
                        + final(self).free_capacity() == sum_block_sizes(
                        old(self).allocated_blocks(),
                    ) + old(self).free_capacity() && (if bsize - total > MINIMUM_BLOCK_SIZE {
                        final(self).free_blocks() == free0.update(
                            ff,
                            (((off + total) as usize, (bsize - total) as usize)),
                        ) && final(self).allocated_blocks() == old(self).allocated_blocks().push(
                            (off, total as usize),
                        ) && final(self).free_capacity() == old(self).free_capacity() - total
                    } else {
                        final(self).free_blocks() == free0.remove(ff)
                            && final(self).allocated_blocks() == old(
                            self,
                        ).allocated_blocks().push((off, bsize))
                            && final(self).free_capacity() == old(self).free_capacity() - bsize
                    })
                }
            }),
    {
        let wanted_size = layout.size();
        let align0 = layout.align();
        let align = if align0 < PORT_BYTE_ALIGNMENT {
            PORT_BYTE_ALIGNMENT
        } else {
            align0
        };
        if wanted_size == 0 {
            return Err(ExperimentalAllocError("requested allocation size is zero"));
        }
        if !self.initialized {
            return Err(
                ExperimentalAllocError("free list is not initialized or buffer too small"),
            );
        }
        let ghost spec_total = spec_total_size(
            layout.size_spec() as int,
            layout.align_spec() as int,
        );
        let total0 = match wanted_size.checked_add(HEAP_STRUCT_SIZE) {
            Some(t) => t,
            None => {
                proof {
                    crate::align_twiddle::lemma_next_multiple_of(
                        wanted_size + HEAP_STRUCT_SIZE,
                        align as int,
                    );
                    assert(spec_total >= ALLOCATED_TAG);
                }
                return Err(
                    ExperimentalAllocError("allocation size overflowed usize or MSB set"),
                );
            },
        };
        let rem = total0 % align;
        let total = if rem == 0 {
            proof {
                assert(total0 == spec_total) by (nonlinear_arith)
                    requires
                        align > 0,
                        total0 >= 0,
                        total0 % align == 0,
                        spec_total == ((total0 + align - 1) / (align as int)) * (align as int),
                ;
            }
            total0
        } else {
            match total0.checked_add(align - rem) {
                Some(t) => {
                    proof {
                        assert(t == spec_total) by (nonlinear_arith)
                            requires
                                align > 0,
                                total0 >= 0,
                                total0 % align == rem,
                                rem != 0,
                                t == total0 + align - rem,
                                spec_total == ((total0 + align - 1) / (align as int)) * (
                                align as int),
                        ;
                    }
                    t
                },
                None => {
                    proof {
                        assert(spec_total >= ALLOCATED_TAG) by (nonlinear_arith)
                            requires
                                align > 0,
                                total0 >= 0,
                                total0 % align == rem,
                                rem != 0,
                                total0 + align - rem > usize::MAX,
                                usize::MAX >= ALLOCATED_TAG,
                                spec_total == ((total0 + align - 1) / (align as int)) * (
                                align as int),
                        ;
                    }
                    return Err(
                        ExperimentalAllocError("allocation size overflowed usize or MSB set"),
                    );
                },
            }
        };
        if !block_size_is_valid(total) {
            return Err(ExperimentalAllocError("allocation size overflowed usize or MSB set"));
        }
        proof {
            lemma_total_size_block_aligned(layout.size_spec() as int, layout.align_spec() as int);
            assert(total as int % (PORT_BYTE_ALIGNMENT as int) == 0);
        }

        let ghost free0 = self.free_blocks();
        proof {
            lemma_first_fit(free0, total as int);
        }
        let n = self.free_list.len();
        let mut idx: usize = 0;
        while idx < n && self.free_list[idx].size.size() < total
            invariant
                *self == *old(self),
                n == self.free_list@.len(),
                free0 == self.free_blocks(),
                idx <= n,
                forall|j: int| 0 <= j < idx ==> #[trigger] free0[j].1 < total,
            decreases n - idx,
        {
            idx = idx + 1;
        }
        proof {
            let ff = spec_first_fit(free0, total as int);
            if (idx as int) < ff {
                assert(free0[idx as int].1 < total);
                assert(free0[idx as int] == (self.free_list@[idx as int].offset,
                self.free_list@[idx as int].size_spec()));
                assert(false);
            }
            if ff < idx as int {
                assert(free0[ff].1 < total);
                assert(free0[ff].1 >= total);
                assert(false);
            }
        }
        if idx == n {
            return Err(ExperimentalAllocError("no suitable free block found"));
        }

        let off = self.free_list[idx].offset;
        self.take_block(idx, total);

        proof {
            // the handed-out address sits one block-aligned header past a
            // block-aligned block start
            assert((old(self).base_spec() + off) % (PORT_BYTE_ALIGNMENT as int) == 0) by {
                assert((old(self).base_spec() + old(self).free_list@[idx as int].offset) % (
                PORT_BYTE_ALIGNMENT as int) == 0);
            }
        }
        let user_ptr = self.mem.as_unaligned_ptr() + off + HEAP_STRUCT_SIZE;
        Ok(user_ptr)
    }

    /// Takes the free block at `idx` for a request occupying `total` bytes:
    /// splits it where the slack exceeds the minimum block size, and takes
    /// it whole otherwise; either way the taken part is tagged allocated
    /// and recorded among the live allocations.
    #[verifier::rlimit(100)]
    fn take_block(&mut self, idx: usize, total: usize)
        requires
            old(self).wf(),
            old(self).initialized_spec(),
            idx < old(self).free_blocks().len(),
            HEAP_STRUCT_SIZE <= total,
            total < ALLOCATED_TAG,
            total as int % (PORT_BYTE_ALIGNMENT as int) == 0,
            total <= old(self).free_blocks()[idx as int].1,
        ensures
            final(self).wf(),
            final(self).base_spec() == old(self).base_spec(),
            final(self).len_spec() == old(self).len_spec(),
            final(self).initialized_spec() == old(self).initialized_spec(),
            final(self).end_spec() == old(self).end_spec(),
            final(self).blocks_start_spec() == old(self).blocks_start_spec(),
            sum_block_sizes(final(self).allocated_blocks()) + final(self).free_capacity()
                == sum_block_sizes(old(self).allocated_blocks()) + old(self).free_capacity(),
            ({
                let free0 = old(self).free_blocks();
                let off = free0[idx as int].0;
                let bsize = free0[idx as int].1;
                if bsize - total > MINIMUM_BLOCK_SIZE {
                    final(self).free_blocks() == free0.update(
                        idx as int,
                        (((off + total) as usize, (bsize - total) as usize)),
                    ) && final(self).allocated_blocks() == old(self).allocated_blocks().push(
                        (off, total),
                    ) && final(self).free_capacity() == old(self).free_capacity() - total
                } else {
                    final(self).free_blocks() == free0.remove(idx as int)
                        && final(self).allocated_blocks() == old(self).allocated_blocks().push(
                        (off, bsize),
                    ) && final(self).free_capacity() == old(self).free_capacity() - bsize
                }
            }),
    {
        let ghost free0 = self.free_blocks();
        let curr = self.free_list[idx];
        let off = curr.offset;
        let curr_block_size = curr.size.size();

        if curr_block_size - total > MINIMUM_BLOCK_SIZE {
            let new_entry = BlockEntry {
                offset: off + total,
                size: TaggedUsize::new(curr_block_size - total, false),
            };
            let mut taken = BlockEntry { offset: off, size: TaggedUsize::new(total, false) };
            allocate_block(&mut taken);
            self.free_list[idx] = new_entry;
            self.allocated.push(taken);
            proof {
                assert(usize::MAX == 2 * (usize::MAX / 2) + 1);
                assert(self.free_blocks() =~= free0.update(
                    idx as int,
                    (((off + total) as usize, (curr_block_size - total) as usize)),
                ));
                assert(self.allocated_blocks() =~= old(self).allocated_blocks().push(
                    (off, total as usize),
                ));
                lemma_sum_update(
                    free0,
                    idx as int,
                    (((off + total) as usize, (curr_block_size - total) as usize)),
                );
                lemma_sum_push(old(self).allocated_blocks(), (off, total as usize));
                let f0 = old(self).free_list@;
                let f1 = self.free_list@;
                let a0 = old(self).allocated@;
                let a1 = self.allocated@;
                let k = idx as int;
                assert(f1 == f0.update(k, new_entry));
                assert(a1 == a0.push(taken));
                assert(new_entry.end_spec() == f0[k].end_spec());
                assert forall|i: int, j: int| 0 <= i < j < f1.len() implies #[trigger] f1[i].end_spec()
                    < #[trigger] f1[j].offset by {
                    assert(f0[i].end_spec() < f0[j].offset);
                    if j == k {
                        assert(f1[j].offset >= f0[k].offset);
                    }
                }
                assert forall|i: int|
                    0 <= i < f1.len() implies self.block_in_heap(
                    (((#[trigger] f1[i]).offset, f1[i].size_spec())),
                ) && !f1[i].size.is_allocated_spec() && f1[i].size_spec() >= 1 by {
                    assert(old(self).block_in_heap(((f0[i].offset, f0[i].size_spec()))));
                    assert(f0[i].size_spec() >= 1);
                }
                assert forall|i: int|
                    0 <= i < a1.len() implies self.block_in_heap(
                    (((#[trigger] a1[i]).offset, a1[i].size_spec())),
                ) && a1[i].size.is_allocated_spec() && a1[i].size_spec() >= 1 by {
                    if i < a0.len() {
                        assert(old(self).block_in_heap(((a0[i].offset, a0[i].size_spec()))));
                    } else {
                        assert(a1[i] == taken);
                        assert(old(self).block_in_heap(((f0[k].offset, f0[k].size_spec()))));
                    }
                }
                assert forall|i: int, j: int|
                    0 <= i < f1.len() && 0 <= j < a1.len() implies Self::blocks_disjoint(
                    (((#[trigger] f1[i]).offset, f1[i].size_spec())),
                    (((#[trigger] a1[j]).offset, a1[j].size_spec())),
                ) by {
                    if j < a0.len() {
                        assert(Self::blocks_disjoint(
                            ((f0[i].offset, f0[i].size_spec())),
                            ((a0[j].offset, a0[j].size_spec())),
                        ));
                    } else {
                        if i < k {
                            assert(f0[i].end_spec() < f0[k].offset);
                        }
                        if i > k {
                            assert(f0[k].end_spec() < f0[i].offset);
                        }
                    }
                }
                assert forall|i: int, j: int| 0 <= i < j < a1.len() implies Self::blocks_disjoint(
                    (((#[trigger] a1[i]).offset, a1[i].size_spec())),
                    (((#[trigger] a1[j]).offset, a1[j].size_spec())),
                ) by {
                    if j < a0.len() {
                        assert(Self::blocks_disjoint(
                            ((a0[i].offset, a0[i].size_spec())),
                            ((a0[j].offset, a0[j].size_spec())),
                        ));
                    } else {
                        assert(Self::blocks_disjoint(
                            ((f0[k].offset, f0[k].size_spec())),
                            ((a0[i].offset, a0[i].size_spec())),
                        ));
                    }
                }
                assert forall|i: int|
                    0 <= i < f1.len() implies (self.base_spec() + (#[trigger] f1[i]).offset) % (
                PORT_BYTE_ALIGNMENT as int) == 0 by {
                    assert((old(self).base_spec() + f0[i].offset) % (PORT_BYTE_ALIGNMENT as int)
                        == 0);
                }
                assert forall|i: int|
                    0 <= i < a1.len() implies (self.base_spec() + (#[trigger] a1[i]).offset) % (
                PORT_BYTE_ALIGNMENT as int) == 0 by {
                    if i < a0.len() {
                        assert((old(self).base_spec() + a0[i].offset) % (
                        PORT_BYTE_ALIGNMENT as int) == 0);
                    } else {
                        assert((old(self).base_spec() + f0[k].offset) % (
                        PORT_BYTE_ALIGNMENT as int) == 0);
                    }
                }
            }
        } else {
            let mut taken = self.free_list.remove(idx);
            allocate_block(&mut taken);
            self.allocated.push(taken);
            proof {
                assert(usize::MAX == 2 * (usize::MAX / 2) + 1);
                assert(self.free_blocks() =~= free0.remove(idx as int));
                assert(self.allocated_blocks() =~= old(self).allocated_blocks().push(
                    (off, curr_block_size as usize),
                ));
                lemma_sum_remove(free0, idx as int);
                lemma_sum_push(old(self).allocated_blocks(), (off, curr_block_size as usize));
                let f0 = old(self).free_list@;
                let f1 = self.free_list@;
                let a0 = old(self).allocated@;
                let a1 = self.allocated@;
                let k = idx as int;
                assert(f1 == f0.remove(k));
                assert(a1 == a0.push(taken));
                assert forall|i: int, j: int| 0 <= i < j < f1.len() implies #[trigger] f1[i].end_spec()
                    < #[trigger] f1[j].offset by {
                    let i0 = if i < k {
                        i
                    } else {
                        i + 1
                    };
                    let j0 = if j < k {
                        j
                    } else {
                        j + 1
                    };
                    assert(f1[i] == f0[i0] && f1[j] == f0[j0]);
                    if j0 == i0 + 1 {
                        assert(f0[i0].end_spec() < f0[j0].offset);
                    } else {
                        assert(f0[i0].end_spec() < f0[i0 + 1].offset);
                        assert(f0[i0 + 1].end_spec() < f0[j0].offset);
                    }
                }
                assert forall|i: int|
                    0 <= i < f1.len() implies self.block_in_heap(
                    (((#[trigger] f1[i]).offset, f1[i].size_spec())),
                ) && !f1[i].size.is_allocated_spec() && f1[i].size_spec() >= 1 by {
                    let i0 = if i < k {
                        i
                    } else {
                        i + 1
                    };
                    assert(f1[i] == f0[i0]);
                    assert(old(self).block_in_heap(((f0[i0].offset, f0[i0].size_spec()))));
                    assert(f0[i0].size_spec() >= 1);
                }
                assert forall|i: int|
                    0 <= i < a1.len() implies self.block_in_heap(
                    (((#[trigger] a1[i]).offset, a1[i].size_spec())),
                ) && a1[i].size.is_allocated_spec() && a1[i].size_spec() >= 1 by {
                    if i < a0.len() {
                        assert(old(self).block_in_heap(((a0[i].offset, a0[i].size_spec()))));
                    } else {
                        assert(a1[i] == taken);
                        assert(old(self).block_in_heap(((f0[k].offset, f0[k].size_spec()))));
                    }
                }
                assert forall|i: int, j: int|
                    0 <= i < f1.len() && 0 <= j < a1.len() implies Self::blocks_disjoint(
                    (((#[trigger] f1[i]).offset, f1[i].size_spec())),
                    (((#[trigger] a1[j]).offset, a1[j].size_spec())),
                ) by {
                    let i0 = if i < k {
                        i
                    } else {
                        i + 1
                    };
                    assert(f1[i] == f0[i0]);
                    if j < a0.len() {
                        assert(Self::blocks_disjoint(
                            ((f0[i0].offset, f0[i0].size_spec())),
                            ((a0[j].offset, a0[j].size_spec())),
                        ));
                    } else {
                        if i0 < k {
                            assert(f0[i0].end_spec() < f0[k].offset);
                        }
                        if i0 > k {
                            assert(f0[k].end_spec() < f0[i0].offset);
                        }
                    }
                }
                assert forall|i: int, j: int| 0 <= i < j < a1.len() implies Self::blocks_disjoint(
                    (((#[trigger] a1[i]).offset, a1[i].size_spec())),
                    (((#[trigger] a1[j]).offset, a1[j].size_spec())),
                ) by {
                    if j < a0.len() {
                        assert(Self::blocks_disjoint(
                            ((a0[i].offset, a0[i].size_spec())),
                            ((a0[j].offset, a0[j].size_spec())),
                        ));
                    } else {
                        assert(Self::blocks_disjoint(
                            ((f0[k].offset, f0[k].size_spec())),
                            ((a0[i].offset, a0[i].size_spec())),
                        ));
                    }
                }
                assert forall|i: int|
                    0 <= i < f1.len() implies (self.base_spec() + (#[trigger] f1[i]).offset) % (
                PORT_BYTE_ALIGNMENT as int) == 0 by {
                    let i0 = if i < k {
                        i
                    } else {
                        i + 1
                    };
                    assert(f1[i] == f0[i0]);
                    assert((old(self).base_spec() + f0[i0].offset) % (PORT_BYTE_ALIGNMENT as int)
                        == 0);
                }
                assert forall|i: int|
                    0 <= i < a1.len() implies (self.base_spec() + (#[trigger] a1[i]).offset) % (
                PORT_BYTE_ALIGNMENT as int) == 0 by {
                    if i < a0.len() {
                        assert((old(self).base_spec() + a0[i].offset) % (
                        PORT_BYTE_ALIGNMENT as int) == 0);
                    } else {
                        assert((old(self).base_spec() + f0[k].offset) % (
                        PORT_BYTE_ALIGNMENT as int) == 0);
                    }
                }
            }
        }

    }

    /// Links a freed block back into the address-ordered free list, merging
    /// it with the byte-adjacent free neighbor on either side so that no
    /// two free blocks are ever left contiguous.
    #[verifier::rlimit(100)]
    fn insert_block_into_free_list(&mut self, block: BlockEntry)
        requires
            old(self).wf_lists(),
            old(self).initialized_spec(),
            sum_block_sizes(old(self).free_blocks()) + sum_block_sizes(
                old(self).allocated_blocks(),
            ) + block.size_spec() == old(self).end_spec() - old(self).blocks_start_spec(),
            !block.size.is_allocated_spec(),
            block.size_spec() >= 1,
            old(self).blocks_start_spec() <= block.offset,
            block.offset + block.size_spec() <= old(self).end_spec(),
            (old(self).base_spec() + block.offset) % (PORT_BYTE_ALIGNMENT as int) == 0,
            forall|i: int|
                0 <= i < old(self).free_blocks().len() ==> Self::blocks_disjoint(
                    #[trigger] old(self).free_blocks()[i],
                    (block.offset, block.size_spec()),
                ),
            forall|j: int|
                0 <= j < old(self).allocated_blocks().len() ==> Self::blocks_disjoint(
                    #[trigger] old(self).allocated_blocks()[j],
                    (block.offset, block.size_spec()),
                ),
        ensures
            final(self).wf(),
            final(self).base_spec() == old(self).base_spec(),
            final(self).len_spec() == old(self).len_spec(),
            final(self).initialized_spec() == old(self).initialized_spec(),
            final(self).end_spec() == old(self).end_spec(),
            final(self).blocks_start_spec() == old(self).blocks_start_spec(),
            final(self).allocated_blocks() == old(self).allocated_blocks(),
            final(self).free_capacity() == old(self).free_capacity() + block.size_spec(),
            ({
                let free0 = old(self).free_blocks();
                let off = block.offset;
                let sz = block.size_spec();
                let k = spec_insert_pos(free0, off as int);
                let merge_left = k > 0 && free0[k - 1].0 + free0[k - 1].1 == off;
                let merge_right = k < free0.len() && off + sz == free0[k].0;
                final(self).free_blocks() == if merge_left && merge_right {
                    free0.update(
                        k - 1,
                        (free0[k - 1].0, (free0[k - 1].1 + sz + free0[k].1) as usize),
                    ).remove(k)
                } else if merge_left {
                    free0.update(k - 1, (free0[k - 1].0, (free0[k - 1].1 + sz) as usize))
                } else if merge_right {
                    free0.update(k, (off, (sz + free0[k].1) as usize))
                } else {
                    free0.insert(k, (off, sz))
                }
            }),
    {
        let off = block.offset;
        let bsize = block.size.size();
        let n = self.free_list.len();
        let ghost free0 = self.free_blocks();
        proof {
            lemma_insert_pos(free0, off as int);
            assert(usize::MAX == 2 * (usize::MAX / 2) + 1);
        }
        let mut k: usize = 0;
        while k < n && self.free_list[k].offset < off
            invariant
                *self == *old(self),
                n == self.free_list@.len(),
                free0 == self.free_blocks(),
                k <= n,
                forall|j: int| 0 <= j < k ==> (#[trigger] free0[j]).0 < off,
            decreases n - k,
        {
            k = k + 1;
        }
        proof {
            let kk = spec_insert_pos(free0, off as int);
            if (k as int) < kk {
                assert(free0[k as int].0 < off);
                assert(free0[k as int] == (self.free_list@[k as int].offset,
                self.free_list@[k as int].size_spec()));
                assert(false);
            }
            if kk < k as int {
                assert(free0[kk].0 < off);
                assert(free0[kk].0 >= off);
                assert(false);
            }
            // every block before the insertion point ends at or before the
            // freed block; every block at or after it starts at or past its end
            assert forall|j: int| 0 <= j < k implies (#[trigger] free0[j]).0 + free0[j].1
                <= off by {
                assert(Self::blocks_disjoint(free0[j], (block.offset, block.size_spec())));
            }
            assert forall|j: int| k <= j < n implies off + bsize <= (#[trigger] free0[j]).0 by {
                assert(Self::blocks_disjoint(free0[j], (block.offset, block.size_spec())));
                if j > k {
                    assert(free0[k as int].0 <= old(self).free_list@[j].offset) by {
                        assert(old(self).free_list@[k as int].end_spec() < old(
                            self,
                        ).free_list@[j].offset);
                    }
                }
            }
        }
        let merge_left = if k > 0 {
            let prev = self.free_list[k - 1];
            prev.offset + prev.size.size() == off
        } else {
            false
        };
        let merge_right = if k < n {
            off + bsize == self.free_list[k].offset
        } else {
            false
        };

        if merge_left && merge_right {
            let prev = self.free_list[k - 1];
            let next = self.free_list[k];
            proof {
                assert(old(self).free_list@[k - 1].end_spec() == off);
                assert(off + bsize == old(self).free_list@[k as int].offset);
                assert(old(self).free_list@[k as int].end_spec() <= old(self).end_spec());
            }
            let merged = BlockEntry {
                offset: prev.offset,
                size: TaggedUsize::new(prev.size.size() + bsize + next.size.size(), false),
            };
            self.free_list[k - 1] = merged;
            self.free_list.remove(k);
            proof {
                lemma_sum_update(
                    free0,
                    k - 1,
                    (free0[k - 1].0, (free0[k - 1].1 + bsize + free0[k as int].1) as usize),
                );
                lemma_sum_remove(
                    free0.update(
                        k - 1,
                        (free0[k - 1].0, (free0[k - 1].1 + bsize + free0[k as int].1) as usize),
                    ),
                    k as int,
                );
                assert(self.free_blocks() =~= free0.update(
                    k - 1,
                    (free0[k - 1].0, (free0[k - 1].1 + bsize + free0[k as int].1) as usize),
                ).remove(k as int));
                let f0 = old(self).free_list@;
                let f1 = self.free_list@;
                let a0 = old(self).allocated@;
                let ki = k as int;
                assert(f1 =~= f0.update(ki - 1, merged).remove(ki));
                assert(merged.offset == f0[ki - 1].offset);
                assert(merged.end_spec() == f0[ki].end_spec());
                assert forall|i: int, j: int| 0 <= i < j < f1.len() implies #[trigger] f1[i].end_spec()
                    < #[trigger] f1[j].offset by {
                    let i0 = if i < ki {
                        i
                    } else {
                        i + 1
                    };
                    let j0 = if j < ki {
                        j
                    } else {
                        j + 1
                    };
                    if i0 + 1 < j0 {
                        assert(f0[i0].end_spec() < f0[i0 + 1].offset);
                        assert(f0[i0 + 1].end_spec() < f0[j0].offset);
                    } else {
                        assert(f0[i0].end_spec() < f0[j0].offset);
                    }
                }
                assert forall|i: int|
                    0 <= i < f1.len() implies self.block_in_heap(
                    (((#[trigger] f1[i]).offset, f1[i].size_spec())),
                ) && !f1[i].size.is_allocated_spec() && f1[i].size_spec() >= 1 by {
                    let i0 = if i < ki {
                        i
                    } else {
                        i + 1
                    };
                    assert(old(self).block_in_heap(((f0[i0].offset, f0[i0].size_spec()))));
                    assert(f0[i0].size_spec() >= 1);
                    assert(old(self).block_in_heap(((f0[ki].offset, f0[ki].size_spec()))));
                }
                assert forall|i: int|
                    0 <= i < a0.len() implies self.block_in_heap(
                    (((#[trigger] a0[i]).offset, a0[i].size_spec())),
                ) && a0[i].size.is_allocated_spec() && a0[i].size_spec() >= 1 by {
                    assert(old(self).block_in_heap(((a0[i].offset, a0[i].size_spec()))));
                }
                assert forall|i: int, j: int|
                    0 <= i < f1.len() && 0 <= j < a0.len() implies Self::blocks_disjoint(
                    (((#[trigger] f1[i]).offset, f1[i].size_spec())),
                    (((#[trigger] a0[j]).offset, a0[j].size_spec())),
                ) by {
                    let aj = (a0[j].offset, a0[j].size_spec());
                    if i == ki - 1 {
                        assert(Self::blocks_disjoint(
                            ((f0[ki - 1].offset, f0[ki - 1].size_spec())),
                            aj,
                        ));
                        assert(Self::blocks_disjoint(((f0[ki].offset, f0[ki].size_spec())), aj));
                        assert(Self::blocks_disjoint(
                            old(self).allocated_blocks()[j],
                            (block.offset, block.size_spec()),
                        ));
                        assert(old(self).allocated_blocks()[j] == aj);
                        lemma_disjoint_union(
                            aj,
                            ((f0[ki - 1].offset, f0[ki - 1].size_spec())),
                            (block.offset, block.size_spec()),
                            ((f0[ki - 1].offset, (f0[ki - 1].size_spec() + block.size_spec()) as usize)),
                        );
                        lemma_disjoint_union(
                            aj,
                            ((f0[ki - 1].offset, (f0[ki - 1].size_spec() + block.size_spec()) as usize)),
                            ((f0[ki].offset, f0[ki].size_spec())),
                            ((merged.offset, merged.size_spec())),
                        );
                    } else {
                        let i0 = if i < ki {
                            i
                        } else {
                            i + 1
                        };
                        assert(Self::blocks_disjoint(((f0[i0].offset, f0[i0].size_spec())), aj));
                    }
                }
                assert forall|i: int, j: int| 0 <= i < j < a0.len() implies Self::blocks_disjoint(
                    (((#[trigger] a0[i]).offset, a0[i].size_spec())),
                    (((#[trigger] a0[j]).offset, a0[j].size_spec())),
                ) by {
                    assert(Self::blocks_disjoint(
                        ((a0[i].offset, a0[i].size_spec())),
                        ((a0[j].offset, a0[j].size_spec())),
                    ));
                }
                assert forall|i: int|
                    0 <= i < f1.len() implies (self.base_spec() + (#[trigger] f1[i]).offset) % (
                PORT_BYTE_ALIGNMENT as int) == 0 by {
                    let i0 = if i < ki {
                        i
                    } else {
                        i + 1
                    };
                    if i == ki - 1 {
                        assert(f1[i].offset == f0[ki - 1].offset);
                        assert((old(self).base_spec() + f0[ki - 1].offset) % (
                        PORT_BYTE_ALIGNMENT as int) == 0);
                    } else {
                        assert(f1[i] == f0[i0]);
                        assert((old(self).base_spec() + f0[i0].offset) % (
                        PORT_BYTE_ALIGNMENT as int) == 0);
                    }
                }
                assert forall|i: int|
                    0 <= i < a0.len() implies (self.base_spec() + (#[trigger] a0[i]).offset) % (
                PORT_BYTE_ALIGNMENT as int) == 0 by {
                    assert((old(self).base_spec() + a0[i].offset) % (PORT_BYTE_ALIGNMENT as int)
                        == 0);
                }
            }
        } else if merge_left {
            let prev = self.free_list[k - 1];
            proof {
                assert(old(self).free_list@[k - 1].end_spec() == off);
                assert(off + bsize <= old(self).end_spec());
            }
            let merged = BlockEntry {
                offset: prev.offset,
                size: TaggedUsize::new(prev.size.size() + bsize, false),
            };
            self.free_list[k - 1] = merged;
            proof {
                lemma_sum_update(free0, k - 1, (free0[k - 1].0, (free0[k - 1].1 + bsize) as usize));
                assert(self.free_blocks() =~= free0.update(
                    k - 1,
                    (free0[k - 1].0, (free0[k - 1].1 + bsize) as usize),
                ));
                let f0 = old(self).free_list@;
                let f1 = self.free_list@;
                let a0 = old(self).allocated@;
                let ki = k as int;
                assert(f1 =~= f0.update(ki - 1, merged));
                assert(merged.offset == f0[ki - 1].offset);
                assert(merged.end_spec() == block.offset + block.size_spec());
                assert forall|i: int, j: int| 0 <= i < j < f1.len() implies #[trigger] f1[i].end_spec()
                    < #[trigger] f1[j].offset by {
                    assert(f0[i].end_spec() < f0[j].offset);
                    if i == ki - 1 && ki < f0.len() {
                        assert(off + bsize <= free0[ki].0);
                        assert(free0[ki] == (f0[ki].offset, f0[ki].size_spec()));
                        if j > ki {
                            assert(f0[ki].end_spec() < f0[j].offset);
                        }
                    }
                }
                assert forall|i: int|
                    0 <= i < f1.len() implies self.block_in_heap(
                    (((#[trigger] f1[i]).offset, f1[i].size_spec())),
                ) && !f1[i].size.is_allocated_spec() && f1[i].size_spec() >= 1 by {
                    assert(old(self).block_in_heap(((f0[i].offset, f0[i].size_spec()))));
                    assert(f0[i].size_spec() >= 1);
                }
                assert forall|i: int|
                    0 <= i < a0.len() implies self.block_in_heap(
                    (((#[trigger] a0[i]).offset, a0[i].size_spec())),
                ) && a0[i].size.is_allocated_spec() && a0[i].size_spec() >= 1 by {
                    assert(old(self).block_in_heap(((a0[i].offset, a0[i].size_spec()))));
                }
                assert forall|i: int, j: int|
                    0 <= i < f1.len() && 0 <= j < a0.len() implies Self::blocks_disjoint(
                    (((#[trigger] f1[i]).offset, f1[i].size_spec())),
                    (((#[trigger] a0[j]).offset, a0[j].size_spec())),
                ) by {
                    let aj = (a0[j].offset, a0[j].size_spec());
                    if i == ki - 1 {
                        assert(Self::blocks_disjoint(
                            ((f0[ki - 1].offset, f0[ki - 1].size_spec())),
                            aj,
                        ));
                        assert(Self::blocks_disjoint(
                            old(self).allocated_blocks()[j],
                            (block.offset, block.size_spec()),
                        ));
                        assert(old(self).allocated_blocks()[j] == aj);
                        lemma_disjoint_union(
                            aj,
                            ((f0[ki - 1].offset, f0[ki - 1].size_spec())),
                            (block.offset, block.size_spec()),
                            ((merged.offset, merged.size_spec())),
                        );
                    } else {
                        assert(Self::blocks_disjoint(((f0[i].offset, f0[i].size_spec())), aj));
                    }
                }
                assert forall|i: int, j: int| 0 <= i < j < a0.len() implies Self::blocks_disjoint(
                    (((#[trigger] a0[i]).offset, a0[i].size_spec())),
                    (((#[trigger] a0[j]).offset, a0[j].size_spec())),
                ) by {
                    assert(Self::blocks_disjoint(
                        ((a0[i].offset, a0[i].size_spec())),
                        ((a0[j].offset, a0[j].size_spec())),
                    ));
                }
                assert forall|i: int|
                    0 <= i < f1.len() implies (self.base_spec() + (#[trigger] f1[i]).offset) % (
                PORT_BYTE_ALIGNMENT as int) == 0 by {
                    if i == ki - 1 {
                        assert(f1[i].offset == f0[ki - 1].offset);
                    } else {
                        assert(f1[i] == f0[i]);
                    }
                    assert((old(self).base_spec() + f0[i].offset) % (PORT_BYTE_ALIGNMENT as int)
                        == 0);
                }
                assert forall|i: int|
                    0 <= i < a0.len() implies (self.base_spec() + (#[trigger] a0[i]).offset) % (
                PORT_BYTE_ALIGNMENT as int) == 0 by {
                    assert((old(self).base_spec() + a0[i].offset) % (PORT_BYTE_ALIGNMENT as int)
                        == 0);
                }
            }
        } else if merge_right {
            let next = self.free_list[k];
            proof {
                assert(off + bsize == old(self).free_list@[k as int].offset);
                assert(old(self).free_list@[k as int].end_spec() <= old(self).end_spec());
            }
            let merged = BlockEntry {
                offset: off,
                size: TaggedUsize::new(bsize + next.size.size(), false),
            };
            self.free_list[k] = merged;
            proof {
                lemma_sum_update(free0, k as int, (off, (bsize + free0[k as int].1) as usize));
                assert(self.free_blocks() =~= free0.update(
                    k as int,
                    (off, (bsize + free0[k as int].1) as usize),
                ));
                let f0 = old(self).free_list@;
                let f1 = self.free_list@;
                let a0 = old(self).allocated@;
                let ki = k as int;
                assert(f1 =~= f0.update(ki, merged));
                assert(merged.offset == block.offset);
                assert(merged.end_spec() == f0[ki].end_spec());
                assert forall|i: int, j: int| 0 <= i < j < f1.len() implies #[trigger] f1[i].end_spec()
                    < #[trigger] f1[j].offset by {
                    assert(f0[i].end_spec() < f0[j].offset);
                    if j == ki {
                        // the new node starts at the freed block's offset, which
                        // lies strictly past every earlier free block's end: the
                        // immediate neighbor does not touch it (no left merge),
                        // and farther blocks end before that neighbor starts
                        assert(free0[i] == (f0[i].offset, f0[i].size_spec()));
                        assert(free0[i].0 + free0[i].1 <= off);
                        if i == ki - 1 {
                            assert(!(f0[ki - 1].end_spec() == off));
                        } else {
                            assert(f0[i].end_spec() < f0[ki - 1].offset);
                            assert(free0[ki - 1] == (f0[ki - 1].offset, f0[ki - 1].size_spec()));
                            assert(free0[ki - 1].0 + free0[ki - 1].1 <= off);
                            assert(f0[ki - 1].size_spec() >= 1);
                        }
                    }
                }
                assert forall|i: int|
                    0 <= i < f1.len() implies self.block_in_heap(
                    (((#[trigger] f1[i]).offset, f1[i].size_spec())),
                ) && !f1[i].size.is_allocated_spec() && f1[i].size_spec() >= 1 by {
                    assert(old(self).block_in_heap(((f0[i].offset, f0[i].size_spec()))));
                    assert(f0[i].size_spec() >= 1);
                }
                assert forall|i: int|
                    0 <= i < a0.len() implies self.block_in_heap(
                    (((#[trigger] a0[i]).offset, a0[i].size_spec())),
                ) && a0[i].size.is_allocated_spec() && a0[i].size_spec() >= 1 by {
                    assert(old(self).block_in_heap(((a0[i].offset, a0[i].size_spec()))));
                }
                assert forall|i: int, j: int|
                    0 <= i < f1.len() && 0 <= j < a0.len() implies Self::blocks_disjoint(
                    (((#[trigger] f1[i]).offset, f1[i].size_spec())),
                    (((#[trigger] a0[j]).offset, a0[j].size_spec())),
                ) by {
                    let aj = (a0[j].offset, a0[j].size_spec());
                    if i == ki {
                        assert(Self::blocks_disjoint(((f0[ki].offset, f0[ki].size_spec())), aj));
                        assert(Self::blocks_disjoint(
                            old(self).allocated_blocks()[j],
                            (block.offset, block.size_spec()),
                        ));
                        assert(old(self).allocated_blocks()[j] == aj);
                        lemma_disjoint_union(
                            aj,
                            (block.offset, block.size_spec()),
                            ((f0[ki].offset, f0[ki].size_spec())),
                            ((merged.offset, merged.size_spec())),
                        );
                    } else {
                        assert(Self::blocks_disjoint(((f0[i].offset, f0[i].size_spec())), aj));
                    }
                }
                assert forall|i: int, j: int| 0 <= i < j < a0.len() implies Self::blocks_disjoint(
                    (((#[trigger] a0[i]).offset, a0[i].size_spec())),
                    (((#[trigger] a0[j]).offset, a0[j].size_spec())),
                ) by {
                    assert(Self::blocks_disjoint(
                        ((a0[i].offset, a0[i].size_spec())),
                        ((a0[j].offset, a0[j].size_spec())),
                    ));
                }
                assert forall|i: int|
                    0 <= i < f1.len() implies (self.base_spec() + (#[trigger] f1[i]).offset) % (
                PORT_BYTE_ALIGNMENT as int) == 0 by {
                    if i == ki {
                        assert(f1[i].offset == block.offset);
                    } else {
                        assert(f1[i] == f0[i]);
                        assert((old(self).base_spec() + f0[i].offset) % (
                        PORT_BYTE_ALIGNMENT as int) == 0);
                    }
                }
                assert forall|i: int|
                    0 <= i < a0.len() implies (self.base_spec() + (#[trigger] a0[i]).offset) % (
                PORT_BYTE_ALIGNMENT as int) == 0 by {
                    assert((old(self).base_spec() + a0[i].offset) % (PORT_BYTE_ALIGNMENT as int)
                        == 0);
                }
            }
        } else {
            self.free_list.insert(k, block);
            proof {
                lemma_sum_insert(free0, k as int, (off, bsize));
                assert(self.free_blocks() =~= free0.insert(k as int, (off, bsize)));
                let f0 = old(self).free_list@;
                let f1 = self.free_list@;
                let a0 = old(self).allocated@;
                let ki = k as int;
                assert(f1 =~= f0.insert(ki, block));
                assert forall|i: int, j: int| 0 <= i < j < f1.len() implies #[trigger] f1[i].end_spec()
                    < #[trigger] f1[j].offset by {
                    let i0 = if i < ki {
                        i
                    } else {
                        i - 1
                    };
                    let j0 = if j < ki {
                        j
                    } else {
                        j - 1
                    };
                    if i != ki && j != ki {
                        assert(f1[i] == f0[i0] && f1[j] == f0[j0]);
                        if i0 < j0 {
                            assert(f0[i0].end_spec() < f0[j0].offset);
                        }
                    }
                    if i == ki {
                        assert(f1[j] == f0[j0]);
                        assert(free0[j0] == (f0[j0].offset, f0[j0].size_spec()));
                        assert(off + bsize <= free0[j0].0);
                        if j0 == ki {
                            assert(!(off + bsize == f0[ki].offset));
                        } else {
                            assert(free0[ki] == (f0[ki].offset, f0[ki].size_spec()));
                            assert(off + bsize <= free0[ki].0);
                            assert(f0[ki].end_spec() < f0[j0].offset);
                        }
                    }
                    if j == ki {
                        assert(f1[i] == f0[i0]);
                        assert(free0[i0] == (f0[i0].offset, f0[i0].size_spec()));
                        assert(free0[i0].0 + free0[i0].1 <= off);
                        if i0 == ki - 1 {
                            assert(!(f0[ki - 1].end_spec() == off));
                        } else {
                            assert(f0[i0].end_spec() < f0[ki - 1].offset);
                            assert(free0[ki - 1] == (f0[ki - 1].offset, f0[ki - 1].size_spec()));
                            assert(free0[ki - 1].0 + free0[ki - 1].1 <= off);
                            assert(f0[ki - 1].size_spec() >= 1);
                        }
                    }
                }
                assert forall|i: int|
                    0 <= i < f1.len() implies self.block_in_heap(
                    (((#[trigger] f1[i]).offset, f1[i].size_spec())),
                ) && !f1[i].size.is_allocated_spec() && f1[i].size_spec() >= 1 by {
                    if i != ki {
                        let i0 = if i < ki {
                            i
                        } else {
                            i - 1
                        };
                        assert(f1[i] == f0[i0]);
                        assert(old(self).block_in_heap(((f0[i0].offset, f0[i0].size_spec()))));
                        assert(f0[i0].size_spec() >= 1);
                    }
                }
                assert forall|i: int|
                    0 <= i < a0.len() implies self.block_in_heap(
                    (((#[trigger] a0[i]).offset, a0[i].size_spec())),
                ) && a0[i].size.is_allocated_spec() && a0[i].size_spec() >= 1 by {
                    assert(old(self).block_in_heap(((a0[i].offset, a0[i].size_spec()))));
                }
                assert forall|i: int, j: int|
                    0 <= i < f1.len() && 0 <= j < a0.len() implies Self::blocks_disjoint(
                    (((#[trigger] f1[i]).offset, f1[i].size_spec())),
                    (((#[trigger] a0[j]).offset, a0[j].size_spec())),
                ) by {
                    let aj = (a0[j].offset, a0[j].size_spec());
                    if i != ki {
                        let i0 = if i < ki {
                            i
                        } else {
                            i - 1
                        };
                        assert(f1[i] == f0[i0]);
                        assert(Self::blocks_disjoint(((f0[i0].offset, f0[i0].size_spec())), aj));
                    } else {
                        assert(Self::blocks_disjoint(
                            old(self).allocated_blocks()[j],
                            (block.offset, block.size_spec()),
                        ));
                        assert(old(self).allocated_blocks()[j] == aj);
                    }
                }
                assert forall|i: int, j: int| 0 <= i < j < a0.len() implies Self::blocks_disjoint(
                    (((#[trigger] a0[i]).offset, a0[i].size_spec())),
                    (((#[trigger] a0[j]).offset, a0[j].size_spec())),
                ) by {
                    assert(Self::blocks_disjoint(
                        ((a0[i].offset, a0[i].size_spec())),
                        ((a0[j].offset, a0[j].size_spec())),
                    ));
                }
                assert forall|i: int|
                    0 <= i < f1.len() implies (self.base_spec() + (#[trigger] f1[i]).offset) % (
                PORT_BYTE_ALIGNMENT as int) == 0 by {
                    if i == ki {
                        assert(f1[i] == block);
                    } else {
                        let i0 = if i < ki {
                            i
                        } else {
                            i - 1
                        };
                        assert(f1[i] == f0[i0]);
                        assert((old(self).base_spec() + f0[i0].offset) % (
                        PORT_BYTE_ALIGNMENT as int) == 0);
                    }
                }
                assert forall|i: int|
                    0 <= i < a0.len() implies (self.base_spec() + (#[trigger] a0[i]).offset) % (
                PORT_BYTE_ALIGNMENT as int) == 0 by {
                    assert((old(self).base_spec() + a0[i].offset) % (PORT_BYTE_ALIGNMENT as int)
                        == 0);
                }
            }
        }
    }

    /// A well-formed allocator's free list satisfies the ordering and
    /// bounds that the round-trip law assumes.
    pub proof fn lemma_wf_free_list_sorted(self)
        requires
            self.wf(),
            self.initialized_spec(),
        ensures
            free_list_sorted(self.free_blocks()),
    {
        let fb = self.free_blocks();
        assert forall|i: int, j: int| 0 <= i < j < fb.len() implies (#[trigger] fb[i]).0 + fb[i].1
            < (#[trigger] fb[j]).0 by {
            assert(self.free_list@[i].end_spec() < self.free_list@[j].offset);
        }
        assert forall|i: int| 0 <= i < fb.len() implies (#[trigger] fb[i]).1 >= 1 && fb[i].0
            + fb[i].1 <= usize::MAX by {
            assert(self.block_in_heap(
                ((self.free_list@[i].offset, self.free_list@[i].size_spec())),
            ));
            assert(self.free_list@[i].size_spec() >= 1);
        }
    }

    /// Free-list round trip, in full generality: whenever no allocation is
    /// live — so after any number of blocks of any sizes were allocated and
    /// every one of them freed again, in whatever order — the coalescing
    /// invariant has merged the free list back into the single block that
    /// initialization laid out: one node spanning the whole heap, holding
    /// exactly the initial capacity (headers included with their blocks).
    pub proof fn lemma_all_freed_single_block(self)
        requires
            self.wf(),
            self.initialized_spec(),
            self.allocated_blocks().len() == 0,
        ensures
            self.free_capacity() == self.end_spec() - self.blocks_start_spec(),
            self.end_spec() > self.blocks_start_spec() ==> self.free_blocks() == seq![
                ((self.blocks_start_spec() as usize, (self.end_spec()
                    - self.blocks_start_spec()) as usize)),
            ],
            self.end_spec() == self.blocks_start_spec() ==> self.free_blocks().len() == 0,
    {
        let fb = self.free_blocks();
        let lo = self.blocks_start_spec();
        let hi = self.end_spec() as int;
        assert(sum_block_sizes(self.allocated_blocks()) == 0);
        assert forall|i: int, j: int| 0 <= i < j < fb.len() implies (#[trigger] fb[i]).0 + fb[i].1
            < (#[trigger] fb[j]).0 by {
            assert(self.free_list@[i].end_spec() < self.free_list@[j].offset);
        }
        assert forall|i: int|
            0 <= i < fb.len() implies lo <= (#[trigger] fb[i]).0 && fb[i].0 + fb[i].1 <= hi
            && fb[i].1 >= 1 by {
            assert(self.block_in_heap(
                ((self.free_list@[i].offset, self.free_list@[i].size_spec())),
            ));
            assert(self.free_list@[i].size_spec() >= 1);
        }
        lemma_blocks_sum_packed(fb, lo, hi);
        if hi > lo {
            assert(fb =~= seq![((lo as usize, (hi - lo) as usize))]);
        }
    }

    /// On the coalesced single-block state that a full drain leaves behind,
    /// first-fit finds that block immediately for every request whose total
    /// size fits it — so a request larger than any individual freed block
    /// succeeds, provided only that it fits the merged capacity.
    pub proof fn lemma_single_block_serves(start: usize, cap: usize, total: int)
        requires
            0 < total <= cap,
        ensures
            spec_first_fit(seq![((start, cap))], total) == 0,
    {
    }

    /// Frees the block whose usable bytes start at `ptr`: the header sits
    /// immediately before it. A pointer that no live allocation matches — a
    /// double free, a stale or foreign pointer — is rejected with an error,
    /// unconditionally. Otherwise the block is untagged and linked back
    /// into the free list in address order, coalescing with whichever
    /// byte-adjacent neighbors are free.
    #[verifier::rlimit(60)]
    pub fn free(&mut self, ptr: usize, _layout: Layout) -> (r: Result<(), ExperimentalAllocError>)
        requires
            old(self).wf(),
        ensures
            final(self).wf(),
            final(self).base_spec() == old(self).base_spec(),
            final(self).len_spec() == old(self).len_spec(),
            final(self).initialized_spec() == old(self).initialized_spec(),
            final(self).end_spec() == old(self).end_spec(),
            final(self).blocks_start_spec() == old(self).blocks_start_spec(),
            ({
                let a0 = old(self).allocated_blocks();
                let off = ptr - old(self).base_spec() - HEAP_STRUCT_SIZE;
                let ai = spec_find_block(a0, off);
                if ptr < old(self).base_spec() + HEAP_STRUCT_SIZE || ai == a0.len() {
                    (r matches Err(e) && e.0@ == "Double free or corruption detected"@)
                        && *final(self) == *old(self)
                } else {
                    let sz = a0[ai].1;
                    let free0 = old(self).free_blocks();
                    let k = spec_insert_pos(free0, off);
                    let merge_left = k > 0 && free0[k - 1].0 + free0[k - 1].1 == off;
                    let merge_right = k < free0.len() && off + sz == free0[k].0;
                    r is Ok && final(self).allocated_blocks() == a0.remove(ai)
                        && final(self).free_capacity() == old(self).free_capacity() + sz
                        && sum_block_sizes(final(self).allocated_blocks())
                        + final(self).free_capacity() == sum_block_sizes(
                        old(self).allocated_blocks(),
                    ) + old(self).free_capacity() && final(self).free_blocks() == if merge_left
                        && merge_right {
                        free0.update(
                            k - 1,
                            (free0[k - 1].0, (free0[k - 1].1 + sz + free0[k].1) as usize),
                        ).remove(k)
                    } else if merge_left {
                        free0.update(k - 1, (free0[k - 1].0, (free0[k - 1].1 + sz) as usize))
                    } else if merge_right {
                        free0.update(k, ((off as usize, (sz + free0[k].1) as usize)))
                    } else {
                        free0.insert(k, ((off as usize, sz)))
                    }
                }
            }),
    {
        let base = self.mem.as_unaligned_ptr();
        if ptr < HEAP_STRUCT_SIZE || ptr - HEAP_STRUCT_SIZE < base {
            proof {
                lemma_find_block(
                    old(self).allocated_blocks(),
                    ptr - old(self).base_spec() - HEAP_STRUCT_SIZE,
                );
            }
            return Err(ExperimentalAllocError("Double free or corruption detected"));
        }
        let block_off = ptr - HEAP_STRUCT_SIZE - base;

        let n = self.allocated.len();
        let ghost a0 = self.allocated_blocks();
        proof {
            lemma_find_block(a0, block_off as int);
        }
        let mut ai: usize = 0;
        while ai < n && self.allocated[ai].offset != block_off
            invariant
                *self == *old(self),
                n == self.allocated@.len(),
                a0 == self.allocated_blocks(),
                ai <= n,
                forall|j: int| 0 <= j < ai ==> (#[trigger] a0[j]).0 != block_off,
            decreases n - ai,
        {
            ai = ai + 1;
        }
        proof {
            let fi = spec_find_block(a0, block_off as int);
            if (ai as int) < fi {
                assert(a0[ai as int].0 != block_off);
                assert(a0[ai as int] == (self.allocated@[ai as int].offset,
                self.allocated@[ai as int].size_spec()));
                assert(false);
            }
            if fi < ai as int {
                assert(a0[fi].0 != block_off);
                assert(a0[fi].0 == block_off);
                assert(false);
            }
        }
        if ai == n {
            return Err(ExperimentalAllocError("Double free or corruption detected"));
        }

        let mut blk = self.allocated.remove(ai);
        free_block(&mut blk);
        proof {
            assert(self.allocated_blocks() =~= a0.remove(ai as int));
            lemma_sum_remove(a0, ai as int);
            let f0 = old(self).free_list@;
            let arest = self.allocated@;
            let oa = old(self).allocated@;
            let ki = ai as int;
            assert(blk.offset == oa[ki].offset && blk.size_spec() == oa[ki].size_spec());
            assert(old(self).block_in_heap(((oa[ki].offset, oa[ki].size_spec()))));
            assert forall|i: int|
                0 <= i < self.free_blocks().len() implies Self::blocks_disjoint(
                #[trigger] self.free_blocks()[i],
                (blk.offset, blk.size_spec()),
            ) by {
                assert(Self::blocks_disjoint(
                    ((f0[i].offset, f0[i].size_spec())),
                    ((oa[ki].offset, oa[ki].size_spec())),
                ));
                assert(self.free_blocks()[i] == (f0[i].offset, f0[i].size_spec()));
            }
            assert forall|j: int|
                0 <= j < self.allocated_blocks().len() implies Self::blocks_disjoint(
                #[trigger] self.allocated_blocks()[j],
                (blk.offset, blk.size_spec()),
            ) by {
                let j0 = if j < ki {
                    j
                } else {
                    j + 1
                };
                assert(arest[j] == oa[j0]);
                if j0 < ki {
                    assert(Self::blocks_disjoint(
                        ((oa[j0].offset, oa[j0].size_spec())),
                        ((oa[ki].offset, oa[ki].size_spec())),
                    ));
                } else {
                    assert(Self::blocks_disjoint(
                        ((oa[ki].offset, oa[ki].size_spec())),
                        ((oa[j0].offset, oa[j0].size_spec())),
                    ));
                }
                assert(self.allocated_blocks()[j] == (arest[j].offset, arest[j].size_spec()));
            }
            assert(self.allocated@.len() < oa.len());
            assert(old(self).initialized_spec());
        }
        self.insert_block_into_free_list(blk);
        Ok(())
    }
}

} // verus!
