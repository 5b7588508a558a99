use region_alloc::aligned_raw_slice::AlignedMutRawSlice;
use region_alloc::nonstandard_slices::BaseAddress;
use region_alloc::nonstandard_slices::ByAddrConst;
use region_alloc::nonstandard_slices::ByAddrMut;
use region_alloc::nonstandard_slices::OffsetAddr;
use region_alloc::nonstandard_slices::OffsetSlice;
use region_alloc::backing_alloc::BackingAllocation;
use region_alloc::const_allocator_shared::get_alignment_of_addr;
use region_alloc::const_allocator_shared::next_aligned_addr;
use region_alloc::const_allocator_shared::Layout;
use region_alloc::const_vec::ConstRawVec;
use region_alloc::const_vec::ConstVec;
use region_alloc::experimental_allocator::ExperimentalAllocator;
use region_alloc::stack_allocator::StackAllocator;
use region_alloc::unaligned_const_allocator::UnalignedConstStackAllocator;
use region_alloc::unaligned_generic_buffer::UnalignedGenericBuffer;

#[test]
fn next_aligned_addr_values() {
    assert_eq!(next_aligned_addr(0, 1), 0);
    assert_eq!(next_aligned_addr(0, 8), 0);
    assert_eq!(next_aligned_addr(5, 8), 8);
    assert_eq!(next_aligned_addr(8, 8), 8);
    assert_eq!(next_aligned_addr(13, 4), 16);
    assert_eq!(next_aligned_addr(17, 16), 32);
}

#[test]
fn alignment_of_addr_values() {
    assert_eq!(get_alignment_of_addr(0), 1);
    assert_eq!(get_alignment_of_addr(1), 1);
    assert_eq!(get_alignment_of_addr(6), 2);
    assert_eq!(get_alignment_of_addr(8), 8);
    assert_eq!(get_alignment_of_addr(24), 8);
    assert_eq!(get_alignment_of_addr(1024), 1024);
}

#[test]
fn layout_rejects_bad_alignment() {
    assert!(Layout::from_size_align(16, 0).is_none());
    assert!(Layout::from_size_align(16, 3).is_none());
    assert!(Layout::from_size_align(16, 8).is_some());
}

#[test]
fn backing_allocation_poisons_and_releases() {
    let region = BackingAllocation::from_unique_slice(vec![1u8, 2, 3, 4], 100);
    assert_eq!(region.len(), 4);
    assert!(!region.is_empty());
    assert_eq!(region.as_ptr(), 100);
    assert_eq!(region.as_slice(), &[0xAA, 0xAA, 0xAA, 0xAA]);
    let mut region = region;
    region.as_mut_slice()[0] = 7;
    assert_eq!(region.as_slice(), &[7, 0xAA, 0xAA, 0xAA]);
    let bytes = region.into_inner();
    assert_eq!(bytes, vec![7, 0xAA, 0xAA, 0xAA]);
}

#[test]
fn unaligned_buffer_valid_len_under_any_base() {
    // at base 0 no padding is ever needed
    let buf: UnalignedGenericBuffer<u32> = UnalignedGenericBuffer::from_unique_slice(
        vec![0u8; 10],
        0,
    );
    assert_eq!(buf.valid_len(), 2);
    assert_eq!(buf.unaligned_len(), 2);

    // an unaligned base costs padding before the first element
    let buf: UnalignedGenericBuffer<u32> = UnalignedGenericBuffer::from_unique_slice(
        vec![0u8; 10],
        2,
    );
    assert_eq!(buf.valid_len(), 2);

    // padding alone can exhaust a small region
    let buf: UnalignedGenericBuffer<u32> = UnalignedGenericBuffer::from_unique_slice(
        vec![0u8; 2],
        1,
    );
    assert_eq!(buf.valid_len(), 0);
}

#[test]
fn aligned_views_report_aligned_start() {
    let buf: UnalignedGenericBuffer<u32> = UnalignedGenericBuffer::from_unique_slice(
        vec![0u8; 16],
        4,
    );
    assert_eq!(buf.as_unaligned_ptr(), 4);
    assert_eq!(buf.as_next_aligned_ptr(), 4);
    let view = buf.as_aligned_raw_slice();
    assert_eq!(view.as_ptr(), 4);
    assert_eq!(view.len(), 4);
    assert!(!view.is_empty());

    let view: AlignedMutRawSlice<u64> = AlignedMutRawSlice::from_unique_slice(vec![0u8; 20], 4);
    assert_eq!(view.as_ptr(), 8);
    assert_eq!(view.len(), 2);
}

#[test]
fn bump_allocator_scenario() {
    // a 1024-byte region; three blocks allocated in order all succeed and
    // sit back to back
    let mut alloc = StackAllocator::from_unique_slice(vec![0u8; 1024], 0);
    let a = alloc.alloc_fallible(Layout::from_size_align(100, 1).unwrap()).unwrap();
    let b = alloc.alloc_fallible(Layout::from_size_align(200, 1).unwrap()).unwrap();
    let c = alloc.alloc_fallible(Layout::from_size_align(300, 1).unwrap()).unwrap();
    assert_eq!(a, 0);
    assert_eq!(b, 100);
    assert_eq!(c, 300);

    // freeing the middle block does not move the cursor: the next
    // allocation comes from beyond the last block's end, not from the hole
    alloc.dealloc(b, Layout::from_size_align(200, 1).unwrap());
    let d = alloc.alloc_fallible(Layout::from_size_align(150, 1).unwrap()).unwrap();
    assert_eq!(d, 600);
}

#[test]
fn bump_allocator_lifo_reclaim() {
    let mut alloc = StackAllocator::from_unique_slice(vec![0u8; 512], 0);
    let a = alloc.alloc_fallible(Layout::from_size_align(100, 1).unwrap()).unwrap();
    let b = alloc.alloc_fallible(Layout::from_size_align(60, 1).unwrap()).unwrap();
    let c = alloc.alloc_fallible(Layout::from_size_align(40, 1).unwrap()).unwrap();

    // freeing in reverse order rewinds the cursor all the way back:
    // allocating again hands out the very first address
    alloc.dealloc(c, Layout::from_size_align(40, 1).unwrap());
    alloc.dealloc(b, Layout::from_size_align(60, 1).unwrap());
    alloc.dealloc(a, Layout::from_size_align(100, 1).unwrap());
    let again = alloc.alloc_fallible(Layout::from_size_align(1, 1).unwrap()).unwrap();
    assert_eq!(again, 0);
}

#[test]
fn bump_allocator_non_top_free_leaks() {
    let mut alloc = StackAllocator::from_unique_slice(vec![0u8; 512], 0);
    let a = alloc.alloc_fallible(Layout::from_size_align(100, 1).unwrap()).unwrap();
    let _b = alloc.alloc_fallible(Layout::from_size_align(60, 1).unwrap()).unwrap();

    // freeing the bottom block first is a no-op: the next allocation still
    // comes from the top
    alloc.dealloc(a, Layout::from_size_align(100, 1).unwrap());
    let next = alloc.alloc_fallible(Layout::from_size_align(8, 1).unwrap()).unwrap();
    assert_eq!(next, 160);
}

#[test]
fn bump_allocator_alignment_padding() {
    let mut alloc = StackAllocator::from_unique_slice(vec![0u8; 512], 0);
    let a = alloc.alloc_fallible(Layout::from_size_align(3, 1).unwrap()).unwrap();
    assert_eq!(a, 0);
    let b = alloc.alloc_fallible(Layout::from_size_align(8, 8).unwrap()).unwrap();
    assert_eq!(b, 8);
    assert_eq!(b % 8, 0);
}

#[test]
fn bump_allocator_out_of_memory() {
    let mut alloc = StackAllocator::from_unique_slice(vec![0u8; 64], 0);
    let r = alloc.alloc_fallible(Layout::from_size_align(65, 1).unwrap());
    assert!(r.is_err());
    // the failed attempt leaves the allocator usable
    let r = alloc.alloc_fallible(Layout::from_size_align(64, 1).unwrap());
    assert!(r.is_ok());
}

#[test]
fn bump_allocator_zeroing_and_release() {
    let mut alloc = StackAllocator::from_unique_slice(vec![0u8; 8], 0);
    let a = alloc.alloc_zeroed_fallible(Layout::from_size_align(4, 1).unwrap()).unwrap();
    assert_eq!(a, 0);
    let region = alloc.into_inner();
    assert_eq!(region.as_slice(), &[0, 0, 0, 0, 0xAA, 0xAA, 0xAA, 0xAA]);
}

#[test]
fn bump_allocator_realloc_in_place_and_copy() {
    let mut alloc = StackAllocator::from_unique_slice(vec![0u8; 256], 0);
    let a = alloc.alloc_fallible(Layout::from_size_align(16, 1).unwrap()).unwrap();
    // growing the topmost block keeps its address
    let a2 = alloc
        .realloc_fallible(
            a,
            Layout::from_size_align(16, 1).unwrap(),
            Layout::from_size_align(32, 1).unwrap(),
        )
        .unwrap();
    assert_eq!(a2, a);
    // shrinking the topmost block keeps its address too
    let a3 = alloc
        .realloc_fallible(
            a2,
            Layout::from_size_align(32, 1).unwrap(),
            Layout::from_size_align(8, 1).unwrap(),
        )
        .unwrap();
    assert_eq!(a3, a);
    // a non-top block moves: the new block comes from the cursor
    let b = alloc.alloc_fallible(Layout::from_size_align(8, 1).unwrap()).unwrap();
    assert_eq!(b, 8);
    let a4 = alloc
        .realloc_fallible(
            a3,
            Layout::from_size_align(8, 1).unwrap(),
            Layout::from_size_align(24, 1).unwrap(),
        )
        .unwrap();
    assert_eq!(a4, 16);
}

#[test]
fn free_list_scenario() {
    // a free-list allocator over 1024 bytes: a 100-byte block succeeds, a
    // 1024-byte block cannot fit, and after freeing the 100-byte block the
    // coalesced space carries a 900-byte allocation
    let mut alloc = ExperimentalAllocator::from_unique_slice(vec![0u8; 1024], 0);
    let a = alloc.allocate(Layout::from_size_align(100, 1).unwrap());
    assert!(a.is_ok());
    let big = alloc.allocate(Layout::from_size_align(1024, 1).unwrap());
    assert!(big.is_err());
    alloc.free(a.unwrap(), Layout::from_size_align(100, 1).unwrap()).unwrap();
    let merged = alloc.allocate(Layout::from_size_align(900, 1).unwrap());
    assert!(merged.is_ok());
}

#[test]
fn free_list_rejects_zero_size() {
    let mut alloc = ExperimentalAllocator::from_unique_slice(vec![0u8; 1024], 0);
    let r = alloc.allocate(Layout::from_size_align(0, 1).unwrap());
    assert_eq!(r.unwrap_err().0, "requested allocation size is zero");
}

#[test]
fn free_list_rejects_oversized_total() {
    let mut alloc = ExperimentalAllocator::from_unique_slice(vec![0u8; 1024], 0);
    let r = alloc.allocate(Layout::from_size_align(isize::MAX as usize - 8, 8).unwrap());
    assert_eq!(r.unwrap_err().0, "allocation size overflowed usize or MSB set");
}

#[test]
fn free_list_uninitialized_when_too_small() {
    let mut alloc = ExperimentalAllocator::from_unique_slice(vec![0u8; 16], 0);
    let r = alloc.allocate(Layout::from_size_align(1, 1).unwrap());
    assert_eq!(r.unwrap_err().0, "free list is not initialized or buffer too small");
}

#[test]
fn free_list_double_free_detected() {
    let mut alloc = ExperimentalAllocator::from_unique_slice(vec![0u8; 1024], 0);
    let a = alloc.allocate(Layout::from_size_align(64, 1).unwrap()).unwrap();
    assert!(alloc.free(a, Layout::from_size_align(64, 1).unwrap()).is_ok());
    let second = alloc.free(a, Layout::from_size_align(64, 1).unwrap());
    assert_eq!(second.unwrap_err().0, "Double free or corruption detected");
}

#[test]
fn free_list_foreign_pointer_detected() {
    let mut alloc = ExperimentalAllocator::from_unique_slice(vec![0u8; 1024], 0);
    let _a = alloc.allocate(Layout::from_size_align(64, 1).unwrap()).unwrap();
    let r = alloc.free(5, Layout::from_size_align(64, 1).unwrap());
    assert_eq!(r.unwrap_err().0, "Double free or corruption detected");
}

#[test]
fn free_list_round_trip_capacity() {
    // blocks of varying sizes, freed in an order other than allocation
    // order, coalesce back: the whole region serves one big allocation again
    let mut alloc = ExperimentalAllocator::from_unique_slice(vec![0u8; 1024], 0);
    let whole_before = {
        let mut probe = ExperimentalAllocator::from_unique_slice(vec![0u8; 1024], 0);
        probe.allocate(Layout::from_size_align(900, 1).unwrap()).unwrap()
    };
    let a = alloc.allocate(Layout::from_size_align(100, 1).unwrap()).unwrap();
    let b = alloc.allocate(Layout::from_size_align(50, 1).unwrap()).unwrap();
    let c = alloc.allocate(Layout::from_size_align(200, 1).unwrap()).unwrap();
    alloc.free(b, Layout::from_size_align(50, 1).unwrap()).unwrap();
    alloc.free(a, Layout::from_size_align(100, 1).unwrap()).unwrap();
    alloc.free(c, Layout::from_size_align(200, 1).unwrap()).unwrap();
    // a block larger than any individual freed block, possible only because
    // adjacent freed blocks merged into one node
    let merged = alloc.allocate(Layout::from_size_align(900, 1).unwrap()).unwrap();
    assert_eq!(merged, whole_before);
}

#[test]
fn const_allocator_ignores_alignment() {
    let mut alloc = UnalignedConstStackAllocator::from_unique_slice(vec![0u8; 64], 0);
    let a = alloc.alloc_const_unaligned_fallible(Layout::from_size_align(3, 1).unwrap()).unwrap();
    let b = alloc.alloc_const_unaligned_fallible(Layout::from_size_align(8, 8).unwrap()).unwrap();
    // no padding: the second block starts right after the first
    assert_eq!(a, 0);
    assert_eq!(b, 3);
}

#[test]
fn const_allocator_lifo_and_exhaustion() {
    let mut alloc = UnalignedConstStackAllocator::from_unique_slice(vec![0u8; 32], 0);
    let a = alloc.alloc_const_unaligned_fallible(Layout::from_size_align(16, 1).unwrap()).unwrap();
    let b = alloc.alloc_const_unaligned_fallible(Layout::from_size_align(16, 1).unwrap()).unwrap();
    assert!(alloc.alloc_const_unaligned_fallible(Layout::from_size_align(1, 1).unwrap()).is_err());
    alloc.dealloc_const_unaligned(b, Layout::from_size_align(16, 1).unwrap());
    alloc.dealloc_const_unaligned(a, Layout::from_size_align(16, 1).unwrap());
    let again = alloc.alloc_const_unaligned_fallible(Layout::from_size_align(32, 1).unwrap());
    assert_eq!(again.unwrap(), 0);
}

#[test]
fn append_only_vector_growth_and_reverse_drain() {
    let memory = vec![0u8; 4096];
    let mut alloc = UnalignedConstStackAllocator::from_unique_slice(memory, 0);
    let mut v: ConstVec<u32> = ConstVec::new_const(&mut alloc);
    for i in 0..100u32 {
        v.push_const(&mut alloc, i);
        assert_eq!(v.len(), (i + 1) as usize);
    }
    for i in (0..100u32).rev() {
        assert_eq!(v.pop_const(), Some(i));
    }
    assert!(v.is_empty());
    assert_eq!(v.pop_const(), None);
    v.drop(&mut alloc);
}

#[test]
fn append_only_vector_empty_escape() {
    let memory = vec![0u8; 64];
    let mut alloc = UnalignedConstStackAllocator::from_unique_slice(memory, 0);
    let v: ConstVec<u32> = ConstVec::new_const(&mut alloc);
    let out = v.into_const_allocated();
    assert!(out.is_empty());
}

#[test]
fn offsets_resolve_against_a_base() {
    let mut base = BaseAddress::from_ptr_len(1000, 64);
    assert_eq!(base.base_const(), 1000);
    assert_eq!(base.base_mut(), 1000);
    assert_eq!(base.len(), 64);
    assert!(!base.is_empty());

    let off = OffsetAddr::from_offset(24);
    assert_eq!(off.by_addr(base), 1024);
    let mut span = OffsetSlice::from_offset_len(off, 8);
    assert_eq!(span.len(), 8);
    assert!(!span.is_empty());
    assert_eq!(span.by_addr(base), 1024);
    assert_eq!(span.by_addr_mut(base), 1024);
}

#[test]
fn bump_allocator_infallible_paths() {
    let mut alloc = StackAllocator::from_unique_slice(vec![0u8; 128], 0);
    let a = alloc.alloc_infallible(Layout::from_size_align(8, 1).unwrap());
    assert_eq!(a, 0);
    let b = alloc.alloc_zeroed(Layout::from_size_align(8, 1).unwrap());
    assert_eq!(b, 8);
    let b2 = alloc.realloc(
        b,
        Layout::from_size_align(8, 1).unwrap(),
        Layout::from_size_align(16, 1).unwrap(),
    );
    assert_eq!(b2, b);
    let region = alloc.into_inner();
    assert_eq!(&region.as_slice()[8..16], &[0, 0, 0, 0, 0, 0, 0, 0]);
}

#[test]
fn raw_vec_reservation_and_growth() {
    let mut alloc = UnalignedConstStackAllocator::from_unique_slice(vec![0u8; 256], 0);
    let mut raw: ConstRawVec<u32> = ConstRawVec::with_capacity_const_in(4, &mut alloc);
    // doubling: the next block holds eight elements
    raw.grow_const(&mut alloc);
    raw.drop(&mut alloc);
    let raw2: ConstRawVec<u32> = ConstRawVec::new_const_in(&mut alloc);
    raw2.drop(&mut alloc);
}

#[test]
fn const_allocator_realloc_paths() {
    let mut alloc = UnalignedConstStackAllocator::from_unique_slice(vec![0u8; 64], 0);
    let a = alloc.alloc_const_unaligned(Layout::from_size_align(16, 1).unwrap());
    assert_eq!(a, 0);
    // topmost block grows in place
    let a2 = alloc.realloc_const_unaligned(
        a,
        Layout::from_size_align(16, 1).unwrap(),
        Layout::from_size_align(24, 1).unwrap(),
    );
    assert_eq!(a2, a);
    // topmost block shrinks in place
    let a3 = alloc
        .realloc_const_unaligned_fallible(
            a2,
            Layout::from_size_align(24, 1).unwrap(),
            Layout::from_size_align(8, 1).unwrap(),
        )
        .unwrap();
    assert_eq!(a3, a);
    // a buried block moves to the cursor
    let b = alloc.alloc_const_unaligned(Layout::from_size_align(8, 1).unwrap());
    assert_eq!(b, 8);
    let a4 = alloc
        .realloc_const_unaligned_fallible(
            a3,
            Layout::from_size_align(8, 1).unwrap(),
            Layout::from_size_align(12, 1).unwrap(),
        )
        .unwrap();
    assert_eq!(a4, 16);
}

#[test]
fn free_list_geometry_under_any_base() {
    // an unaligned base still initializes: the heap start rounds up and the
    // end sentinel rounds to the alignment below the top
    let mut alloc = ExperimentalAllocator::from_unique_slice(vec![0u8; 100], 4);
    let a = alloc.allocate(Layout::from_size_align(8, 1).unwrap());
    // first block at offset 20, usable bytes one header later
    assert_eq!(a.unwrap(), 4 + 20 + 16);

    // a region with no room for the sentinels stays uninitialized
    let mut tiny = ExperimentalAllocator::from_unique_slice(vec![0u8; 16], 0);
    let r = tiny.allocate(Layout::from_size_align(1, 1).unwrap());
    assert_eq!(r.unwrap_err().0, "free list is not initialized or buffer too small");
}

#[test]
fn free_list_addresses_block_aligned() {
    let mut alloc = ExperimentalAllocator::from_unique_slice(vec![0u8; 1024], 0);
    let a = alloc.allocate(Layout::from_size_align(5, 1).unwrap()).unwrap();
    let b = alloc.allocate(Layout::from_size_align(23, 2).unwrap()).unwrap();
    let c = alloc.allocate(Layout::from_size_align(64, 16).unwrap()).unwrap();
    assert_eq!(a % 8, 0);
    assert_eq!(b % 8, 0);
    assert_eq!(c % 8, 0);
}
