use region_alloc::const_allocator_shared::Layout;
use region_alloc::const_vec::ConstVec;
use region_alloc::experimental_allocator::ExperimentalAllocError;
use region_alloc::experimental_allocator::ExperimentalAllocator;
use region_alloc::slice_allocator::SingleThreadedSliceAllocator;
use region_alloc::unaligned_const_allocator::UnalignedConstStackAllocator;

fn create_allocator(buf_size: usize) -> ExperimentalAllocator {
    let mem = vec![0u8; buf_size];
    ExperimentalAllocator::from_unique_slice(mem, 0)
}

#[test]
fn const_vec_test() {
    region_alloc::const_vec::test()
}

#[test]
fn test_alloc_and_free() {
    let mut allocator = create_allocator(1024);
    let alloc_ptr = allocator.allocate(Layout::from_size_align(100, 1).unwrap());
    assert!(alloc_ptr.is_ok(), "Allocation should succeed: {:?}", alloc_ptr.err());
    let ptr = alloc_ptr.unwrap();
    allocator.free(ptr, Layout::from_size_align(100, 1).unwrap()).unwrap();
    let alloc_ptr2 = allocator.allocate(Layout::from_size_align(100, 1).unwrap());
    assert!(alloc_ptr2.is_ok(), "Allocation after free should succeed: {:?}", alloc_ptr2.err());
}

#[test]
fn test_allocation_too_big() {
    let mut allocator = create_allocator(64);
    let alloc_ptr = allocator.allocate(Layout::from_size_align(1024, 1).unwrap());
    assert!(alloc_ptr.is_err(), "Allocation should fail for too big request");
    if let Err(ExperimentalAllocError(msg)) = alloc_ptr {
        assert!(msg == "no suitable free block found" || msg == "free list is not initialized or buffer too small");
    } else {
        panic!("Expected ExperimentalAllocError");
    }
}

#[test]
fn test_allocates_multiple_blocks() {
    let mut allocator = create_allocator(1024);
    let block1 = allocator.allocate(Layout::from_size_align(100, 1).unwrap());
    let block2 = allocator.allocate(Layout::from_size_align(200, 1).unwrap());
    let block3 = allocator.allocate(Layout::from_size_align(300, 1).unwrap());
    assert!(block1.is_ok(), "Block1 allocation should succeed");
    assert!(block2.is_ok(), "Block2 allocation should succeed");
    assert!(block3.is_ok(), "Block3 allocation should succeed");
    let ptr2 = block2.unwrap();
    allocator.free(ptr2, Layout::from_size_align(200, 1).unwrap()).unwrap();
    let block4 = allocator.allocate(Layout::from_size_align(150, 1).unwrap());
    assert!(block4.is_ok(), "Block4 allocation should succeed using freed space");
}

#[test]
fn tests_const_vec_test() {
    let memory = vec![0u8; 1024];
    let mut allocator = UnalignedConstStackAllocator::from_unique_slice(memory, 0);

    let mut constvec: ConstVec<u32> = ConstVec::new_const(&mut allocator);

    constvec.push_const(&mut allocator, 1);
    constvec.push_const(&mut allocator, 2);
    constvec.push_const(&mut allocator, 3);
    constvec.push_const(&mut allocator, 4);

    let mut another_const_vec: ConstVec<u64> = ConstVec::with_capacity_const_in(4, &mut allocator);
    another_const_vec.push_const(&mut allocator, 1);
    another_const_vec.push_const(&mut allocator, 2);

    assert!(constvec.len() == 4);
    match constvec.pop_const() {
        Some(value) => assert!(value == 4),
        None => panic!("pop failed"),
    }
    assert!(constvec.len() == 3);
    match constvec.pop_const() {
        Some(value) => assert!(value == 3),
        None => panic!("pop failed"),
    }
    assert!(constvec.len() == 2);
    match constvec.pop_const() {
        Some(value) => assert!(value == 2),
        None => panic!("pop failed"),
    }
    assert!(constvec.len() == 1);
    match constvec.pop_const() {
        Some(value) => assert!(value == 1),
        None => panic!("pop failed"),
    }
    assert!(constvec.is_empty());
    if let Some(_value) = constvec.pop_const() {
        panic!("pop should not return a value");
    }

    constvec.drop(&mut allocator);
    another_const_vec.drop(&mut allocator);
}

#[test]
fn runtime_comptime_interaction_test() {
    let rt_memory: Vec<u8> = vec![0; 1024];
    let mut alloc = UnalignedConstStackAllocator::from_unique_slice(rt_memory, 0);

    let mut constvec: ConstVec<u32> = ConstVec::new_const(&mut alloc);
    constvec.push_const(&mut alloc, 1);
    constvec.push_const(&mut alloc, 2);

    let mut rtvec: Vec<u32> = vec![];

    rtvec.push(constvec.pop_const().unwrap());
    rtvec.push(constvec.pop_const().unwrap());

    assert_eq!(rtvec.len(), 2);
    rtvec.clear();
}

#[test]
fn into_actual_const_allocated_test() {
    let memory = vec![0u8; 1024];
    let mut allocator = UnalignedConstStackAllocator::from_unique_slice(memory, 0);

    let mut constvec: ConstVec<u32> = ConstVec::new_const(&mut allocator);

    constvec.push_const(&mut allocator, 1);
    constvec.push_const(&mut allocator, 2);
    constvec.push_const(&mut allocator, 3);
    constvec.push_const(&mut allocator, 4);

    let slice = constvec.into_const_allocated();
    assert_eq!(slice.len(), 4);
    assert_eq!(slice[0], 1);
    assert_eq!(slice[1], 2);
    assert_eq!(slice[2], 3);
    assert_eq!(slice[3], 4);
}

#[test]
fn slice_allocator_runtime_test() {
    let val = slice_allocator_runtime();
    assert!(val == 15);
}

fn slice_allocator_runtime() -> u64 {
    let rt_memory = vec![0u8; 1024];
    let mut alloc = SingleThreadedSliceAllocator::from_unique_slice(rt_memory, 0);

    let block = alloc
        .allocate(Layout::from_size_align(32, 1).unwrap())
        .expect("first block should fit");
    let mut subvec: Vec<u8> = Vec::with_capacity(32);
    for i in 0..32 {
        subvec.push(i as u8);
    }

    let sum = subvec.iter().fold(0, |acc, &x| acc + x as u64);
    subvec.clear();
    alloc.deallocate(block, Layout::from_size_align(32, 1).unwrap());

    let block2 = alloc
        .allocate(Layout::from_size_align(32, 2).unwrap())
        .expect("second block should fit");
    let block3 = alloc
        .allocate(Layout::from_size_align(64, 4).unwrap())
        .expect("third block should fit");
    let mut subvec2: Vec<u16> = Vec::with_capacity(16);
    let mut subvec3: Vec<u32> = Vec::with_capacity(16);
    for i in 0..16 {
        subvec2.push(i as u16);
        subvec3.push(i as u32);
    }

    let sum2 = subvec2.iter().fold(0, |acc, &x| acc + x as u64);
    let sum3 = subvec3.iter().fold(0, |acc, &x| acc + x as u64);

    alloc.deallocate(block3, Layout::from_size_align(64, 4).unwrap());
    alloc.deallocate(block2, Layout::from_size_align(32, 2).unwrap());

    if sum + sum2 + sum3 != 0 { 15 } else { 0 }
}
