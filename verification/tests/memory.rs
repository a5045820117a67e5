use compile::memory::{aligned_size, KernelAllocator};

#[test]
fn aligned_size_rounds_up() {
    assert_eq!(aligned_size(0, 8), 0);
    assert_eq!(aligned_size(1, 8), 8);
    assert_eq!(aligned_size(8, 8), 8);
    assert_eq!(aligned_size(9, 8), 16);
    assert_eq!(aligned_size(5, 1), 5);
}

#[test]
fn first_fit_allocation() {
    let mut heap = KernelAllocator::new();
    heap.init(0x1000, 0x1100);
    assert_eq!(heap.allocate(16, 8), 0x1000);
    assert_eq!(heap.allocate(10, 8), 0x1010);
    assert_eq!(heap.allocate(8, 8), 0x1020);
    // 0x1028..0x1100 is left: 216 bytes
    assert_eq!(heap.allocate(512, 8), 0);
    assert_eq!(heap.allocate(216, 8), 0x1028);
    // the heap is used up
    assert_eq!(heap.allocate(1, 1), 0);
}

#[test]
fn allocations_do_not_overlap() {
    let mut heap = KernelAllocator::new();
    heap.init(0x2000, 0x3000);
    let a = heap.allocate(100, 16);
    let b = heap.allocate(30, 4);
    assert!(a + 112 <= b);
    heap.dealloc(a, 100);
    // freed blocks are not handed out again
    let c = heap.allocate(4, 4);
    assert!(c >= b + 32);
}

#[test]
fn uninitialised_heap_hands_out_address_zero() {
    let mut heap = KernelAllocator::new();
    assert_eq!(heap.allocate(0, 1), 0);
    assert_eq!(heap.allocate(8, 8), 0);
}

#[test]
fn free_bytes_drop_by_rounded_size() {
    let mut heap = KernelAllocator::new();
    heap.init(0x1000, 0x1100);
    // 10 bytes at alignment 16 take 16 of the 256 free bytes
    assert_eq!(heap.allocate(10, 16), 0x1000);
    // exactly the 240 remaining bytes are left
    assert_eq!(heap.allocate(241, 1), 0);
    assert_eq!(heap.allocate(240, 1), 0x1010);
    assert_eq!(heap.allocate(1, 1), 0);
}
