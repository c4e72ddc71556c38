use rusty_lightning::memory::{MemoryLimitingAllocator, TOTAL_MEM_LIMIT_BYTES};

#[test]
fn the_limit_is_128_mebibytes() {
    assert_eq!(TOTAL_MEM_LIMIT_BYTES, 134_217_728);
}

#[test]
fn memory_is_granted_up_to_the_limit() {
    let mut allocator = MemoryLimitingAllocator::new();
    assert!(allocator.allocate(TOTAL_MEM_LIMIT_BYTES - 1));
    assert!(!allocator.allocate(2));
    assert!(allocator.allocate(1));
    assert!(allocator.allocate(0));
    assert!(!allocator.allocate(1));
    assert_eq!(allocator.allocd, TOTAL_MEM_LIMIT_BYTES);
    allocator.deallocate(10);
    assert!(!allocator.allocate(11));
    assert!(allocator.allocate(10));
}

#[test]
fn a_piece_over_the_limit_is_refused() {
    let mut allocator = MemoryLimitingAllocator::new();
    assert!(!allocator.allocate(TOTAL_MEM_LIMIT_BYTES + 1));
    assert!(!allocator.allocate(usize::MAX));
    assert_eq!(allocator.allocd, 0);
    assert!(!MemoryLimitingAllocator::may_fit(TOTAL_MEM_LIMIT_BYTES + 1));
    assert!(MemoryLimitingAllocator::may_fit(TOTAL_MEM_LIMIT_BYTES));
}

#[test]
fn a_shared_count_decides_by_what_it_was_before() {
    assert!(MemoryLimitingAllocator::admits(0, TOTAL_MEM_LIMIT_BYTES));
    assert!(MemoryLimitingAllocator::admits(TOTAL_MEM_LIMIT_BYTES - 5, 5));
    assert!(!MemoryLimitingAllocator::admits(TOTAL_MEM_LIMIT_BYTES - 4, 5));
    assert!(!MemoryLimitingAllocator::admits(TOTAL_MEM_LIMIT_BYTES + 1, 0));
    assert!(!MemoryLimitingAllocator::admits(usize::MAX, usize::MAX));
}

#[test]
fn memory_that_the_system_does_not_give_is_not_counted() {
    let mut allocator = MemoryLimitingAllocator::new();
    assert!(allocator.allocate(100));
    allocator.settle(100, true);
    assert_eq!(allocator.allocd, 100);
    assert!(allocator.allocate(TOTAL_MEM_LIMIT_BYTES - 100));
    allocator.settle(TOTAL_MEM_LIMIT_BYTES - 100, false);
    assert_eq!(allocator.allocd, 100);
    assert!(allocator.allocate(1));
}
