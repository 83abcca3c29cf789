//! Construction, growth and checked-access behaviour of the shared memory.

use wasm_shared_memory::memory_type::{ConfigError, MemoryStyle, MemoryType};
use wasm_shared_memory::shared_memory::{SharedMemory, Trap};
use wasm_shared_memory::{PAGE_SIZE, PAGE_SIZE_LOG2};

const PAGE: u64 = PAGE_SIZE;

fn shared_ty(minimum_pages: u64, maximum_pages: u64) -> MemoryType {
    MemoryType { minimum_pages, maximum_pages: Some(maximum_pages), shared: true }
}

fn mem(minimum_pages: u64, maximum_pages: u64) -> SharedMemory {
    SharedMemory::new(shared_ty(minimum_pages, maximum_pages), MemoryStyle::Static).unwrap()
}

#[test]
fn construction_rejects_unshared_descriptor() {
    let ty = MemoryType { minimum_pages: 1, maximum_pages: Some(4), shared: false };
    let r = SharedMemory::new(ty, MemoryStyle::Static);
    assert!(matches!(r, Err(ConfigError::NotShared)));
}

#[test]
fn construction_rejects_movable_allocation() {
    let r = SharedMemory::new(shared_ty(1, 4), MemoryStyle::Dynamic);
    assert!(matches!(r, Err(ConfigError::NotStatic)));
}

#[test]
fn construction_requires_a_maximum() {
    let ty = MemoryType { minimum_pages: 1, maximum_pages: None, shared: true };
    let r = SharedMemory::new(ty, MemoryStyle::Static);
    assert!(matches!(r, Err(ConfigError::MaximumRequired)));
}

#[test]
fn construction_rejects_minimum_above_maximum() {
    let r = SharedMemory::new(shared_ty(5, 4), MemoryStyle::Static);
    assert!(matches!(r, Err(ConfigError::MinimumExceedsMaximum)));
}

#[test]
fn construction_rejects_unrepresentable_limits() {
    let ty = MemoryType { minimum_pages: u64::MAX, maximum_pages: Some(u64::MAX), shared: true };
    let r = SharedMemory::new(ty, MemoryStyle::Static);
    assert!(matches!(r, Err(ConfigError::TooLarge)));
}

#[test]
fn fresh_memory_reports_its_descriptor() {
    let m = mem(1, 4);
    assert_eq!(m.byte_size(), PAGE as usize);
    assert_eq!(m.maximum_byte_size(), Some(4 * PAGE as usize));
    assert_eq!(m.published_length(), PAGE as usize);
    assert_eq!(m.page_size_log2(), PAGE_SIZE_LOG2);
    assert_eq!(1u64 << PAGE_SIZE_LOG2, PAGE_SIZE);
    assert_eq!(m.ty(), shared_ty(1, 4));
    assert!(m.needs_init());
    let accessible = m.wasm_accessible();
    assert_eq!(accessible.start, 0);
    assert_eq!(accessible.end, PAGE as usize);
}

#[test]
fn grow_by_zero_is_a_noop() {
    let mut m = mem(1, 4);
    assert_eq!(m.grow(0), Ok(None));
    assert_eq!(m.byte_size(), PAGE as usize);
    assert_eq!(m.published_length(), PAGE as usize);
}

#[test]
fn grow_returns_both_sizes_and_publishes_the_new_one() {
    let mut m = mem(1, 4);
    let r = m.grow(1).unwrap();
    assert_eq!(r, Some((PAGE as usize, 2 * PAGE as usize)));
    assert_eq!(m.byte_size(), 2 * PAGE as usize);
    // What a concurrent reader loads is never smaller than the returned
    // new size: publication happens before grow returns and is exact.
    assert_eq!(m.published_length(), 2 * PAGE as usize);
}

#[test]
fn grow_beyond_maximum_fails_and_mutates_nothing() {
    let mut m = mem(1, 2);
    assert!(m.grow(3).is_err());
    assert_eq!(m.byte_size(), PAGE as usize);
    assert_eq!(m.published_length(), PAGE as usize);
    assert_eq!(m.grow(1).unwrap(), Some((PAGE as usize, 2 * PAGE as usize)));
    assert!(m.grow(1).is_err());
    assert_eq!(m.byte_size(), 2 * PAGE as usize);
}

#[test]
fn grow_with_astronomical_delta_fails_cleanly() {
    let mut m = mem(1, 4);
    assert!(m.grow(u64::MAX).is_err());
    assert_eq!(m.byte_size(), PAGE as usize);
}

#[test]
fn end_to_end_growth_scenario() {
    let mut m = mem(1, 4);
    let first = m.grow(2).unwrap();
    assert_eq!(first, Some((PAGE as usize, 3 * PAGE as usize)));
    assert!(m.grow(3).is_err());
    assert_eq!(m.byte_size(), 3 * PAGE as usize);
    assert_eq!(m.published_length(), 3 * PAGE as usize);
}

#[test]
fn grow_to_extends_to_at_least_the_requested_size() {
    let mut m = mem(1, 4);
    assert_eq!(m.grow_to(3 * PAGE as usize), Ok(()));
    assert_eq!(m.byte_size(), 3 * PAGE as usize);
    assert_eq!(m.published_length(), 3 * PAGE as usize);
    // At or below the current size: nothing changes.
    assert_eq!(m.grow_to(PAGE as usize), Ok(()));
    assert_eq!(m.byte_size(), 3 * PAGE as usize);
    // Beyond the maximum: denied, nothing changes.
    assert!(m.grow_to(5 * PAGE as usize).is_err());
    assert_eq!(m.byte_size(), 3 * PAGE as usize);
}

#[test]
fn memory_already_at_its_maximum_cannot_grow() {
    let mut m = mem(2, 2);
    assert_eq!(m.byte_size(), 2 * PAGE as usize);
    assert_eq!(m.grow(0), Ok(None));
    assert!(m.grow(1).is_err());
    assert_eq!(m.byte_size(), 2 * PAGE as usize);
}

#[test]
fn empty_memory_faults_every_access_until_grown() {
    let mut m = mem(0, 1);
    assert_eq!(m.byte_size(), 0);
    assert!(matches!(m.load32(0), Err(Trap::MemoryOutOfBounds)));
    assert_eq!(m.grow(1).unwrap(), Some((0, PAGE as usize)));
    assert_eq!(m.load32(0), Ok(0));
}

#[test]
fn stored_values_read_back_little_endian() {
    let mut m = mem(1, 1);
    m.store32(0, 0x0403_0201).unwrap();
    assert_eq!(m.load32(0), Ok(0x0403_0201));
    m.store64(8, 0x0807_0605_0403_0201).unwrap();
    assert_eq!(m.load64(8), Ok(0x0807_0605_0403_0201));
    assert_eq!(m.load32(8), Ok(0x0403_0201));
    assert_eq!(m.load32(12), Ok(0x0807_0605));
    assert_eq!(m.load32(16), Ok(0));
}

#[test]
fn grown_pages_are_zero_filled() {
    let mut m = mem(1, 2);
    m.store32(0, 7).unwrap();
    assert!(matches!(m.load32(PAGE), Err(Trap::MemoryOutOfBounds)));
    m.grow(1).unwrap();
    assert_eq!(m.load32(PAGE), Ok(0));
    assert_eq!(m.load64(2 * PAGE - 8), Ok(0));
    assert_eq!(m.load32(0), Ok(7));
}

#[test]
fn misaligned_accesses_are_faults() {
    let mut m = mem(1, 1);
    assert!(matches!(m.load32(2), Err(Trap::HeapMisaligned)));
    assert!(matches!(m.load64(4), Err(Trap::HeapMisaligned)));
    assert!(matches!(m.store32(1, 9), Err(Trap::HeapMisaligned)));
    assert!(matches!(m.store64(12, 9), Err(Trap::HeapMisaligned)));
    assert_eq!(m.load32(0), Ok(0));
}

#[test]
fn out_of_bounds_accesses_are_faults() {
    let mut m = mem(1, 4);
    assert!(matches!(m.load32(PAGE), Err(Trap::MemoryOutOfBounds)));
    assert!(matches!(m.load32(PAGE - 2), Err(Trap::HeapMisaligned)));
    assert!(matches!(m.load64(PAGE - 4), Err(Trap::HeapMisaligned)));
    assert!(matches!(m.load64(PAGE), Err(Trap::MemoryOutOfBounds)));
    assert!(matches!(m.store32(PAGE, 1), Err(Trap::MemoryOutOfBounds)));
    assert!(matches!(m.store64(u64::MAX - 7, 1), Err(Trap::MemoryOutOfBounds)));
    assert_eq!(m.load32(PAGE - 4), Ok(0));
}
