//! The backing store on its own, and wrapping an existing store.

use wasm_shared_memory::backing::{BackingStore, GrowError};
use wasm_shared_memory::memory_type::{ConfigError, MemoryStyle, MemoryType};
use wasm_shared_memory::shared_memory::SharedMemory;
use wasm_shared_memory::PAGE_SIZE;

#[test]
fn store_grows_only_inside_its_reservation() {
    let mut store = BackingStore::create(8, 16);
    assert_eq!(store.byte_size(), 8);
    assert_eq!(store.maximum_byte_size(), 16);
    store.write_u32_le(0, 0xabcd_1234);
    assert_eq!(store.read_u32_le(0), 0xabcd_1234);
    assert_eq!(store.grow_to(12), Ok(()));
    assert_eq!(store.byte_size(), 12);
    assert_eq!(store.read_u32_le(8), 0);
    assert_eq!(store.read_u32_le(0), 0xabcd_1234);
    assert_eq!(store.grow_to(20), Err(GrowError::ExceedsMaximum));
    assert_eq!(store.byte_size(), 12);
    let accessible = store.wasm_accessible();
    assert_eq!(accessible, 0..12);
}

#[test]
fn store_reads_and_writes_wide_values() {
    let mut store = BackingStore::create(16, 16);
    store.write_u64_le(0, u64::MAX - 1);
    assert_eq!(store.read_u64_le(0), u64::MAX - 1);
    assert_eq!(store.read_u64_le(8), 0);
}

#[test]
fn wrapping_checks_the_descriptor() {
    let ty = MemoryType { minimum_pages: 1, maximum_pages: Some(2), shared: true };
    let store = BackingStore::create(PAGE_SIZE as usize, 2 * PAGE_SIZE as usize);
    let m = SharedMemory::wrap(MemoryStyle::Static, store, ty).unwrap();
    assert_eq!(m.byte_size(), PAGE_SIZE as usize);
    assert_eq!(m.maximum_byte_size(), Some(2 * PAGE_SIZE as usize));

    let store = BackingStore::create(PAGE_SIZE as usize, 2 * PAGE_SIZE as usize);
    let unshared = MemoryType { shared: false, ..ty };
    assert!(matches!(
        SharedMemory::wrap(MemoryStyle::Static, store, unshared),
        Err(ConfigError::NotShared)
    ));

    let store = BackingStore::create(PAGE_SIZE as usize, 2 * PAGE_SIZE as usize);
    assert!(matches!(
        SharedMemory::wrap(MemoryStyle::Dynamic, store, ty),
        Err(ConfigError::NotStatic)
    ));

    let store = BackingStore::create(PAGE_SIZE as usize, 2 * PAGE_SIZE as usize);
    let unbounded = MemoryType { maximum_pages: None, ..ty };
    assert!(matches!(
        SharedMemory::wrap(MemoryStyle::Static, store, unbounded),
        Err(ConfigError::MaximumRequired)
    ));
}
