//! The futex-style wait/notify engine: check-then-park decisions, notify
//! counts and ordering, timeouts, and the wakeup/timeout race.

use wasm_shared_memory::memory_type::{MemoryStyle, MemoryType};
use wasm_shared_memory::shared_memory::{SharedMemory, Trap, WaitDecision, WaitResult};
use wasm_shared_memory::PAGE_SIZE;

fn mem() -> SharedMemory {
    let ty = MemoryType { minimum_pages: 1, maximum_pages: Some(4), shared: true };
    SharedMemory::new(ty, MemoryStyle::Static).unwrap()
}

const WAITER_A: u64 = 100;
const WAITER_B: u64 = 200;
const WAITER_C: u64 = 300;

#[test]
fn wait32_returns_mismatch_without_blocking() {
    let mut m = mem();
    m.store32(16, 5).unwrap();
    let d = m.atomic_wait32(16, 4, WAITER_A).unwrap();
    assert_eq!(d, WaitDecision::Mismatch);
    // Nothing was registered: a notify right after finds nobody.
    assert_eq!(m.atomic_notify(16, 1), Ok(vec![]));
}

#[test]
fn wait64_returns_mismatch_without_blocking() {
    let mut m = mem();
    m.store64(24, 9).unwrap();
    let d = m.atomic_wait64(24, 10, WAITER_A).unwrap();
    assert_eq!(d, WaitDecision::Mismatch);
    assert_eq!(m.atomic_notify(24, 1), Ok(vec![]));
}

#[test]
fn wait_parks_when_the_value_matches() {
    let mut m = mem();
    let d = m.atomic_wait32(8, 0, WAITER_A).unwrap();
    assert_eq!(d, WaitDecision::Parked);
    let d64 = m.atomic_wait64(16, 0, WAITER_B).unwrap();
    assert_eq!(d64, WaitDecision::Parked);
}

#[test]
fn wait_addresses_are_validated_before_anything_else() {
    let mut m = mem();
    assert_eq!(m.atomic_wait32(2, 0, WAITER_A), Err(Trap::HeapMisaligned));
    assert_eq!(m.atomic_wait32(PAGE_SIZE, 0, WAITER_A), Err(Trap::MemoryOutOfBounds));
    assert_eq!(m.atomic_wait64(12, 0, WAITER_A), Err(Trap::HeapMisaligned));
    assert_eq!(m.atomic_wait64(PAGE_SIZE, 0, WAITER_A), Err(Trap::MemoryOutOfBounds));
    assert_eq!(m.atomic_notify(6, 1), Err(Trap::HeapMisaligned));
    assert_eq!(m.atomic_notify(PAGE_SIZE, 1), Err(Trap::MemoryOutOfBounds));
}

#[test]
fn notify_with_no_waiters_returns_zero() {
    let mut m = mem();
    let woken = m.atomic_notify(0, 7).unwrap();
    assert_eq!(woken.len(), 0);
}

#[test]
fn notify_wakes_at_most_the_requested_count_oldest_first() {
    let mut m = mem();
    assert_eq!(m.atomic_wait32(0, 0, WAITER_A).unwrap(), WaitDecision::Parked);
    assert_eq!(m.atomic_wait32(0, 0, WAITER_B).unwrap(), WaitDecision::Parked);
    assert_eq!(m.atomic_wait32(0, 0, WAITER_C).unwrap(), WaitDecision::Parked);
    let first = m.atomic_notify(0, 2).unwrap();
    assert_eq!(first, vec![WAITER_A, WAITER_B]);
    let rest = m.atomic_notify(0, 5).unwrap();
    assert_eq!(rest, vec![WAITER_C]);
    assert_eq!(m.atomic_notify(0, 5), Ok(vec![]));
}

#[test]
fn notify_only_wakes_waiters_on_its_own_address() {
    let mut m = mem();
    assert_eq!(m.atomic_wait32(0, 0, WAITER_A).unwrap(), WaitDecision::Parked);
    assert_eq!(m.atomic_wait32(4, 0, WAITER_B).unwrap(), WaitDecision::Parked);
    assert_eq!(m.atomic_notify(0, 10), Ok(vec![WAITER_A]));
    assert_eq!(m.atomic_notify(4, 10), Ok(vec![WAITER_B]));
}

#[test]
fn timeout_leaves_the_watched_value_untouched() {
    let mut m = mem();
    m.store32(32, 11).unwrap();
    assert_eq!(m.atomic_wait32(32, 11, WAITER_A).unwrap(), WaitDecision::Parked);
    // The deadline elapses with no notify: the wait reports a timeout and
    // the watched value is unmodified.
    assert_eq!(m.complete_wait_timeout(32, WAITER_A), WaitResult::TimedOut);
    assert_eq!(m.load32(32), Ok(11));
    // The token is gone: a later notify has nobody to wake.
    assert_eq!(m.atomic_notify(32, 1), Ok(vec![]));
}

#[test]
fn wakeup_beats_a_racing_timeout() {
    let mut m = mem();
    assert_eq!(m.atomic_wait32(0, 0, WAITER_A).unwrap(), WaitDecision::Parked);
    assert_eq!(m.store32(0, 1), Ok(()));
    assert_eq!(m.atomic_notify(0, 1), Ok(vec![WAITER_A]));
    // The thread's deadline fires while the wakeup is in flight; the wait
    // still counts as woken, so the notify is not lost.
    assert_eq!(m.complete_wait_timeout(0, WAITER_A), WaitResult::Woken);
}

#[test]
fn no_wakeup_is_lost_across_a_value_change() {
    let mut m = mem();
    // Thread A checks the value and parks while it still equals 0.
    assert_eq!(m.atomic_wait32(64, 0, WAITER_A).unwrap(), WaitDecision::Parked);
    // Thread B then changes the value and notifies the address.
    m.store32(64, 1).unwrap();
    let woken = m.atomic_notify(64, 1).unwrap();
    assert_eq!(woken, vec![WAITER_A]);
    // A waiter arriving after the change does not block at all.
    assert_eq!(m.atomic_wait32(64, 0, WAITER_B).unwrap(), WaitDecision::Mismatch);
}

#[test]
fn two_thread_wait_notify_scenario() {
    let mut m = mem();
    // Thread A waits on address 0 expecting 0 (its 5-second deadline never
    // fires in this interleaving); thread B writes 1 and notifies once.
    assert_eq!(m.atomic_wait32(0, 0, WAITER_A).unwrap(), WaitDecision::Parked);
    m.store32(0, 1).unwrap();
    let woken = m.atomic_notify(0, 1).unwrap();
    assert_eq!(woken.len(), 1);
    assert_eq!(woken[0], WAITER_A);
    // A wakes with outcome "woken", well before any timeout.
    assert_eq!(m.complete_wait_timeout(0, WAITER_A), WaitResult::Woken);
}
