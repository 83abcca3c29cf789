//! The shared memory handle: composes the backing store, the growth
//! controller and the wait/notify engine into one object with uniform entry
//! points (size queries, `grow`, `atomic_wait32`/`atomic_wait64`,
//! `atomic_notify`).
//!
//! Blocking is true operating-system thread suspension, which the embedder
//! performs: the wait entry points decide, race free under the embedder's
//! lock, between returning a mismatch and registering the caller's waiter
//! token, and `atomic_notify` hands back the tokens whose threads are to be
//! resumed. A thread whose deadline elapsed reports back through
//! `complete_wait_timeout`, which tells it whether a notify claimed its
//! token first.

use crate::backing::{splice_bytes, BackingStore, GrowError};
use crate::memory_type::{spec_page_bytes, ConfigError, MemoryStyle, MemoryType};
use crate::parking::ParkingSpot;
use crate::{PAGE_SIZE, PAGE_SIZE_LOG2};
use std::ops::Range;
use vstd::prelude::*;

verus! {

/// The outcome of a completed wait. These three are the complete result set.
#[derive(Clone, Copy, Debug, PartialEq, Eq)]
pub enum WaitResult {
    /// A notify removed the waiter and woke its thread.
    Woken,
    /// The watched value differed from the expected one at call time; the
    /// thread never blocked.
    Mismatch,
    /// The deadline elapsed while parked.
    TimedOut,
}

/// An address-validation fault: a trap-equivalent condition for the calling
/// engine, distinct from an ordinary operation failure.
#[derive(Clone, Copy, Debug, PartialEq, Eq)]
pub enum Trap {
    /// The address is not aligned for the requested access width.
    HeapMisaligned,
    /// The access ends beyond the current memory size.
    MemoryOutOfBounds,
}

/// What a wait entry point decided under the registry lock.
#[derive(Clone, Copy, Debug, PartialEq, Eq)]
pub enum WaitDecision {
    /// The watched value differed from the expected one: the wait is over
    /// with outcome [`WaitResult::Mismatch`] and nothing was registered.
    Mismatch,
    /// The value matched and the waiter token was registered: the embedder
    /// must now suspend the calling thread until a notify hands the token
    /// back or the deadline elapses.
    Parked,
}

/// The address/length pair published to the execution engine's generated
/// code. The base of the allocation never moves, so only the length is here;
/// it is republished on every successful grow and read by every bounds
/// check, so concurrent readers never see a stale, smaller size.
struct LongTermMemoryDefinition {
    current_length: usize,
}

/// The value of the four bytes at `addr` in `contents`, little endian.
pub open spec fn value32_at(contents: Seq<u8>, addr: int) -> u32 {
    vstd::bytes::spec_u32_from_le_bytes(contents.subrange(addr, addr + 4))
}

/// The value of the eight bytes at `addr` in `contents`, little endian.
pub open spec fn value64_at(contents: Seq<u8>, addr: int) -> u64 {
    vstd::bytes::spec_u64_from_le_bytes(contents.subrange(addr, addr + 8))
}

/// The access of `width` bytes at `addr` is aligned and inside `len`.
pub open spec fn valid_atomic_addr(len: int, addr: u64, width: int) -> bool {
    addr % (width as u64) == 0 && addr + width <= len
}

/// A thread-shared, growable linear memory with futex-style wait/notify.
///
/// The whole maximum size is reserved at construction, so the base address
/// never changes for the lifetime of the object; the current size is
/// monotonically non-decreasing and the maximum is immutable.
pub struct SharedMemory {
    memory: BackingStore,
    spot: ParkingSpot,
    ty: MemoryType,
    def: LongTermMemoryDefinition,
}

impl SharedMemory {
    /// The handle is consistent: the descriptor is shared with a declared
    /// maximum, the reservation is exactly that maximum, the published
    /// length equals the committed size, and the registry is sound.
    pub closed spec fn wf(self) -> bool {
        &&& self.memory.wf()
        &&& self.spot.wf()
        &&& self.ty.shared
        &&& self.ty.maximum_pages is Some
        &&& self.memory.spec_maximum_byte_size() == spec_page_bytes(self.ty.maximum_pages->0)
        &&& self.def.current_length == self.memory.spec_byte_size()
    }

    /// The current size in bytes.
    pub closed spec fn spec_byte_size(self) -> usize {
        self.memory.spec_byte_size()
    }

    /// The maximum size in bytes, fixed at construction.
    pub closed spec fn spec_maximum_byte_size(self) -> int {
        self.memory.spec_maximum_byte_size()
    }

    /// The length currently published to generated code.
    pub closed spec fn spec_published_length(self) -> usize {
        self.def.current_length
    }

    /// The bytes inside the current size.
    pub closed spec fn contents(self) -> Seq<u8> {
        self.memory.contents()
    }

    /// The descriptor the memory was built from.
    pub closed spec fn spec_ty(self) -> MemoryType {
        self.ty
    }

    /// The tokens parked on `addr`, oldest first.
    pub closed spec fn waiters_at(self, addr: u64) -> Seq<u64> {
        self.spot.waiters_at(addr)
    }

    /// The token `w` is parked on `addr`.
    pub open spec fn is_parked_at(self, addr: u64, w: u64) -> bool {
        self.waiters_at(addr).contains(w)
    }

    /// The token `w` is parked on some address.
    pub closed spec fn is_parked(self, w: u64) -> bool {
        self.spot.is_parked(w)
    }

    /// Constructs a shared memory from its descriptor: reserves the maximum,
    /// commits the minimum zero-filled, and publishes the initial size.
    /// Construction errors are returned, never coerced: the descriptor must
    /// be shared, the allocation style static, and a maximum declared.
    pub fn new(ty: MemoryType, style: MemoryStyle) -> (r: Result<SharedMemory, ConfigError>)
        ensures
            match r {
                Ok(m) => {
                    &&& ty.shared
                    &&& style is Static
                    &&& ty.maximum_pages is Some
                    &&& m.wf()
                    &&& m.spec_ty() == ty
                    &&& m.spec_byte_size() == spec_page_bytes(ty.minimum_pages)
                    &&& m.spec_published_length() == m.spec_byte_size()
                    &&& m.spec_maximum_byte_size() == spec_page_bytes(ty.maximum_pages->0)
                    &&& m.contents() == Seq::new(
                        spec_page_bytes(ty.minimum_pages) as nat,
                        |i: int| 0u8,
                    )
                    &&& forall|a: u64| m.waiters_at(a) == Seq::<u64>::empty()
                    &&& forall|w: u64| !m.is_parked(w)
                },
                Err(ConfigError::TooLarge) => {
                    ||| spec_page_bytes(ty.minimum_pages) > usize::MAX
                    ||| (ty.maximum_pages is Some && spec_page_bytes(ty.maximum_pages->0)
                        > usize::MAX)
                },
                Err(ConfigError::MinimumExceedsMaximum) => {
                    &&& ty.maximum_pages is Some
                    &&& spec_page_bytes(ty.minimum_pages) <= usize::MAX
                    &&& spec_page_bytes(ty.maximum_pages->0) <= usize::MAX
                    &&& spec_page_bytes(ty.minimum_pages) > spec_page_bytes(ty.maximum_pages->0)
                },
                Err(ConfigError::NotShared) => {
                    &&& !ty.shared
                    &&& limits_acceptable(ty)
                },
                Err(ConfigError::NotStatic) => {
                    &&& ty.shared
                    &&& !(style is Static)
                    &&& limits_acceptable(ty)
                },
                Err(ConfigError::MaximumRequired) => {
                    &&& ty.shared
                    &&& style is Static
                    &&& ty.maximum_pages is None
                    &&& limits_acceptable(ty)
                },
            },
    {
        let limits = ty.byte_limits()?;
        match limits.1 {
            Some(max_bytes) => {
                let store = BackingStore::create(limits.0, max_bytes);
                SharedMemory::wrap(style, store, ty)
            },
            None => {
                if !ty.shared {
                    Err(ConfigError::NotShared)
                } else if !matches!(style, MemoryStyle::Static) {
                    Err(ConfigError::NotStatic)
                } else {
                    Err(ConfigError::MaximumRequired)
                }
            },
        }
    }

    /// Wraps an existing backing store in the locking and publication that
    /// shared memory needs. Rejects a descriptor that is not shared, an
    /// allocation style that could move the base, and a missing maximum.
    pub fn wrap(style: MemoryStyle, memory: BackingStore, ty: MemoryType) -> (r: Result<
        SharedMemory,
        ConfigError,
    >)
        requires
            memory.wf(),
            match ty.maximum_pages {
                Some(p) => memory.spec_maximum_byte_size() == spec_page_bytes(p),
                None => true,
            },
        ensures
            match r {
                Ok(m) => {
                    &&& ty.shared
                    &&& style is Static
                    &&& ty.maximum_pages is Some
                    &&& m.wf()
                    &&& m.spec_ty() == ty
                    &&& m.spec_byte_size() == memory.spec_byte_size()
                    &&& m.spec_published_length() == memory.spec_byte_size()
                    &&& m.spec_maximum_byte_size() == memory.spec_maximum_byte_size()
                    &&& m.contents() == memory.contents()
                    &&& forall|a: u64| m.waiters_at(a) == Seq::<u64>::empty()
                    &&& forall|w: u64| !m.is_parked(w)
                },
                Err(ConfigError::NotShared) => !ty.shared,
                Err(ConfigError::NotStatic) => ty.shared && !(style is Static),
                Err(ConfigError::MaximumRequired) => ty.shared && style is Static
                    && ty.maximum_pages is None,
                Err(_) => false,
            },
    {
        if !ty.shared {
            return Err(ConfigError::NotShared);
        }
        if !matches!(style, MemoryStyle::Static) {
            return Err(ConfigError::NotStatic);
        }
        if matches!(ty.maximum_pages, None) {
            return Err(ConfigError::MaximumRequired);
        }
        let published = memory.byte_size();
        Ok(
            SharedMemory {
                memory,
                spot: ParkingSpot::new(),
                ty,
                def: LongTermMemoryDefinition { current_length: published },
            },
        )
    }

    /// The memory type this shared memory was built from.
    pub fn ty(&self) -> (r: MemoryType)
        ensures
            r == self.spec_ty(),
    {
        self.ty
    }

    /// Log base two of the page size.
    pub fn page_size_log2(&self) -> (r: u8)
        ensures
            r == PAGE_SIZE_LOG2,
    {
        PAGE_SIZE_LOG2
    }

    /// The current size in bytes; reflects the latest committed grow.
    pub fn byte_size(&self) -> (r: usize)
        ensures
            r == self.spec_byte_size(),
    {
        self.memory.byte_size()
    }

    /// The maximum size in bytes, fixed at construction. A shared memory
    /// always has one: the reservation was made from it.
    pub fn maximum_byte_size(&self) -> (r: Option<usize>)
        ensures
            match r {
                Some(m) => m == self.spec_maximum_byte_size(),
                None => false,
            },
    {
        Some(self.memory.maximum_byte_size())
    }

    /// The length as published for generated code's bounds checks. Equal to
    /// the committed size whenever the memory is at rest.
    pub fn published_length(&self) -> (r: usize)
        ensures
            r == self.spec_published_length(),
    {
        self.def.current_length
    }

    /// The memory starts zero-filled, so instantiation must initialize it.
    pub fn needs_init(&self) -> (r: bool)
        ensures
            r == true,
    {
        true
    }

    /// The range of offsets currently safe to read and write.
    pub fn wasm_accessible(&self) -> (r: Range<usize>)
        ensures
            r.start == 0,
            r.end == self.spec_byte_size(),
    {
        self.memory.wasm_accessible()
    }

    /// Grows the memory by `delta_pages` pages, serialized with every other
    /// size operation, and publishes the new size before returning so that
    /// no thread can later read a smaller one. Growth beyond the maximum is
    /// always rejected and mutates nothing, even though the reservation
    /// could physically hold it. A delta of zero is a no-op by convention
    /// and returns `None`.
    pub fn grow(&mut self, delta_pages: u64) -> (r: Result<Option<(usize, usize)>, GrowError>)
        requires
            old(self).wf(),
        ensures
            final(self).wf(),
            final(self).spec_ty() == old(self).spec_ty(),
            final(self).spec_maximum_byte_size() == old(self).spec_maximum_byte_size(),
            final(self).spec_byte_size() >= old(self).spec_byte_size(),
            final(self).spec_published_length() >= old(self).spec_published_length(),
            final(self).spec_published_length() == final(self).spec_byte_size(),
            forall|a: u64| final(self).waiters_at(a) == old(self).waiters_at(a),
            forall|w: u64| final(self).is_parked(w) == old(self).is_parked(w),
            match r {
                Ok(None) => delta_pages == 0 && *final(self) == *old(self),
                Ok(Some((old_size, new_size))) => {
                    &&& delta_pages > 0
                    &&& old_size == old(self).spec_byte_size()
                    &&& new_size == old_size + delta_pages * PAGE_SIZE
                    &&& new_size <= old(self).spec_maximum_byte_size()
                    &&& final(self).spec_byte_size() == new_size
                    &&& final(self).spec_published_length() == new_size
                    &&& final(self).contents() == old(self).contents() + Seq::new(
                        (delta_pages * PAGE_SIZE) as nat,
                        |i: int| 0u8,
                    )
                },
                Err(GrowError::ExceedsMaximum) => {
                    &&& delta_pages > 0
                    &&& old(self).spec_byte_size() + delta_pages * PAGE_SIZE > old(
                        self,
                    ).spec_maximum_byte_size()
                    &&& *final(self) == *old(self)
                },
            },
    {
        if delta_pages == 0 {
            return Ok(None);
        }
        let current = self.memory.byte_size();
        let delta_bytes = match delta_pages.checked_mul(PAGE_SIZE) {
            Some(b) => b,
            None => {
                proof {
                    self.memory.lemma_wf_bounds();
                    assert(usize::MAX as int <= u64::MAX as int);
                    assert(delta_pages * PAGE_SIZE > u64::MAX);
                }
                return Err(GrowError::ExceedsMaximum);
            },
        };
        let new_size_wide = match (current as u64).checked_add(delta_bytes) {
            Some(n) => n,
            None => {
                proof {
                    self.memory.lemma_wf_bounds();
                    assert(usize::MAX as int <= u64::MAX as int);
                    assert(current + delta_pages * PAGE_SIZE > u64::MAX);
                }
                return Err(GrowError::ExceedsMaximum);
            },
        };
        let maximum = self.memory.maximum_byte_size();
        if new_size_wide > maximum as u64 {
            return Err(GrowError::ExceedsMaximum);
        }
        let new_size = new_size_wide as usize;
        match self.memory.grow_to(new_size) {
            Ok(()) => {},
            Err(e) => {
                return Err(e);
            },
        }
        self.def.current_length = new_size;
        Ok(Some((current, new_size)))
    }

    /// Extends the committed size to at least `size` bytes and publishes the
    /// result: a request at or below the current size changes nothing, one
    /// beyond the maximum is denied and mutates nothing.
    pub fn grow_to(&mut self, size: usize) -> (r: Result<(), GrowError>)
        requires
            old(self).wf(),
        ensures
            final(self).wf(),
            final(self).spec_ty() == old(self).spec_ty(),
            final(self).spec_maximum_byte_size() == old(self).spec_maximum_byte_size(),
            final(self).spec_byte_size() >= old(self).spec_byte_size(),
            final(self).spec_published_length() >= old(self).spec_published_length(),
            final(self).spec_published_length() == final(self).spec_byte_size(),
            forall|a: u64| final(self).waiters_at(a) == old(self).waiters_at(a),
            forall|w: u64| final(self).is_parked(w) == old(self).is_parked(w),
            match r {
                Ok(()) => {
                    &&& size <= old(self).spec_maximum_byte_size()
                    &&& final(self).spec_byte_size() == vstd::math::max(
                        old(self).spec_byte_size() as int,
                        size as int,
                    )
                    &&& final(self).contents() == old(self).contents() + Seq::new(
                        (final(self).spec_byte_size() - old(self).spec_byte_size()) as nat,
                        |i: int| 0u8,
                    )
                },
                Err(GrowError::ExceedsMaximum) => {
                    &&& size > old(self).spec_maximum_byte_size()
                    &&& *final(self) == *old(self)
                },
            },
    {
        let current = self.memory.byte_size();
        if size <= current {
            proof {
                self.memory.lemma_wf_bounds();
                assert(self.contents() =~= self.contents() + Seq::new(0nat, |i: int| 0u8));
            }
            return Ok(());
        }
        match self.memory.grow_to(size) {
            Ok(()) => {
                self.def.current_length = size;
                Ok(())
            },
            Err(e) => Err(e),
        }
    }

    /// Validates an atomic access of `width` bytes at `addr` against the
    /// published length: misalignment and out-of-bounds are faults, not wait
    /// outcomes.
    fn validate_atomic_addr(&self, addr: u64, width: u64) -> (r: Result<usize, Trap>)
        requires
            self.wf(),
            width == 4 || width == 8,
        ensures
            match r {
                Ok(offset) => {
                    &&& offset == addr
                    &&& valid_atomic_addr(self.spec_byte_size() as int, addr, width as int)
                },
                Err(Trap::HeapMisaligned) => addr % width != 0,
                Err(Trap::MemoryOutOfBounds) => addr % width == 0 && addr + width
                    > self.spec_byte_size(),
            },
    {
        if addr % width != 0 {
            return Err(Trap::HeapMisaligned);
        }
        let length = self.def.current_length as u64;
        if addr >= length || length - addr < width {
            return Err(Trap::MemoryOutOfBounds);
        }
        Ok(addr as usize)
    }

    /// Loads the aligned 32-bit value at `addr`, as the engine's atomic
    /// reads do; faults on a misaligned or out-of-bounds address.
    pub fn load32(&self, addr: u64) -> (r: Result<u32, Trap>)
        requires
            self.wf(),
        ensures
            match r {
                Ok(v) => {
                    &&& valid_atomic_addr(self.spec_byte_size() as int, addr, 4)
                    &&& v == value32_at(self.contents(), addr as int)
                },
                Err(Trap::HeapMisaligned) => addr % 4 != 0,
                Err(Trap::MemoryOutOfBounds) => addr % 4 == 0 && addr + 4 > self.spec_byte_size(),
            },
    {
        let offset = self.validate_atomic_addr(addr, 4)?;
        Ok(self.memory.read_u32_le(offset))
    }

    /// Loads the aligned 64-bit value at `addr`.
    pub fn load64(&self, addr: u64) -> (r: Result<u64, Trap>)
        requires
            self.wf(),
        ensures
            match r {
                Ok(v) => {
                    &&& valid_atomic_addr(self.spec_byte_size() as int, addr, 8)
                    &&& v == value64_at(self.contents(), addr as int)
                },
                Err(Trap::HeapMisaligned) => addr % 8 != 0,
                Err(Trap::MemoryOutOfBounds) => addr % 8 == 0 && addr + 8 > self.spec_byte_size(),
            },
    {
        let offset = self.validate_atomic_addr(addr, 8)?;
        Ok(self.memory.read_u64_le(offset))
    }

    /// Stores an aligned 32-bit value at `addr`, as the engine's atomic
    /// writes do. Sizes, descriptor and the parked waiters are untouched.
    pub fn store32(&mut self, addr: u64, value: u32) -> (r: Result<(), Trap>)
        requires
            old(self).wf(),
        ensures
            final(self).wf(),
            final(self).spec_ty() == old(self).spec_ty(),
            final(self).spec_byte_size() == old(self).spec_byte_size(),
            final(self).spec_maximum_byte_size() == old(self).spec_maximum_byte_size(),
            final(self).spec_published_length() == old(self).spec_published_length(),
            forall|a: u64| final(self).waiters_at(a) == old(self).waiters_at(a),
            forall|w: u64| final(self).is_parked(w) == old(self).is_parked(w),
            match r {
                Ok(()) => {
                    &&& valid_atomic_addr(old(self).spec_byte_size() as int, addr, 4)
                    &&& final(self).contents() == splice_bytes(
                        old(self).contents(),
                        addr as int,
                        vstd::bytes::spec_u32_to_le_bytes(value),
                    )
                    &&& value32_at(final(self).contents(), addr as int) == value
                },
                Err(Trap::HeapMisaligned) => addr % 4 != 0 && *final(self) == *old(self),
                Err(Trap::MemoryOutOfBounds) => addr % 4 == 0 && addr + 4 > old(
                    self,
                ).spec_byte_size() && *final(self) == *old(self),
            },
    {
        let offset = self.validate_atomic_addr(addr, 4)?;
        self.memory.write_u32_le(offset, value);
        proof {
            vstd::bytes::lemma_auto_spec_u32_to_from_le_bytes();
        }
        Ok(())
    }

    /// Stores an aligned 64-bit value at `addr`.
    pub fn store64(&mut self, addr: u64, value: u64) -> (r: Result<(), Trap>)
        requires
            old(self).wf(),
        ensures
            final(self).wf(),
            final(self).spec_ty() == old(self).spec_ty(),
            final(self).spec_byte_size() == old(self).spec_byte_size(),
            final(self).spec_maximum_byte_size() == old(self).spec_maximum_byte_size(),
            final(self).spec_published_length() == old(self).spec_published_length(),
            forall|a: u64| final(self).waiters_at(a) == old(self).waiters_at(a),
            forall|w: u64| final(self).is_parked(w) == old(self).is_parked(w),
            match r {
                Ok(()) => {
                    &&& valid_atomic_addr(old(self).spec_byte_size() as int, addr, 8)
                    &&& final(self).contents() == splice_bytes(
                        old(self).contents(),
                        addr as int,
                        vstd::bytes::spec_u64_to_le_bytes(value),
                    )
                    &&& value64_at(final(self).contents(), addr as int) == value
                },
                Err(Trap::HeapMisaligned) => addr % 8 != 0 && *final(self) == *old(self),
                Err(Trap::MemoryOutOfBounds) => addr % 8 == 0 && addr + 8 > old(
                    self,
                ).spec_byte_size() && *final(self) == *old(self),
            },
    {
        let offset = self.validate_atomic_addr(addr, 8)?;
        self.memory.write_u64_le(offset, value);
        proof {
            vstd::bytes::lemma_auto_spec_u64_to_from_le_bytes();
        }
        Ok(())
    }

    /// Decides a 32-bit wait: validates the address, atomically compares the
    /// value there with `expected`, and either ends the wait at once with a
    /// mismatch or registers `waiter` on `addr` before any notify can slip
    /// in. The embedder then suspends the thread for a parked decision.
    pub fn atomic_wait32(&mut self, addr: u64, expected: u32, waiter: u64) -> (r: Result<
        WaitDecision,
        Trap,
    >)
        requires
            old(self).wf(),
            !old(self).is_parked(waiter),
        ensures
            final(self).wf(),
            final(self).spec_ty() == old(self).spec_ty(),
            final(self).spec_byte_size() == old(self).spec_byte_size(),
            final(self).spec_maximum_byte_size() == old(self).spec_maximum_byte_size(),
            final(self).spec_published_length() == old(self).spec_published_length(),
            final(self).contents() == old(self).contents(),
            match r {
                Ok(WaitDecision::Mismatch) => {
                    &&& valid_atomic_addr(old(self).spec_byte_size() as int, addr, 4)
                    &&& value32_at(old(self).contents(), addr as int) != expected
                    &&& *final(self) == *old(self)
                },
                Ok(WaitDecision::Parked) => {
                    &&& valid_atomic_addr(old(self).spec_byte_size() as int, addr, 4)
                    &&& value32_at(old(self).contents(), addr as int) == expected
                    &&& final(self).waiters_at(addr) == old(self).waiters_at(addr).push(waiter)
                    &&& forall|a: u64|
                        a != addr ==> final(self).waiters_at(a) == old(self).waiters_at(a)
                    &&& final(self).is_parked_at(addr, waiter)
                },
                Err(Trap::HeapMisaligned) => addr % 4 != 0 && *final(self) == *old(self),
                Err(Trap::MemoryOutOfBounds) => addr % 4 == 0 && addr + 4 > old(
                    self,
                ).spec_byte_size() && *final(self) == *old(self),
            },
    {
        let offset = self.validate_atomic_addr(addr, 4)?;
        let current = self.memory.read_u32_le(offset);
        if current != expected {
            return Ok(WaitDecision::Mismatch);
        }
        self.spot.register_waiter(addr, waiter);
        Ok(WaitDecision::Parked)
    }

    /// Decides a 64-bit wait; exactly as the 32-bit form, eight bytes wide.
    pub fn atomic_wait64(&mut self, addr: u64, expected: u64, waiter: u64) -> (r: Result<
        WaitDecision,
        Trap,
    >)
        requires
            old(self).wf(),
            !old(self).is_parked(waiter),
        ensures
            final(self).wf(),
            final(self).spec_ty() == old(self).spec_ty(),
            final(self).spec_byte_size() == old(self).spec_byte_size(),
            final(self).spec_maximum_byte_size() == old(self).spec_maximum_byte_size(),
            final(self).spec_published_length() == old(self).spec_published_length(),
            final(self).contents() == old(self).contents(),
            match r {
                Ok(WaitDecision::Mismatch) => {
                    &&& valid_atomic_addr(old(self).spec_byte_size() as int, addr, 8)
                    &&& value64_at(old(self).contents(), addr as int) != expected
                    &&& *final(self) == *old(self)
                },
                Ok(WaitDecision::Parked) => {
                    &&& valid_atomic_addr(old(self).spec_byte_size() as int, addr, 8)
                    &&& value64_at(old(self).contents(), addr as int) == expected
                    &&& final(self).waiters_at(addr) == old(self).waiters_at(addr).push(waiter)
                    &&& forall|a: u64|
                        a != addr ==> final(self).waiters_at(a) == old(self).waiters_at(a)
                    &&& final(self).is_parked_at(addr, waiter)
                },
                Err(Trap::HeapMisaligned) => addr % 8 != 0 && *final(self) == *old(self),
                Err(Trap::MemoryOutOfBounds) => addr % 8 == 0 && addr + 8 > old(
                    self,
                ).spec_byte_size() && *final(self) == *old(self),
            },
    {
        let offset = self.validate_atomic_addr(addr, 8)?;
        let current = self.memory.read_u64_le(offset);
        if current != expected {
            return Ok(WaitDecision::Mismatch);
        }
        self.spot.register_waiter(addr, waiter);
        Ok(WaitDecision::Parked)
    }

    /// Wakes up to `count` waiters parked on `addr`: removes exactly
    /// `min(count, parked)` tokens, oldest first, and returns them for the
    /// embedder to resume; their number is the notify's result. A notify on
    /// an address nobody waits on returns the empty vector and never blocks.
    /// A returned token is no longer parked anywhere.
    pub fn atomic_notify(&mut self, addr: u64, count: u32) -> (r: Result<Vec<u64>, Trap>)
        requires
            old(self).wf(),
        ensures
            final(self).wf(),
            final(self).spec_ty() == old(self).spec_ty(),
            final(self).spec_byte_size() == old(self).spec_byte_size(),
            final(self).spec_maximum_byte_size() == old(self).spec_maximum_byte_size(),
            final(self).spec_published_length() == old(self).spec_published_length(),
            final(self).contents() == old(self).contents(),
            match r {
                Ok(woken) => {
                    &&& valid_atomic_addr(old(self).spec_byte_size() as int, addr, 4)
                    &&& woken@.len() == vstd::math::min(
                        count as int,
                        old(self).waiters_at(addr).len() as int,
                    )
                    &&& woken@ == old(self).waiters_at(addr).take(woken@.len() as int)
                    &&& final(self).waiters_at(addr) == old(self).waiters_at(addr).skip(
                        woken@.len() as int,
                    )
                    &&& forall|a: u64|
                        a != addr ==> final(self).waiters_at(a) == old(self).waiters_at(a)
                    &&& forall|x: u64| woken@.contains(x) ==> !final(self).is_parked(x)
                },
                Err(Trap::HeapMisaligned) => addr % 4 != 0 && *final(self) == *old(self),
                Err(Trap::MemoryOutOfBounds) => addr % 4 == 0 && addr + 4 > old(
                    self,
                ).spec_byte_size() && *final(self) == *old(self),
            },
    {
        self.validate_atomic_addr(addr, 4)?;
        Ok(self.spot.notify(addr, count))
    }

    /// Ends a parked wait whose deadline elapsed: removes the token from the
    /// queue if it is still there and reports the outcome. When a notify
    /// claimed the token first, the wait counts as woken — this is what
    /// makes a wakeup impossible to lose — and the watched value is not
    /// touched either way.
    pub fn complete_wait_timeout(&mut self, addr: u64, waiter: u64) -> (r: WaitResult)
        requires
            old(self).wf(),
            old(self).is_parked(waiter) ==> old(self).is_parked_at(addr, waiter),
        ensures
            final(self).wf(),
            final(self).spec_ty() == old(self).spec_ty(),
            final(self).spec_byte_size() == old(self).spec_byte_size(),
            final(self).spec_maximum_byte_size() == old(self).spec_maximum_byte_size(),
            final(self).spec_published_length() == old(self).spec_published_length(),
            final(self).contents() == old(self).contents(),
            r == WaitResult::TimedOut <==> old(self).is_parked_at(addr, waiter),
            r == WaitResult::Woken <==> !old(self).is_parked_at(addr, waiter),
            final(self).waiters_at(addr) == old(self).waiters_at(addr).remove_value(waiter),
            forall|a: u64| a != addr ==> final(self).waiters_at(a) == old(self).waiters_at(a),
            !final(self).is_parked(waiter),
    {
        let present = self.spot.remove_waiter(addr, waiter);
        if present {
            WaitResult::TimedOut
        } else {
            WaitResult::Woken
        }
    }
}

/// The limits of a descriptor are representable and ordered: both byte
/// counts fit the address space and the minimum does not exceed the maximum.
pub open spec fn limits_acceptable(ty: MemoryType) -> bool {
    &&& spec_page_bytes(ty.minimum_pages) <= usize::MAX
    &&& match ty.maximum_pages {
        Some(p) => spec_page_bytes(p) <= usize::MAX && spec_page_bytes(ty.minimum_pages)
            <= spec_page_bytes(p),
        None => true,
    }
}

/// Law: the published length is exact. Whenever the memory is at rest, the
/// length a concurrent reader loads equals the committed size, so after a
/// grow returns `new_bytes` no reader ever observes a smaller size.
pub proof fn lemma_published_length_exact(m: SharedMemory)
    requires
        m.wf(),
    ensures
        m.spec_published_length() == m.spec_byte_size(),
{
}

/// Law: no notify is lost. A notify on `addr` whose budget covers the whole
/// queue wakes every token parked there — in particular a waiter that
/// registered before the notify, however the wakeup and a timeout race.
pub proof fn lemma_notify_covers_parked(m: SharedMemory, addr: u64, w: u64, count: u32)
    requires
        m.wf(),
        m.is_parked_at(addr, w),
        count as int >= m.waiters_at(addr).len(),
    ensures
        m.waiters_at(addr).take(
            vstd::math::min(count as int, m.waiters_at(addr).len() as int),
        ).contains(w),
{
    let q = m.waiters_at(addr);
    assert(q.take(vstd::math::min(count as int, q.len() as int)) =~= q);
}

/// Law: a waiter is parked exactly when some queue holds its token.
/// Together with the wait and notify contracts: once a notify has claimed a
/// token (it is parked nowhere), the token is in no queue, so the timed-out
/// path reports the wait as woken rather than timed out.
pub proof fn lemma_parked_iff_in_some_queue(m: SharedMemory, w: u64)
    requires
        m.wf(),
    ensures
        m.is_parked(w) <==> exists|a: u64| #[trigger] m.is_parked_at(a, w),
{
    crate::parking::lemma_parked_iff_in_some_queue(m.spot, w);
    assert forall|a: u64| #[trigger] m.is_parked_at(a, w) implies m.spot.is_parked_at(a, w) by {}
    assert forall|a: u64| #[trigger] m.spot.is_parked_at(a, w) implies m.is_parked_at(a, w) by {}
}

} // verus!
