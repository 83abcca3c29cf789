//! The backing store of a shared memory: a byte buffer whose whole maximum
//! size is reserved once at creation, so that the base of the allocation
//! never moves. Growing only commits more of the reservation; committed but
//! not yet grown-into bytes stay zero, so every grow exposes zero-filled
//! pages.

use std::ops::Range;
use vstd::prelude::*;

verus! {

/// Why a grow was denied.
#[derive(Clone, Copy, Debug, PartialEq, Eq)]
pub enum GrowError {
    /// The requested size exceeds the maximum fixed at creation. The maximum
    /// is a logical limit: the request is rejected even though the
    /// reservation could physically hold more.
    ExceedsMaximum,
}

/// `s` with the bytes starting at `addr` replaced by `bytes`.
pub open spec fn splice_bytes(s: Seq<u8>, addr: int, bytes: Seq<u8>) -> Seq<u8> {
    s.take(addr) + bytes + s.skip(addr + bytes.len())
}

/// A contiguous byte buffer with a fixed maximum capacity. The buffer is
/// allocated at its maximum size up front and never reallocated; only the
/// logical size moves.
pub struct BackingStore {
    /// The reservation. Its length is the maximum size and never changes.
    buf: Vec<u8>,
    /// The current logical size; everything at or beyond it is still zero.
    size: usize,
}

impl BackingStore {
    /// The store is consistent: the logical size fits in the reservation and
    /// the uncommitted tail is zero-filled, so growth exposes zeroed pages.
    pub closed spec fn wf(self) -> bool {
        &&& self.size <= self.buf@.len()
        &&& self.buf@.len() <= usize::MAX
        &&& forall|i: int| self.size <= i < self.buf@.len() ==> self.buf@[i] == 0u8
    }

    /// The current logical size in bytes.
    pub closed spec fn spec_byte_size(self) -> usize {
        self.size
    }

    /// The fixed maximum size in bytes.
    pub closed spec fn spec_maximum_byte_size(self) -> int {
        self.buf@.len() as int
    }

    /// The bytes currently inside the logical size.
    pub closed spec fn contents(self) -> Seq<u8> {
        self.buf@.take(self.size as int)
    }

    /// A consistent store's size fits in its reservation, which fits the
    /// host's address space.
    pub proof fn lemma_wf_bounds(self)
        requires
            self.wf(),
        ensures
            self.spec_byte_size() <= self.spec_maximum_byte_size(),
            self.spec_maximum_byte_size() <= usize::MAX as int,
            self.contents().len() == self.spec_byte_size(),
    {
    }

    /// Reserves a buffer of `maximum_size` zeroed bytes and commits the
    /// first `initial_size` of them.
    pub fn create(initial_size: usize, maximum_size: usize) -> (r: BackingStore)
        requires
            initial_size <= maximum_size,
        ensures
            r.wf(),
            r.spec_byte_size() == initial_size,
            r.spec_maximum_byte_size() == maximum_size,
            r.contents() == Seq::new(initial_size as nat, |i: int| 0u8),
    {
        let store = BackingStore { buf: vec![0u8; maximum_size], size: initial_size };
        proof {
            assert(store.contents() =~= Seq::new(initial_size as nat, |i: int| 0u8));
        }
        store
    }

    /// The current logical size; reflects the latest committed grow.
    pub fn byte_size(&self) -> (r: usize)
        ensures
            r == self.spec_byte_size(),
    {
        self.size
    }

    /// The maximum size fixed at construction.
    pub fn maximum_byte_size(&self) -> (r: usize)
        ensures
            r == self.spec_maximum_byte_size(),
    {
        self.buf.len()
    }

    /// The range of offsets currently safe to read and write.
    pub fn wasm_accessible(&self) -> (r: Range<usize>)
        ensures
            r.start == 0,
            r.end == self.spec_byte_size(),
    {
        0..self.size
    }

    /// Extends the committed size to `new_size`. Fails, mutating nothing,
    /// exactly when `new_size` exceeds the maximum; on success the old
    /// contents are kept and the new bytes are zero.
    pub fn grow_to(&mut self, new_size: usize) -> (r: Result<(), GrowError>)
        requires
            old(self).wf(),
            new_size >= old(self).spec_byte_size(),
        ensures
            final(self).wf(),
            final(self).spec_maximum_byte_size() == old(self).spec_maximum_byte_size(),
            match r {
                Ok(()) => {
                    &&& new_size <= old(self).spec_maximum_byte_size()
                    &&& final(self).spec_byte_size() == new_size
                    &&& final(self).contents() == old(self).contents() + Seq::new(
                        (new_size - old(self).spec_byte_size()) as nat,
                        |i: int| 0u8,
                    )
                },
                Err(GrowError::ExceedsMaximum) => {
                    &&& new_size > old(self).spec_maximum_byte_size()
                    &&& *final(self) == *old(self)
                },
            },
    {
        if new_size > self.buf.len() {
            Err(GrowError::ExceedsMaximum)
        } else {
            let ghost old_self = *self;
            self.size = new_size;
            proof {
                assert(self.contents() =~= old_self.contents() + Seq::new(
                    (new_size - old_self.size) as nat,
                    |i: int| 0u8,
                ));
            }
            Ok(())
        }
    }

    /// Reads the four bytes at `addr` as a little-endian 32-bit value.
    pub fn read_u32_le(&self, addr: usize) -> (r: u32)
        requires
            self.wf(),
            addr + 4 <= self.spec_byte_size(),
        ensures
            r == vstd::bytes::spec_u32_from_le_bytes(
                self.contents().subrange(addr as int, addr + 4),
            ),
    {
        let s = vstd::slice::slice_subrange(self.buf.as_slice(), addr, addr + 4);
        proof {
            assert(s@ =~= self.contents().subrange(addr as int, addr + 4));
        }
        vstd::bytes::u32_from_le_bytes(s)
    }

    /// Reads the eight bytes at `addr` as a little-endian 64-bit value.
    pub fn read_u64_le(&self, addr: usize) -> (r: u64)
        requires
            self.wf(),
            addr + 8 <= self.spec_byte_size(),
        ensures
            r == vstd::bytes::spec_u64_from_le_bytes(
                self.contents().subrange(addr as int, addr + 8),
            ),
    {
        let s = vstd::slice::slice_subrange(self.buf.as_slice(), addr, addr + 8);
        proof {
            assert(s@ =~= self.contents().subrange(addr as int, addr + 8));
        }
        vstd::bytes::u64_from_le_bytes(s)
    }

    /// Writes `value` at `addr` as four little-endian bytes.
    pub fn write_u32_le(&mut self, addr: usize, value: u32) -> (r: ())
        requires
            old(self).wf(),
            addr + 4 <= old(self).spec_byte_size(),
        ensures
            final(self).wf(),
            final(self).spec_byte_size() == old(self).spec_byte_size(),
            final(self).spec_maximum_byte_size() == old(self).spec_maximum_byte_size(),
            final(self).contents() == splice_bytes(
                old(self).contents(),
                addr as int,
                vstd::bytes::spec_u32_to_le_bytes(value),
            ),
            final(self).contents().subrange(addr as int, addr + 4)
                == vstd::bytes::spec_u32_to_le_bytes(value),
    {
        let ghost old_self = *self;
        let bytes = vstd::bytes::u32_to_le_bytes(value);
        self.write_bytes(addr, &bytes);
        proof {
            vstd::bytes::lemma_auto_spec_u32_to_from_le_bytes();
            assert(self.contents() =~= splice_bytes(
                old_self.contents(),
                addr as int,
                vstd::bytes::spec_u32_to_le_bytes(value),
            ));
        }
    }

    /// Writes `value` at `addr` as eight little-endian bytes.
    pub fn write_u64_le(&mut self, addr: usize, value: u64) -> (r: ())
        requires
            old(self).wf(),
            addr + 8 <= old(self).spec_byte_size(),
        ensures
            final(self).wf(),
            final(self).spec_byte_size() == old(self).spec_byte_size(),
            final(self).spec_maximum_byte_size() == old(self).spec_maximum_byte_size(),
            final(self).contents() == splice_bytes(
                old(self).contents(),
                addr as int,
                vstd::bytes::spec_u64_to_le_bytes(value),
            ),
            final(self).contents().subrange(addr as int, addr + 8)
                == vstd::bytes::spec_u64_to_le_bytes(value),
    {
        let ghost old_self = *self;
        let bytes = vstd::bytes::u64_to_le_bytes(value);
        self.write_bytes(addr, &bytes);
        proof {
            vstd::bytes::lemma_auto_spec_u64_to_from_le_bytes();
            assert(self.contents() =~= splice_bytes(
                old_self.contents(),
                addr as int,
                vstd::bytes::spec_u64_to_le_bytes(value),
            ));
        }
    }

    /// Copies `bytes` into the buffer starting at `addr`.
    fn write_bytes(&mut self, addr: usize, bytes: &Vec<u8>) -> (r: ())
        requires
            old(self).wf(),
            addr + bytes@.len() <= old(self).spec_byte_size(),
        ensures
            final(self).wf(),
            final(self).spec_byte_size() == old(self).spec_byte_size(),
            final(self).spec_maximum_byte_size() == old(self).spec_maximum_byte_size(),
            final(self).contents() == splice_bytes(old(self).contents(), addr as int, bytes@),
            final(self).contents().subrange(addr as int, addr + bytes@.len()) == bytes@,
    {
        let ghost old_self = *self;
        let mut k: usize = 0;
        while k < bytes.len()
            invariant
                old_self.wf(),
                addr + bytes@.len() <= old_self.size,
                k <= bytes@.len(),
                self.size == old_self.size,
                self.buf@.len() == old_self.buf@.len(),
                forall|i: int| 0 <= i < addr ==> self.buf@[i] == old_self.buf@[i],
                forall|i: int| 0 <= i < k ==> self.buf@[addr + i] == bytes@[i],
                forall|i: int|
                    addr + bytes@.len() <= i < self.buf@.len() ==> self.buf@[i] == old_self.buf@[i],
                forall|i: int|
                    addr + k <= i < addr + bytes@.len() ==> self.buf@[i] == old_self.buf@[i],
            decreases bytes@.len() - k,
        {
            let slot = &mut self.buf[addr + k];
            *slot = bytes[k];
            k = k + 1;
        }
        proof {
            assert forall|i: int| self.size <= i < self.buf@.len() implies self.buf@[i] == 0u8 by {
                assert(self.buf@[i] == old_self.buf@[i]);
            };
            assert(self.contents() =~= splice_bytes(old_self.contents(), addr as int, bytes@));
            assert(self.contents().subrange(addr as int, addr + bytes@.len()) =~= bytes@) by {
                assert forall|i: int| 0 <= i < bytes@.len() implies self.contents().subrange(
                    addr as int,
                    addr + bytes@.len(),
                )[i] == bytes@[i] by {
                    assert(self.contents()[addr + i] == self.buf@[addr + i]);
                    assert(self.buf@[addr + i] == bytes@[i]);
                };
            };
        }
    }
}

} // verus!
