//! Memory descriptors: the page limits, the shared flag, and the allocation
//! style a memory is built with, together with the conversion of page limits
//! into byte limits.

use crate::PAGE_SIZE;
use vstd::prelude::*;

verus! {

/// The type of a linear memory as the module loader describes it: page
/// limits and whether the memory may be shared between threads.
#[derive(Clone, Copy, Debug, PartialEq, Eq)]
pub struct MemoryType {
    /// The initial size of the memory, in pages.
    pub minimum_pages: u64,
    /// The largest size the memory may ever grow to, in pages, if one was
    /// declared.
    pub maximum_pages: Option<u64>,
    /// Whether several threads may hold the memory at once.
    pub shared: bool,
}

/// How the backing allocation for a memory is laid out. Only a static
/// reservation keeps the base address stable for the lifetime of the memory,
/// which the wait/notify protocol depends on.
#[derive(Clone, Copy, Debug, PartialEq, Eq)]
pub enum MemoryStyle {
    /// The whole maximum size is reserved once at creation; growing only
    /// commits pages inside the reservation and the base never moves.
    Static,
    /// The allocation may be moved to satisfy a grow.
    Dynamic,
}

/// Why a shared memory could not be constructed.
#[derive(Clone, Copy, Debug, PartialEq, Eq)]
pub enum ConfigError {
    /// The descriptor is not marked `shared`.
    NotShared,
    /// The allocation style does not pin the base address.
    NotStatic,
    /// A shared memory must declare a maximum size, so that the reservation
    /// can be made once and never moved.
    MaximumRequired,
    /// The declared minimum exceeds the declared maximum.
    MinimumExceedsMaximum,
    /// A byte limit does not fit in the host's address space.
    TooLarge,
}

/// The number of bytes in `pages` pages, as a mathematical integer.
pub open spec fn spec_page_bytes(pages: u64) -> int {
    pages * PAGE_SIZE
}

/// Converts a page count into a byte count, rejecting counts whose byte
/// equivalent does not fit in the host's address space.
pub fn page_bytes(pages: u64) -> (r: Result<usize, ConfigError>)
    ensures
        match r {
            Ok(bytes) => bytes == spec_page_bytes(pages),
            Err(e) => e == ConfigError::TooLarge && spec_page_bytes(pages) > usize::MAX,
        },
{
    match pages.checked_mul(PAGE_SIZE) {
        Some(bytes) => {
            if bytes <= usize::MAX as u64 {
                Ok(bytes as usize)
            } else {
                Err(ConfigError::TooLarge)
            }
        },
        None => Err(ConfigError::TooLarge),
    }
}

impl MemoryType {
    /// The byte limits this descriptor asks for: the initial committed size
    /// and the fixed maximum. Mirrors the engine's limit computation: both
    /// limits must fit in the address space and the minimum may not exceed
    /// the maximum.
    pub fn byte_limits(&self) -> (r: Result<(usize, Option<usize>), ConfigError>)
        ensures
            match r {
                Ok((min_bytes, max_bytes)) => {
                    &&& min_bytes == spec_page_bytes(self.minimum_pages)
                    &&& match (self.maximum_pages, max_bytes) {
                        (Some(p), Some(m)) => m == spec_page_bytes(p) && min_bytes <= m,
                        (None, None) => true,
                        _ => false,
                    }
                },
                Err(ConfigError::TooLarge) => {
                    ||| spec_page_bytes(self.minimum_pages) > usize::MAX
                    ||| match self.maximum_pages {
                        Some(p) => spec_page_bytes(p) > usize::MAX,
                        None => false,
                    }
                },
                Err(ConfigError::MinimumExceedsMaximum) => {
                    match self.maximum_pages {
                        Some(p) => {
                            &&& spec_page_bytes(self.minimum_pages) <= usize::MAX
                            &&& spec_page_bytes(p) <= usize::MAX
                            &&& spec_page_bytes(self.minimum_pages) > spec_page_bytes(p)
                        },
                        None => false,
                    }
                },
                Err(_) => false,
            },
    {
        let min_bytes = page_bytes(self.minimum_pages)?;
        match self.maximum_pages {
            Some(max_pages) => {
                let max_bytes = page_bytes(max_pages)?;
                if min_bytes > max_bytes {
                    Err(ConfigError::MinimumExceedsMaximum)
                } else {
                    Ok((min_bytes, Some(max_bytes)))
                }
            },
            None => Ok((min_bytes, None)),
        }
    }
}

} // verus!
