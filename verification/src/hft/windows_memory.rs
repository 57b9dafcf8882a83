//! Memory in large pages, locked into physical memory.

use vstd::prelude::*;

verus! {

/// Bytes in a large page.
pub const LARGE_PAGE_SIZE: usize = 2_097_152;

/// The least number of bytes in whole large pages that holds `size` bytes.
pub fn large_page_bytes(size: usize) -> (r: usize)
    requires
        size + 2_097_151 <= usize::MAX,
    ensures
        r % 2_097_152 == 0,
        size <= r < size + 2_097_152,
{
    (size + (LARGE_PAGE_SIZE - 1)) / LARGE_PAGE_SIZE * LARGE_PAGE_SIZE
}

/// Memory of a size, and whether it is locked.
#[derive(Debug, Clone, Copy, PartialEq, Eq, Structural)]
pub struct HFTMemoryArena {
    pub bytes: usize,
    pub locked: bool,
}

impl HFTMemoryArena {
    /// Memory that is not locked.
    pub fn new(size: usize) -> (a: Self)
        ensures
            a == (HFTMemoryArena { bytes: size, locked: false }),
    {
        HFTMemoryArena { bytes: size, locked: false }
    }

    /// Notes the outcome of locking. Locked memory stays locked, whatever the
    /// outcome: it is not locked twice.
    pub fn lock(&mut self, outcome: Result<(), String>) -> (r: Result<(), String>)
        ensures
            final(self).bytes == old(self).bytes,
            final(self).locked == (old(self).locked || outcome is Ok),
            r == (if old(self).locked {
                Ok::<(), String>(())
            } else {
                outcome
            }),
    {
        if self.locked {
            return Ok(());
        }
        match outcome {
            Ok(done) => {
                self.locked = true;
                Ok(done)
            },
            Err(e) => Err(e),
        }
    }

    /// The memory's size.
    pub fn size(&self) -> (n: usize)
        ensures
            n == self.bytes,
    {
        self.bytes
    }
}

} // verus!
