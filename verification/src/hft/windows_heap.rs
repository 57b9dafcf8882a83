//! Bookkeeping of a private heap, and places in an arena of blocks. Getting the
//! memory is the caller's part.

use vstd::prelude::*;

verus! {

/// Bytes in a block for ticks.
pub const ARENA_BLOCK_SIZE: usize = 67_108_864;

/// Blocks for ticks, at most.
pub const MAX_ARENA_COUNT: usize = 16;

/// Counts what a heap gave out.
#[derive(Debug, Clone, Copy, PartialEq, Eq, Structural)]
pub struct HFTheap {
    pub bytes: usize,
    pub count: usize,
}

impl HFTheap {
    /// A heap that gave out nothing.
    pub fn create() -> (h: Self)
        ensures
            h == (HFTheap { bytes: 0, count: 0 }),
    {
        HFTheap { bytes: 0, count: 0 }
    }

    /// Counts memory that was given out.
    pub fn allocate(&mut self, size: usize)
        requires
            old(self).bytes + size <= usize::MAX,
            old(self).count < usize::MAX,
        ensures
            *final(self) == (HFTheap {
                bytes: (old(self).bytes + size) as usize,
                count: (old(self).count + 1) as usize,
            }),
    {
        self.bytes = self.bytes + size;
        self.count = self.count + 1;
    }

    /// Counts memory that came back.
    pub fn free(&mut self, size: usize)
        requires
            size <= old(self).bytes,
            old(self).count > 0,
        ensures
            *final(self) == (HFTheap {
                bytes: (old(self).bytes - size) as usize,
                count: (old(self).count - 1) as usize,
            }),
    {
        self.bytes = self.bytes - size;
        self.count = self.count - 1;
    }

    /// Bytes given out.
    pub fn allocated_bytes(&self) -> (n: usize)
        ensures
            n == self.bytes,
    {
        self.bytes
    }

    /// Pieces given out.
    pub fn allocation_count(&self) -> (n: usize)
        ensures
            n == self.count,
    {
        self.count
    }
}

/// Where a piece of an arena lies.
#[derive(Debug, Clone, Copy, PartialEq, Eq, Structural)]
pub struct ArenaPlace {
    pub block: usize,
    pub offset: usize,
}

/// Blocks of equal size, used from the first to the last.
#[derive(Debug, Clone, Copy, PartialEq, Eq, Structural)]
pub struct MemoryArena {
    pub blocks: usize,
    pub current_block: usize,
    pub current_offset: usize,
    pub block_size: usize,
}

impl MemoryArena {
    /// What is used lies within the blocks.
    pub open spec fn wf(&self) -> bool {
        self.current_block <= self.blocks && self.current_offset <= self.block_size
    }

    /// Where the next piece goes: behind the last one, or at the start of the
    /// next block where it does not fit. Nothing where the blocks are used up.
    pub open spec fn place(self, size: usize) -> Option<ArenaPlace> {
        if self.current_block >= self.blocks {
            None
        } else if self.current_offset + size <= self.block_size {
            Some(ArenaPlace { block: self.current_block, offset: self.current_offset })
        } else if self.current_block + 1 < self.blocks {
            Some(ArenaPlace { block: (self.current_block + 1) as usize, offset: 0 })
        } else {
            None
        }
    }

    /// The arena once a piece was asked for.
    pub open spec fn after(self, size: usize) -> Self {
        match self.place(size) {
            Some(p) => MemoryArena {
                current_block: p.block,
                current_offset: (p.offset + size) as usize,
                ..self
            },
            None => if self.current_block >= self.blocks {
                self
            } else {
                MemoryArena {
                    current_block: (self.current_block + 1) as usize,
                    current_offset: 0,
                    ..self
                }
            },
        }
    }

    /// An unused arena.
    pub fn new(initial_blocks: usize, block_size: usize) -> (a: Self)
        ensures
            a.wf(),
            a == (MemoryArena {
                blocks: initial_blocks,
                current_block: 0,
                current_offset: 0,
                block_size,
            }),
    {
        MemoryArena { blocks: initial_blocks, current_block: 0, current_offset: 0, block_size }
    }

    /// Gives out the next piece, of no more than a block.
    pub fn allocate(&mut self, size: usize) -> (r: Option<ArenaPlace>)
        requires
            old(self).wf(),
            size <= old(self).block_size,
        ensures
            final(self).wf(),
            r == old(self).place(size),
            *final(self) == old(self).after(size),
    {
        if self.current_block >= self.blocks {
            return None;
        }
        if size > self.block_size - self.current_offset {
            self.current_block = self.current_block + 1;
            self.current_offset = 0;
            if self.current_block >= self.blocks {
                return None;
            }
        }
        let place = ArenaPlace { block: self.current_block, offset: self.current_offset };
        self.current_offset = self.current_offset + size;
        Some(place)
    }

    /// Takes everything back.
    pub fn reset(&mut self)
        ensures
            final(self).wf(),
            *final(self) == (MemoryArena { current_block: 0, current_offset: 0, ..*old(self) }),
    {
        self.current_block = 0;
        self.current_offset = 0;
    }

    /// Bytes in all blocks.
    pub fn total_capacity(&self) -> (n: usize)
        requires
            self.blocks * self.block_size <= usize::MAX,
        ensures
            n == self.blocks * self.block_size,
    {
        self.blocks * self.block_size
    }
}

/// A piece lies within its block, and behind all pieces given out before.
pub proof fn law_pieces_do_not_overlap(a: MemoryArena, first: usize, second: usize)
    requires
        a.wf(),
        first <= a.block_size,
        second <= a.block_size,
        a.place(first) is Some,
        a.after(first).place(second) is Some,
    ensures
        ({
            let p = a.place(first)->0;
            let q = a.after(first).place(second)->0;
            &&& p.block < a.blocks && p.offset + first <= a.block_size
            &&& q.block < a.blocks && q.offset + second <= a.block_size
            &&& q.block > p.block || (q.block == p.block && q.offset >= p.offset + first)
        }),
{
}

/// How many blocks hold `capacity` ticks of `item_size` bytes: one more than
/// they fill, sixteen at most.
pub fn blocks_for(capacity: usize, item_size: usize) -> (n: usize)
    requires
        capacity * item_size <= usize::MAX,
    ensures
        n == (if capacity * item_size / 67_108_864 + 1 < 16 {
            capacity * item_size / 67_108_864 + 1
        } else {
            16
        }),
{
    let bytes: usize = capacity * item_size;
    let blocks: usize = bytes / ARENA_BLOCK_SIZE + 1;
    if blocks < MAX_ARENA_COUNT {
        blocks
    } else {
        MAX_ARENA_COUNT
    }
}

} // verus!
