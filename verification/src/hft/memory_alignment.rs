//! Sizes in whole cache lines, counters of allocations, slots of a slab, and a
//! ring buffer.

use vstd::prelude::*;
use std::collections::VecDeque;

verus! {

/// Bytes in a cache line.
pub const CACHE_LINE_SIZE: usize = 64;

/// Bytes to whose multiples memory is aligned.
pub const CACHE_ALIGN: usize = 64;

/// Whether `r` is the least number of bytes in whole cache lines that holds
/// `size` bytes.
pub open spec fn is_line_size(r: int, size: int) -> bool {
    r % 64 == 0 && size <= r < size + 64
}

/// The least number of bytes in whole cache lines that holds `size` bytes.
pub fn aligned_size(size: usize) -> (r: usize)
    requires
        size + 63 <= usize::MAX,
    ensures
        is_line_size(r as int, size as int),
{
    (size + 63) / 64 * 64
}

/// Counters of allocations. All wrap around at the ends of their range.
#[derive(Debug, Clone, Copy, PartialEq, Eq, Structural)]
pub struct MemoryStats {
    pub allocations: u64,
    pub deallocations: u64,
    pub bytes_allocated: u64,
    pub peak_bytes: u64,
    pub aligned_allocations: u64,
}

impl MemoryStats {
    /// Counters at zero.
    pub open spec fn zero() -> Self {
        MemoryStats {
            allocations: 0,
            deallocations: 0,
            bytes_allocated: 0,
            peak_bytes: 0,
            aligned_allocations: 0,
        }
    }

    /// The counters after an allocation.
    pub open spec fn allocated(self, size: usize, aligned: bool) -> Self {
        let bytes = self.bytes_allocated.wrapping_add(size as u64);
        MemoryStats {
            allocations: self.allocations.wrapping_add(1),
            bytes_allocated: bytes,
            peak_bytes: if bytes > self.peak_bytes {
                bytes
            } else {
                self.peak_bytes
            },
            aligned_allocations: if aligned {
                self.aligned_allocations.wrapping_add(1)
            } else {
                self.aligned_allocations
            },
            ..self
        }
    }

    /// The counters after memory was given back.
    pub open spec fn deallocated(self, size: usize) -> Self {
        MemoryStats {
            deallocations: self.deallocations.wrapping_add(1),
            bytes_allocated: self.bytes_allocated.wrapping_sub(size as u64),
            ..self
        }
    }

    /// Counters at zero.
    pub fn new() -> (s: Self)
        ensures
            s == Self::zero(),
    {
        MemoryStats {
            allocations: 0,
            deallocations: 0,
            bytes_allocated: 0,
            peak_bytes: 0,
            aligned_allocations: 0,
        }
    }

    /// Counts an allocation.
    pub fn record_allocation(&mut self, size: usize, aligned: bool)
        ensures
            *final(self) == old(self).allocated(size, aligned),
    {
        self.allocations = self.allocations.wrapping_add(1);
        self.bytes_allocated = self.bytes_allocated.wrapping_add(size as u64);
        if self.bytes_allocated > self.peak_bytes {
            self.peak_bytes = self.bytes_allocated;
        }
        if aligned {
            self.aligned_allocations = self.aligned_allocations.wrapping_add(1);
        }
    }

    /// Counts memory given back.
    pub fn record_deallocation(&mut self, size: usize)
        ensures
            *final(self) == old(self).deallocated(size),
    {
        self.deallocations = self.deallocations.wrapping_add(1);
        self.bytes_allocated = self.bytes_allocated.wrapping_sub(size as u64);
    }
}

/// The peak is never below what is allocated: an allocation keeps it so, and so
/// does giving back no more than is allocated.
pub proof fn law_peak_bounds_usage(s: MemoryStats, size: usize, aligned: bool)
    requires
        s.bytes_allocated <= s.peak_bytes,
    ensures
        s.allocated(size, aligned).bytes_allocated <= s.allocated(size, aligned).peak_bytes,
        size <= s.bytes_allocated ==> s.deallocated(size).bytes_allocated <= s.deallocated(
            size,
        ).peak_bytes,
{
}

/// Memory that is given back undoes its allocation, but for the counters and
/// the peak.
pub proof fn law_allocation_undone(s: MemoryStats, size: usize, aligned: bool)
    ensures
        s.allocated(size, aligned).deallocated(size).bytes_allocated == s.bytes_allocated,
{
}

/// Counts memory in whole cache lines. Getting the memory is the caller's part.
#[derive(Debug, Clone, Copy, PartialEq, Eq, Structural)]
pub struct CacheAlignedAllocator {
    pub stats: MemoryStats,
    pub use_pool: bool,
}

impl CacheAlignedAllocator {
    /// An allocator that got nothing yet.
    pub fn new() -> (a: Self)
        ensures
            a == (CacheAlignedAllocator { stats: MemoryStats::zero(), use_pool: true }),
    {
        CacheAlignedAllocator { stats: MemoryStats::new(), use_pool: true }
    }

    /// Counts memory that was got for `size` bytes, and gives its length.
    pub fn allocate_aligned(&mut self, size: usize) -> (r: usize)
        requires
            size + 63 <= usize::MAX,
        ensures
            is_line_size(r as int, size as int),
            *final(self) == (CacheAlignedAllocator {
                stats: old(self).stats.allocated(r, true),
                ..*old(self)
            }),
    {
        let aligned: usize = aligned_size(size);
        self.stats.record_allocation(aligned, true);
        aligned
    }

    /// Counts memory of `size` bytes that was given back, and gives its length.
    pub fn deallocate_aligned(&mut self, size: usize) -> (r: usize)
        requires
            size + 63 <= usize::MAX,
        ensures
            is_line_size(r as int, size as int),
            *final(self) == (CacheAlignedAllocator {
                stats: old(self).stats.deallocated(r),
                ..*old(self)
            }),
    {
        let aligned: usize = aligned_size(size);
        self.stats.record_deallocation(aligned);
        aligned
    }

    /// Counts memory that was got for `size` bytes; the pool makes no
    /// difference.
    pub fn allocate_pooled(&mut self, size: usize) -> (r: usize)
        requires
            size + 63 <= usize::MAX,
        ensures
            is_line_size(r as int, size as int),
            *final(self) == (CacheAlignedAllocator {
                stats: old(self).stats.allocated(r, true),
                ..*old(self)
            }),
    {
        self.allocate_aligned(size)
    }

    /// Enables or disables the pool.
    pub fn set_pool_enabled(&mut self, enabled: bool)
        ensures
            *final(self) == (CacheAlignedAllocator { use_pool: enabled, ..*old(self) }),
    {
        self.use_pool = enabled;
    }

    /// Allocations, deallocations, bytes allocated and their peak.
    pub fn get_stats(&self) -> (r: (u64, u64, u64, u64))
        ensures
            r == (
                self.stats.allocations,
                self.stats.deallocations,
                self.stats.bytes_allocated,
                self.stats.peak_bytes,
            ),
    {
        (
            self.stats.allocations,
            self.stats.deallocations,
            self.stats.bytes_allocated,
            self.stats.peak_bytes,
        )
    }

    /// Aligned allocations, and all.
    pub fn get_alignment_ratio(&self) -> (r: (u64, u64))
        ensures
            r == (self.stats.aligned_allocations, self.stats.allocations),
    {
        (self.stats.aligned_allocations, self.stats.allocations)
    }
}

impl Default for CacheAlignedAllocator {
    fn default() -> (a: Self)
        ensures
            a == (CacheAlignedAllocator { stats: MemoryStats::zero(), use_pool: true }),
    {
        CacheAlignedAllocator::new()
    }
}

/// Slots of a slab.
pub const SLOTS: usize = 64;

/// Whether slot `i` is free in a mask.
pub open spec fn is_free(mask: u64, i: int) -> bool {
    (mask >> (i as u64)) & 1 == 1
}

/// How many of the first `n` slots are free.
pub open spec fn free_count(mask: u64, n: int) -> int
    decreases n,
{
    if n <= 0 {
        0
    } else {
        free_count(mask, n - 1) + if is_free(mask, n - 1) {
            1int
        } else {
            0
        }
    }
}

/// The first free slot from `i` on, or the number of slots.
pub open spec fn first_free(mask: u64, i: int) -> int
    decreases 64 - i,
{
    if i >= 64 {
        64
    } else if is_free(mask, i) {
        i
    } else {
        first_free(mask, i + 1)
    }
}

proof fn lemma_first_free(mask: u64, i: int)
    requires
        0 <= i <= 64,
    ensures
        i <= first_free(mask, i) <= 64,
        first_free(mask, i) < 64 ==> is_free(mask, first_free(mask, i)),
        forall|j: int| i <= j < first_free(mask, i) ==> !is_free(mask, j),
    decreases 64 - i,
{
    if i < 64 && !is_free(mask, i) {
        lemma_first_free(mask, i + 1);
    }
}

/// A mask with one slot free or taken.
pub open spec fn with_slot(mask: u64, slot: int, free: bool) -> u64 {
    if free {
        mask | (1u64 << (slot as u64))
    } else {
        mask & !(1u64 << (slot as u64))
    }
}

/// Changing a slot changes that slot and no other.
pub proof fn law_slot_changes_alone(mask: u64, slot: int, free: bool, j: int)
    requires
        0 <= slot < 64,
        0 <= j < 64,
    ensures
        is_free(with_slot(mask, slot, free), j) <==> (if j == slot {
            free
        } else {
            is_free(mask, j)
        }),
{
    let s = slot as u64;
    let k = j as u64;
    if free {
        assert(((mask | (1u64 << s)) >> k) & 1 == (if k == s {
            1u64
        } else {
            (mask >> k) & 1
        })) by (bit_vector)
            requires
                s < 64,
                k < 64,
        ;
    } else {
        assert(((mask & !(1u64 << s)) >> k) & 1 == (if k == s {
            0u64
        } else {
            (mask >> k) & 1
        })) by (bit_vector)
            requires
                s < 64,
                k < 64,
        ;
    }
}

/// Gives out slots for objects of one size.
#[derive(Debug, Clone, Copy, PartialEq, Eq, Structural)]
pub struct SlabAllocator {
    pub object_size: usize,
    pub objects_per_slab: usize,
    /// One bit for each free slot.
    pub available: u64,
    pub slab_count: u64,
    pub stats: MemoryStats,
}

impl SlabAllocator {
    /// An allocator without a slab, for objects in whole cache lines.
    pub fn new(object_size: usize, objects_per_slab: usize) -> (s: Self)
        requires
            object_size + 63 <= usize::MAX,
        ensures
            is_line_size(s.object_size as int, object_size as int),
            s == (SlabAllocator {
                object_size: s.object_size,
                objects_per_slab,
                available: 0,
                slab_count: 0,
                stats: MemoryStats::zero(),
            }),
    {
        SlabAllocator {
            object_size: aligned_size(object_size),
            objects_per_slab,
            available: 0,
            slab_count: 0,
            stats: MemoryStats::new(),
        }
    }

    /// Gives out the first free slot, where there is one.
    pub fn allocate(&mut self) -> (r: Option<usize>)
        ensures
            r == (if first_free(old(self).available, 0) < 64 {
                Some(first_free(old(self).available, 0) as usize)
            } else {
                None
            }),
            *final(self) == (if r is Some {
                SlabAllocator {
                    available: with_slot(
                        old(self).available,
                        first_free(old(self).available, 0),
                        false,
                    ),
                    stats: old(self).stats.allocated(old(self).object_size, true),
                    ..*old(self)
                }
            } else {
                *old(self)
            }),
    {
        let mask: u64 = self.available;
        let mut slot: u64 = 0;
        while slot < 64
            invariant
                slot <= 64,
                mask == self.available,
                *self == *old(self),
                first_free(mask, 0) == first_free(mask, slot as int),
            decreases 64 - slot,
        {
            if (mask >> slot) & 1 == 1 {
                self.available = mask & !(1u64 << slot);
                self.stats.record_allocation(self.object_size, true);
                return Some(slot as usize);
            }
            slot += 1;
        }
        None
    }

    /// Takes a slot back; a number beyond the slots is ignored.
    pub fn deallocate(&mut self, slot: usize)
        ensures
            *final(self) == (if slot < 64 {
                SlabAllocator {
                    available: with_slot(old(self).available, slot as int, true),
                    stats: old(self).stats.deallocated(old(self).object_size),
                    ..*old(self)
                }
            } else {
                *old(self)
            }),
    {
        if slot >= 64 {
            return;
        }
        let s: u64 = slot as u64;
        self.available = self.available | (1u64 << s);
        self.stats.record_deallocation(self.object_size);
    }

    /// Adds a slab: all slots are free.
    pub fn add_slab(&mut self)
        ensures
            *final(self) == (SlabAllocator {
                available: u64::MAX,
                slab_count: old(self).slab_count.wrapping_add(1),
                ..*old(self)
            }),
    {
        self.available = u64::MAX;
        self.slab_count = self.slab_count.wrapping_add(1);
    }

    /// How many slots are taken, and how many there are.
    pub fn get_utilization(&self) -> (r: (usize, usize))
        ensures
            r.0 == 64 - free_count(self.available, 64),
            r.1 == 64,
    {
        let mask: u64 = self.available;
        let mut used: usize = 0;
        let mut i: u64 = 0;
        while i < 64
            invariant
                i <= 64,
                used == i - free_count(mask, i as int),
                used <= i,
            decreases 64 - i,
        {
            if (mask >> i) & 1 == 0 {
                used += 1;
            } else {
                assert((mask >> i) & 1 == 0 || (mask >> i) & 1 == 1) by (bit_vector);
            }
            i += 1;
        }
        (used, SLOTS)
    }
}

/// A slot that was given out is not given out again before it is taken back.
pub proof fn law_slot_given_once(mask: u64)
    requires
        first_free(mask, 0) < 64,
    ensures
        ({
            let slot = first_free(mask, 0);
            &&& is_free(mask, slot)
            &&& !is_free(with_slot(mask, slot, false), slot)
            &&& first_free(with_slot(mask, slot, false), 0) > slot
            &&& first_free(with_slot(with_slot(mask, slot, false), slot, true), 0) == slot
        }),
{
    let slot = first_free(mask, 0);
    let taken = with_slot(mask, slot, false);
    let back = with_slot(taken, slot, true);
    lemma_first_free(mask, 0);
    lemma_first_free(taken, 0);
    lemma_first_free(back, 0);
    law_slot_changes_alone(mask, slot, false, slot);
    law_slot_changes_alone(taken, slot, true, slot);
    let next = first_free(taken, 0);
    if next < 64 {
        law_slot_changes_alone(mask, slot, false, next);
    }
    let again = first_free(back, 0);
    if again < 64 {
        law_slot_changes_alone(taken, slot, true, again);
        law_slot_changes_alone(mask, slot, false, again);
    }
}

/// Whether `r` is the least power of two that is not below `n`.
pub open spec fn is_power_above(r: int, n: int) -> bool {
    exists|k: nat| #[trigger]
        vstd::arithmetic::power2::pow2(k) == r && n <= r && (r == 1 || r < 2 * n)
}

fn next_power(n: usize) -> (r: usize)
    requires
        n <= usize::MAX / 2 + 1,
    ensures
        is_power_above(r as int, n as int),
        r >= 1,
{
    let mut r: usize = 1;
    let ghost mut k: nat = 0;
    proof {
        vstd::arithmetic::power2::lemma2_to64();
    }
    while r < n
        invariant
            n <= usize::MAX / 2 + 1,
            r == vstd::arithmetic::power2::pow2(k),
            r >= 1,
            r == 1 || r < 2 * n,
        decreases 2 * n - r,
    {
        proof {
            vstd::arithmetic::power2::lemma_pow2_unfold(k + 1);
            k = k + 1;
        }
        r = r * 2;
    }
    assert(vstd::arithmetic::power2::pow2(k) == r);
    r
}

/// A queue of limited capacity.
#[derive(Debug, Clone)]
pub struct CachePaddedRingBuffer<T> {
    pub data: VecDeque<T>,
    pub capacity: usize,
}

impl<T> CachePaddedRingBuffer<T> {
    /// No more items are held than the capacity.
    pub open spec fn wf(&self) -> bool {
        self.data@.len() <= self.capacity && self.capacity > 0
    }

    /// An empty buffer; the capacity is rounded up to a power of two.
    pub fn new(capacity: usize) -> (b: Self)
        requires
            capacity <= usize::MAX / 2 + 1,
        ensures
            b.wf(),
            b.data@.len() == 0,
            is_power_above(b.capacity as int, capacity as int),
    {
        CachePaddedRingBuffer { data: VecDeque::new(), capacity: next_power(capacity) }
    }

    /// Appends an item where there is room.
    pub fn push(&mut self, item: T) -> (r: bool)
        requires
            old(self).wf(),
        ensures
            final(self).wf(),
            r == (old(self).data@.len() < old(self).capacity),
            final(self).data@ == (if r {
                old(self).data@.push(item)
            } else {
                old(self).data@
            }),
            final(self).capacity == old(self).capacity,
    {
        if self.data.len() >= self.capacity {
            return false;
        }
        self.data.push_back(item);
        true
    }

    /// Takes the oldest item out.
    pub fn pop(&mut self) -> (r: Option<T>)
        requires
            old(self).wf(),
        ensures
            final(self).wf(),
            r == (if old(self).data@.len() > 0 {
                Some(old(self).data@[0])
            } else {
                None
            }),
            final(self).data@ == (if old(self).data@.len() > 0 {
                old(self).data@.skip(1)
            } else {
                old(self).data@
            }),
            final(self).capacity == old(self).capacity,
    {
        let r: Option<T> = self.data.pop_front();
        assert(r is Some ==> self.data@ =~= old(self).data@.skip(1));
        r
    }

    /// Whether there are no items.
    pub fn is_empty(&self) -> (r: bool)
        ensures
            r == (self.data@.len() == 0),
    {
        self.data.len() == 0
    }

    /// Whether there is no room.
    pub fn is_full(&self) -> (r: bool)
        ensures
            r == (self.data@.len() >= self.capacity),
    {
        self.data.len() >= self.capacity
    }

    /// How many items there are.
    pub fn len(&self) -> (n: usize)
        ensures
            n == self.data@.len(),
    {
        self.data.len()
    }
}

/// Counts the allocations of a thread.
#[derive(Debug, Clone, Copy, PartialEq, Eq, Structural)]
pub struct ThreadLocalAllocTracker {
    pub thread_allocations: u64,
    pub thread_bytes: u64,
}

impl ThreadLocalAllocTracker {
    /// Counters at zero.
    pub fn new() -> (t: Self)
        ensures
            t == (ThreadLocalAllocTracker { thread_allocations: 0, thread_bytes: 0 }),
    {
        ThreadLocalAllocTracker { thread_allocations: 0, thread_bytes: 0 }
    }

    /// Counts an allocation.
    pub fn track(&mut self, size: usize)
        ensures
            *final(self) == (ThreadLocalAllocTracker {
                thread_allocations: old(self).thread_allocations.wrapping_add(1),
                thread_bytes: old(self).thread_bytes.wrapping_add(size as u64),
            }),
    {
        self.thread_allocations = self.thread_allocations.wrapping_add(1);
        self.thread_bytes = self.thread_bytes.wrapping_add(size as u64);
    }

    /// Allocations and bytes.
    pub fn get_stats(&self) -> (r: (u64, u64))
        ensures
            r == (self.thread_allocations, self.thread_bytes),
    {
        (self.thread_allocations, self.thread_bytes)
    }
}

impl Default for ThreadLocalAllocTracker {
    fn default() -> (t: Self)
        ensures
            t == (ThreadLocalAllocTracker { thread_allocations: 0, thread_bytes: 0 }),
    {
        ThreadLocalAllocTracker::new()
    }
}

} // verus!
