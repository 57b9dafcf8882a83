//! Sizes of cache lines.

use vstd::prelude::*;

verus! {

/// Bytes in a cache line.
pub const CACHE_LINE_SIZE: usize = 64;

} // verus!
