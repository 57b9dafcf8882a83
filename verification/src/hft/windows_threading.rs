//! Threads bound to cores.

use vstd::prelude::*;
use crate::base::text::{decimal, push_decimal};

verus! {

/// Logical cores that an affinity mask can name.
pub const MAX_LOGICAL_PROCESSORS: usize = 64;

/// The highest priority of a thread.
pub const THREAD_PRIORITY_TIME_CRITICAL: i32 = 15;

/// Where a thread runs.
#[derive(Debug, Clone, Copy, PartialEq, Eq, Structural)]
pub struct ThreadAffinityConfig {
    pub core_id: usize,
    pub disable_smt: bool,
    pub priority: i32,
}

impl Default for ThreadAffinityConfig {
    fn default() -> (c: Self)
        ensures
            c == (ThreadAffinityConfig { core_id: 0, disable_smt: true, priority: 15 }),
    {
        ThreadAffinityConfig {
            core_id: 0,
            disable_smt: true,
            priority: THREAD_PRIORITY_TIME_CRITICAL,
        }
    }
}

/// Threads of the trading system.
#[derive(Debug, Clone)]
pub struct HFTThreadManager {
    pub running: bool,
    pub cores: Vec<usize>,
}

impl HFTThreadManager {
    /// A stopped manager without threads.
    pub fn new() -> (m: Self)
        ensures
            !m.running,
            m.cores@.len() == 0,
    {
        HFTThreadManager { running: false, cores: Vec::new() }
    }

    /// The affinity mask of one core.
    pub fn affinity_mask(core_id: usize) -> (mask: u64)
        requires
            core_id < MAX_LOGICAL_PROCESSORS,
        ensures
            mask == 1u64 << (core_id as u64),
            forall|k: u64| k < 64 ==> (#[trigger] (mask >> k) & 1 == 1 <==> k == core_id),
    {
        let c: u64 = core_id as u64;
        let mask: u64 = 1u64 << c;
        assert(forall|k: u64| k < 64 ==> (#[trigger] (mask >> k) & 1 == 1 <==> k == c))
            by (bit_vector)
            requires
                mask == 1u64 << c,
                c < 64,
        ;
        mask
    }

    /// The physical cores of the first and of the second core complex; the
    /// first is for what must be fast.
    pub fn get_amd_zen_core_layout() -> (r: (Vec<usize>, Vec<usize>))
        ensures
            r.0@ == seq![0usize, 2, 4],
            r.1@ == seq![6usize, 8, 10],
    {
        let mut first: Vec<usize> = Vec::new();
        first.push(0);
        first.push(2);
        first.push(4);
        let mut second: Vec<usize> = Vec::new();
        second.push(6);
        second.push(8);
        second.push(10);
        assert(first@ =~= seq![0usize, 2, 4]);
        assert(second@ =~= seq![6usize, 8, 10]);
        (first, second)
    }

    /// The even core of the pair that a core belongs to.
    pub fn get_physical_core_without_smt(logical_core: usize) -> (r: usize)
        ensures
            r % 2 == 0,
            r == logical_core || r + 1 == logical_core,
    {
        if logical_core % 2 == 1 {
            logical_core - 1
        } else {
            logical_core
        }
    }

    /// The name of a thread on a core.
    pub fn thread_name(core_id: usize) -> (s: String)
        ensures
            s@ == "hft-core-"@ + decimal(core_id as nat),
    {
        let mut s: String = "hft-core-".to_string();
        push_decimal(&mut s, core_id as u64);
        s
    }

    /// Starts the manager.
    pub fn start(&mut self)
        ensures
            *final(self) == (HFTThreadManager { running: true, ..*old(self) }),
    {
        self.running = true;
    }

    /// Stops the manager.
    pub fn stop(&mut self)
        ensures
            *final(self) == (HFTThreadManager { running: false, ..*old(self) }),
    {
        self.running = false;
    }

    /// Whether the manager runs.
    pub fn is_running(&self) -> (r: bool)
        ensures
            r == self.running,
    {
        self.running
    }

    /// The cores with threads.
    pub fn bound_cores(&self) -> (r: &[usize])
        ensures
            r@ == self.cores@,
    {
        self.cores.as_slice()
    }
}

impl Default for HFTThreadManager {
    fn default() -> (m: Self)
        ensures
            !m.running,
            m.cores@.len() == 0,
    {
        HFTThreadManager::new()
    }
}

} // verus!
