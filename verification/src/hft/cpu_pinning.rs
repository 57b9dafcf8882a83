//! Which thread runs on which core.

use vstd::prelude::*;
use std::collections::HashMap;
use crate::base::text::{decimal, push_decimal, same};

verus! {

broadcast use vstd::std_specs::hash::group_hash_axioms;

/// A core complex: cores that share a cache.
#[derive(Debug, Clone)]
pub struct CcxTopology {
    pub ccx_id: u32,
    pub core_ids: Vec<u32>,
    pub l3_cache_mb: u32,
    pub numa_node: u32,
}

/// How urgently a thread is scheduled.
#[derive(Debug, Clone, Copy, PartialEq, Eq, Structural)]
pub enum ThreadPriority {
    Normal,
    High,
    RealTime,
    FIFORt,
}

/// A scheduling policy of the operating system.
#[derive(Debug, Clone, Copy, PartialEq, Eq, Structural)]
pub enum SchedulingPolicy {
    Other,
    Batch,
    Fifo,
}

impl ThreadPriority {
    /// How the scheduler treats a thread of this priority.
    pub open spec fn policy(self) -> (SchedulingPolicy, i32) {
        match self {
            ThreadPriority::Normal => (SchedulingPolicy::Other, 0i32),
            ThreadPriority::High => (SchedulingPolicy::Batch, 5),
            ThreadPriority::RealTime => (SchedulingPolicy::Fifo, 50),
            ThreadPriority::FIFORt => (SchedulingPolicy::Fifo, 99),
        }
    }

    /// The policy and the static priority to ask for.
    pub fn scheduling(&self) -> (r: (SchedulingPolicy, i32))
        ensures
            r == self.policy(),
    {
        match self {
            ThreadPriority::Normal => (SchedulingPolicy::Other, 0),
            ThreadPriority::High => (SchedulingPolicy::Batch, 5),
            ThreadPriority::RealTime => (SchedulingPolicy::Fifo, 50),
            ThreadPriority::FIFORt => (SchedulingPolicy::Fifo, 99),
        }
    }
}

/// Where and how a thread runs.
#[derive(Debug, Clone, Copy, PartialEq, Eq, Structural)]
pub struct CpuPinConfig {
    pub core_id: u32,
    pub ccx_id: u32,
    pub numa_node: u32,
    pub priority: ThreadPriority,
    pub isolate: bool,
}

/// Cores in a complex.
pub const CORES_PER_CCX: u32 = 6;

/// The number of CPUs that `num_cpus::get` finds: at least one. How many
/// depends on the machine.
#[verifier::external_body]
pub(crate) fn cpu_count() -> (n: usize)
    ensures
        n >= 1,
{
    num_cpus::get()
}

/// A count of CPUs in 32 bits.
pub open spec fn cores_counted(n: usize) -> u32 {
    n as u32
}

/// The number of complexes of a machine with `total` cores.
pub open spec fn ccx_count(total: u32) -> int {
    (total + 5) / 6
}

/// Whether `c` is complex `i` of a machine with `total` cores: six cores in a
/// row, fewer in the last.
pub open spec fn is_ccx(c: CcxTopology, total: u32, i: int) -> bool {
    &&& c.ccx_id == i
    &&& c.l3_cache_mb == 16
    &&& c.numa_node == 0
    &&& c.core_ids@.len() == (if total - 6 * i < 6 {
        total - 6 * i
    } else {
        6
    })
    &&& forall|k: int| 0 <= k < c.core_ids@.len() ==> #[trigger] c.core_ids@[k] == 6 * i + k
}

/// Whether `s` are the complexes of a machine with `total` cores.
pub open spec fn is_topology(s: Seq<CcxTopology>, total: u32) -> bool {
    s.len() == ccx_count(total) && forall|i: int|
        0 <= i < s.len() ==> is_ccx(#[trigger] s[i], total, i)
}

/// The complex, the place in it, the priority and the isolation for a kind of
/// thread, on a machine with `n` complexes.
pub open spec fn placement(thread_type: Seq<char>, n: int) -> (int, int, ThreadPriority, bool) {
    if thread_type == "market_data"@ {
        (0, 0, ThreadPriority::RealTime, true)
    } else if thread_type == "order_routing"@ {
        (0, 1, ThreadPriority::FIFORt, true)
    } else if thread_type == "risk_manager"@ {
        (0, 2, ThreadPriority::High, false)
    } else if thread_type == "strategy"@ {
        (1, 0, ThreadPriority::High, false)
    } else if thread_type == "logging"@ {
        (n - 1, 5, ThreadPriority::Normal, false)
    } else {
        (0, 0, ThreadPriority::Normal, false)
    }
}

/// The core for a kind of thread, where the machine has it.
pub open spec fn optimal_core(topology: Seq<CcxTopology>, thread_type: Seq<char>) -> Option<
    CpuPinConfig,
> {
    let p = placement(thread_type, topology.len() as int);
    if topology.len() == 0 || p.0 >= topology.len() || p.1 >= topology[p.0].core_ids@.len() {
        None
    } else {
        Some(
            CpuPinConfig {
                core_id: topology[p.0].core_ids@[p.1],
                ccx_id: topology[p.0].ccx_id,
                numa_node: topology[p.0].numa_node,
                priority: p.2,
                isolate: p.3,
            },
        )
    }
}

/// Why a core cannot be used.
pub open spec fn invalid_core_text(core_id: u32, total: u32) -> Seq<char> {
    "Invalid core ID: "@ + decimal(core_id as nat) + " (max: "@ + decimal((total - 1) as nat)
        + ")"@
}

/// The cores of a machine, and what runs on them.
#[derive(Debug, Clone)]
pub struct CpuPinningManager {
    pub total_cores: u32,
    pub pinned_count: u32,
    pub isolation_enabled: bool,
    pub ccx_topology: Vec<CcxTopology>,
    /// From core to thread.
    pub pinning_map: HashMap<u32, u64>,
}

impl CpuPinningManager {
    /// A manager for a machine with `total_cores` cores.
    pub fn with_cores(total_cores: u32) -> (m: Self)
        ensures
            m.total_cores == total_cores,
            m.pinned_count == 0,
            !m.isolation_enabled,
            m.ccx_topology@.len() == 0,
            m.pinning_map@ == Map::<u32, u64>::empty(),
    {
        CpuPinningManager {
            total_cores,
            pinned_count: 0,
            isolation_enabled: false,
            ccx_topology: Vec::new(),
            pinning_map: HashMap::new(),
        }
    }

    /// A manager for this machine.
    pub fn new() -> (m: Self)
        ensures
            exists|n: usize| n >= 1 && m.total_cores == #[trigger] cores_counted(n),
            m.pinned_count == 0,
            !m.isolation_enabled,
            m.ccx_topology@.len() == 0,
            m.pinning_map@ == Map::<u32, u64>::empty(),
    {
        let n: usize = cpu_count();
        assert(n as u32 == cores_counted(n));
        Self::with_cores(n as u32)
    }

    /// Works out the complexes.
    pub fn initialize(&mut self) -> (r: Result<(), String>)
        ensures
            r is Ok,
            is_topology(final(self).ccx_topology@, old(self).total_cores),
            final(self).total_cores == old(self).total_cores,
            final(self).pinned_count == old(self).pinned_count,
            final(self).isolation_enabled == old(self).isolation_enabled,
            final(self).pinning_map == old(self).pinning_map,
    {
        let total: u32 = self.total_cores;
        let mut topology: Vec<CcxTopology> = Vec::new();
        let mut ccx_id: u32 = 0;
        let mut core_start: u32 = 0;
        while core_start < total
            invariant
                ccx_id == topology@.len(),
                ccx_id <= ccx_count(total),
                core_start == (if 6 * ccx_id < total {
                    6 * ccx_id
                } else {
                    total as int
                }),
                core_start == total ==> ccx_id == ccx_count(total),
                core_start < total ==> ccx_id < ccx_count(total),
                forall|i: int| 0 <= i < topology@.len() ==> is_ccx(#[trigger] topology@[i], total, i),
            decreases total - core_start,
        {
            let core_end: u32 = if total - core_start < CORES_PER_CCX {
                total
            } else {
                core_start + CORES_PER_CCX
            };
            let mut core_ids: Vec<u32> = Vec::new();
            let mut core: u32 = core_start;
            while core < core_end
                invariant
                    core_start <= core <= core_end,
                    core_ids@.len() == core - core_start,
                    forall|k: int|
                        0 <= k < core_ids@.len() ==> #[trigger] core_ids@[k] == core_start + k,
                decreases core_end - core,
            {
                core_ids.push(core);
                core += 1;
            }
            topology.push(CcxTopology { ccx_id, core_ids, l3_cache_mb: 16, numa_node: 0 });
            ccx_id += 1;
            core_start = core_end;
        }
        self.ccx_topology = topology;
        Ok(())
    }

    /// Whether a thread can be pinned to a core of this machine.
    pub fn check_core(&self, config: &CpuPinConfig) -> (r: Result<(), String>)
        requires
            self.total_cores > 0,
        ensures
            r is Ok <==> config.core_id < self.total_cores,
            r is Err ==> r->Err_0@ == invalid_core_text(config.core_id, self.total_cores),
    {
        if config.core_id >= self.total_cores {
            let mut text: String = "Invalid core ID: ".to_string();
            push_decimal(&mut text, config.core_id as u64);
            text.push_str(" (max: ");
            push_decimal(&mut text, (self.total_cores - 1) as u64);
            text.push_str(")");
            return Err(text);
        }
        Ok(())
    }

    /// Records that a thread was pinned to a core.
    pub fn record_pinning(&mut self, core_id: u32, thread_id: u64)
        ensures
            final(self).pinning_map@ == old(self).pinning_map@.insert(core_id, thread_id),
            final(self).pinned_count == old(self).pinned_count.wrapping_add(1),
            final(self).total_cores == old(self).total_cores,
            final(self).isolation_enabled == old(self).isolation_enabled,
            final(self).ccx_topology == old(self).ccx_topology,
    {
        let _ = self.pinning_map.insert(core_id, thread_id);
        self.pinned_count = self.pinned_count.wrapping_add(1);
    }

    /// The core for a kind of thread, where the machine has it.
    pub fn get_optimal_core(&self, thread_type: &str) -> (r: Option<CpuPinConfig>)
        ensures
            r == optimal_core(self.ccx_topology@, thread_type@),
    {
        let len: usize = self.ccx_topology.len();
        if len == 0 {
            return None;
        }
        let ccx_idx: usize;
        let core_offset: usize;
        let priority: ThreadPriority;
        let isolate: bool;
        if same(thread_type, "market_data") {
            ccx_idx = 0;
            core_offset = 0;
            priority = ThreadPriority::RealTime;
            isolate = true;
        } else if same(thread_type, "order_routing") {
            ccx_idx = 0;
            core_offset = 1;
            priority = ThreadPriority::FIFORt;
            isolate = true;
        } else if same(thread_type, "risk_manager") {
            ccx_idx = 0;
            core_offset = 2;
            priority = ThreadPriority::High;
            isolate = false;
        } else if same(thread_type, "strategy") {
            ccx_idx = 1;
            core_offset = 0;
            priority = ThreadPriority::High;
            isolate = false;
        } else if same(thread_type, "logging") {
            ccx_idx = len - 1;
            core_offset = 5;
            priority = ThreadPriority::Normal;
            isolate = false;
        } else {
            ccx_idx = 0;
            core_offset = 0;
            priority = ThreadPriority::Normal;
            isolate = false;
        }
        if ccx_idx >= len {
            return None;
        }
        let ccx: &CcxTopology = &self.ccx_topology[ccx_idx];
        if core_offset >= ccx.core_ids.len() {
            return None;
        }
        Some(
            CpuPinConfig {
                core_id: ccx.core_ids[core_offset],
                ccx_id: ccx.ccx_id,
                numa_node: ccx.numa_node,
                priority,
                isolate,
            },
        )
    }

    /// Whether a thread is pinned to a core.
    pub fn is_core_pinned(&self, core_id: u32) -> (r: bool)
        ensures
            r == self.pinning_map@.contains_key(core_id),
    {
        self.pinning_map.contains_key(&core_id)
    }

    /// Cores, pinnings, and whether cores are isolated.
    pub fn get_stats(&self) -> (r: (u32, u32, bool))
        ensures
            r == (self.total_cores, self.pinned_count, self.isolation_enabled),
    {
        (self.total_cores, self.pinned_count, self.isolation_enabled)
    }

    /// Isolates pinned cores.
    pub fn enable_isolation(&mut self)
        ensures
            *final(self) == (CpuPinningManager { isolation_enabled: true, ..*old(self) }),
    {
        self.isolation_enabled = true;
    }

    /// The complexes.
    pub fn get_topology(&self) -> (r: &Vec<CcxTopology>)
        ensures
            *r == self.ccx_topology,
    {
        &self.ccx_topology
    }
}

impl Default for CpuPinningManager {
    fn default() -> (m: Self)
        ensures
            exists|n: usize| n >= 1 && m.total_cores == #[trigger] cores_counted(n),
            m.pinned_count == 0,
            !m.isolation_enabled,
            m.ccx_topology@.len() == 0,
            m.pinning_map@ == Map::<u32, u64>::empty(),
    {
        CpuPinningManager::new()
    }
}

/// The complexes hold every core once: core `c` is core `c % 6` of complex
/// `c / 6`.
pub proof fn law_every_core_placed(s: Seq<CcxTopology>, total: u32, c: u32)
    requires
        is_topology(s, total),
        c < total,
    ensures
        c as int / 6 < s.len(),
        (c as int % 6) < s[c as int / 6].core_ids@.len(),
        s[c as int / 6].core_ids@[c as int % 6] == c,
{
    let i = c as int / 6;
    assert(is_ccx(s[i], total, i));
}

/// A core that is chosen for a thread exists on the machine.
pub proof fn law_chosen_core_exists(s: Seq<CcxTopology>, total: u32, thread_type: Seq<char>)
    requires
        is_topology(s, total),
    ensures
        optimal_core(s, thread_type) is Some ==> optimal_core(s, thread_type)->0.core_id < total,
{
    let p = placement(thread_type, s.len() as int);
    if optimal_core(s, thread_type) is Some {
        assert(is_ccx(s[p.0], total, p.0));
    }
}

} // verus!
