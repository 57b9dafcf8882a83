//! What is asked of the machine.

use vstd::prelude::*;
use crate::hft::core_parking_disabler::{
    parking_key, processor_args, registry_args, CommandOutcome, PowerStep,
};
use crate::hft::cpu_pinning::{
    is_topology, optimal_core, CcxTopology, SchedulingPolicy, ThreadPriority,
};
use crate::hft::memory_alignment::{
    first_free, free_count, is_free, is_line_size, MemoryStats,
};
use crate::hft::msvc_optimizer::{MsvcOptimizerConfig, PanicStrategy};
use crate::hft::ram_enforcer_win::{MemoryPressure, RamEnforcer};
use crate::hft::windows_heap::MemoryArena;
use crate::hft::windows_iocp::{action_for, CompletionAction};
use crate::hft::windows_tcp_tuning::{SocketOption, TcpTuningConfig};

verus! {

/// Settings of processors are changed by the power tool, and those of parking
/// and of idle states in the registry: parking is switched off with the least
/// value and on again with the greatest.
pub proof fn law_power_commands()
    ensures
        PowerStep::SetBoost.program() == "powercfg"@,
        PowerStep::Activate.program() == "powercfg"@,
        PowerStep::ActivateRestored.program() == "powercfg"@,
        PowerStep::DisableDemotion.program() == "powercfg"@,
        PowerStep::DisableParking.program() == "reg"@,
        PowerStep::EnableParking.program() == "reg"@,
        PowerStep::DisableIdleState.program() == "reg"@,
        PowerStep::DisableParking.args().len() == 9,
        PowerStep::DisableParking.args()[1] == parking_key(),
        PowerStep::DisableParking.args()[7] == "0"@,
        PowerStep::EnableParking.args()[1] == parking_key(),
        PowerStep::EnableParking.args()[7] == "100"@,
        PowerStep::DisableIdleState.args()[7] == "0"@,
        PowerStep::SetBoost.args()[3] == "PERFBOOSTMODE"@,
        PowerStep::SetBoost.args()[4] == "3"@,
        PowerStep::DisableDemotion.args()[3] == "IDLEDEMOTE"@,
        PowerStep::DisableDemotion.args()[4] == "0"@,
        PowerStep::Activate.args() == seq!["/SETACTIVE"@, "SCHEME_CURRENT"@],
        PowerStep::ActivateRestored.args() == PowerStep::Activate.args(),
{
}

/// Arguments stand in the order that the tools take them.
pub proof fn law_power_arguments(key: Seq<char>, setting: Seq<char>, value: Seq<char>)
    ensures
        registry_args(key, value) == seq![
            "ADD"@,
            key,
            "/v"@,
            "ValueMax"@,
            "/t"@,
            "REG_DWORD"@,
            "/d"@,
            value,
            "/f"@,
        ],
        processor_args(setting, value) == seq![
            "/setacvalueindex"@,
            "SCHEME_CURRENT"@,
            "SUB_PROCESSOR"@,
            setting,
            value,
        ],
{
}

/// Boost, parking and activation follow one another; parking that is switched on
/// is activated; idle states come before their demotion. A change fails only at
/// its step in the registry of parking, and only where that did not succeed.
pub proof fn law_power_steps(s: PowerStep, o: CommandOutcome)
    ensures
        PowerStep::SetBoost.successor() == Some(PowerStep::DisableParking),
        PowerStep::DisableParking.successor() == Some(PowerStep::Activate),
        PowerStep::Activate.successor() is None,
        PowerStep::EnableParking.successor() == Some(PowerStep::ActivateRestored),
        PowerStep::ActivateRestored.successor() is None,
        PowerStep::DisableIdleState.successor() == Some(PowerStep::DisableDemotion),
        PowerStep::DisableDemotion.successor() is None,
        s.failure(o) is Some <==> (s == PowerStep::DisableParking || s == PowerStep::EnableParking)
            && !(o is Succeeded),
{
}

/// A core belongs to the complex of its six, and a machine has as many as its
/// cores need.
pub proof fn law_cores_by_six(s: Seq<CcxTopology>, total: u32, core: u32)
    requires
        is_topology(s, total),
        core < total,
    ensures
        6 * s.len() >= total,
        6 * (s.len() - 1) < total,
        ({
            let i = core as int / 6;
            &&& 0 <= i < s.len()
            &&& s[i].ccx_id == i
            &&& s[i].core_ids@.contains(core)
            &&& s[i].core_ids@.len() <= 6
            &&& forall|k: int| 0 <= k < s[i].core_ids@.len() ==> #[trigger] s[i].core_ids@[k] < total
        }),
{
    let i = core as int / 6;
    assert(s[i].ccx_id == i);
    let k = core as int - 6 * i;
    assert(s[i].core_ids@[k] == core);
}

/// Market data comes first on the first complex, orders next to it and risk
/// behind them; strategies have the second complex and logging the last.
pub proof fn law_threads_placed(s: Seq<CcxTopology>, total: u32)
    requires
        is_topology(s, total),
        total >= 12,
        total % 6 == 0,
    ensures
        optimal_core(s, "market_data"@) matches Some(c) && c.core_id == 0 && c.priority
            == ThreadPriority::RealTime && c.isolate,
        optimal_core(s, "order_routing"@) matches Some(c) && c.core_id == 1 && c.priority
            == ThreadPriority::FIFORt && c.isolate,
        optimal_core(s, "risk_manager"@) matches Some(c) && c.core_id == 2 && c.priority
            == ThreadPriority::High && !c.isolate,
        optimal_core(s, "strategy"@) matches Some(c) && c.core_id == 6 && c.priority
            == ThreadPriority::High && !c.isolate,
        optimal_core(s, "logging"@) matches Some(c) && c.core_id == total - 1 && c.priority
            == ThreadPriority::Normal && !c.isolate,
{
    reveal_strlit("market_data");
    reveal_strlit("order_routing");
    reveal_strlit("risk_manager");
    reveal_strlit("strategy");
    reveal_strlit("logging");
    assert("market_data"@.len() == 11);
    assert("order_routing"@.len() == 13);
    assert("risk_manager"@.len() == 12);
    assert("strategy"@.len() == 8);
    assert("logging"@.len() == 7);
    assert(s[0].ccx_id == 0 && s[1].ccx_id == 1);
    let n = s.len() - 1;
    assert(s[n].ccx_id == n);
    assert(s[0].core_ids@[0] == 0);
    assert(s[0].core_ids@[1] == 1);
    assert(s[0].core_ids@[2] == 2);
    assert(s[1].core_ids@[0] == 6);
    assert(s[n].core_ids@[5] == 6 * n + 5);
}

/// A size in whole lines of the cache is the least that holds it.
pub proof fn law_line_sizes(r: int, t: int, size: int)
    requires
        is_line_size(r, size),
        is_line_size(t, size),
    ensures
        r == t,
        r >= size,
        r - 64 < size,
        r % 64 == 0,
{
}

/// An allocation adds its bytes and counts, as aligned where it is; the peak is
/// the most there ever was. A release takes its bytes off.
pub proof fn law_memory_counted(m: MemoryStats, size: usize, aligned: bool)
    requires
        m.bytes_allocated + size <= u64::MAX,
        m.allocations < u64::MAX,
        m.aligned_allocations < u64::MAX,
        m.deallocations < u64::MAX,
    ensures
        ({
            let n = m.allocated(size, aligned);
            &&& n.bytes_allocated == m.bytes_allocated + size
            &&& n.allocations == m.allocations + 1
            &&& n.deallocations == m.deallocations
            &&& aligned ==> n.aligned_allocations == m.aligned_allocations + 1
            &&& !aligned ==> n.aligned_allocations == m.aligned_allocations
            &&& n.peak_bytes >= m.peak_bytes
            &&& n.peak_bytes >= n.bytes_allocated
            &&& n.peak_bytes == m.peak_bytes || n.peak_bytes == n.bytes_allocated
        }),
        size <= m.bytes_allocated ==> m.deallocated(size).bytes_allocated == m.bytes_allocated
            - size,
        m.deallocated(size).deallocations == m.deallocations + 1,
        m.deallocated(size).peak_bytes == m.peak_bytes,
{
}

/// The first free slot is free, and none before it is.
pub proof fn law_first_free_slot(mask: u64, i: int, j: int)
    requires
        0 <= i <= 64,
        i <= j < first_free(mask, i),
    ensures
        !is_free(mask, j),
        first_free(mask, i) <= 64,
        first_free(mask, i) < 64 ==> is_free(mask, first_free(mask, i)),
    decreases 64 - i,
{
    if i < 64 && !is_free(mask, i) {
        if j > i {
            law_first_free_slot(mask, i + 1, j);
        } else {
            lemma_first_free(mask, i + 1);
        }
    }
}

proof fn lemma_first_free(mask: u64, i: int)
    requires
        0 <= i <= 64,
    ensures
        i <= first_free(mask, i) <= 64,
        first_free(mask, i) < 64 ==> is_free(mask, first_free(mask, i)),
    decreases 64 - i,
{
    if i < 64 && !is_free(mask, i) {
        lemma_first_free(mask, i + 1);
    }
}

/// Free slots are counted one by one.
pub proof fn law_free_slots_counted(mask: u64, n: int)
    requires
        n >= 0,
    ensures
        free_count(mask, 0) == 0,
        is_free(mask, n) ==> free_count(mask, n + 1) == free_count(mask, n) + 1,
        !is_free(mask, n) ==> free_count(mask, n + 1) == free_count(mask, n),
{
}

/// Pressure is critical from the critical percentage of the limit, a warning
/// from that of warnings, and otherwise normal.
pub proof fn law_memory_pressure(e: RamEnforcer, used: u64)
    requires
        e.limit_bytes > 0,
        e.warning_threshold <= e.critical_threshold,
    ensures
        e.pressure(used) == MemoryPressure::Critical <==> 100 * used >= e.critical_threshold
            * e.limit_bytes,
        e.pressure(used) == MemoryPressure::Warning <==> e.warning_threshold * e.limit_bytes <= 100
            * used < e.critical_threshold * e.limit_bytes,
        e.pressure(used) == MemoryPressure::Normal <==> 100 * used < e.warning_threshold
            * e.limit_bytes,
{
    assert(e.warning_threshold * e.limit_bytes <= e.critical_threshold * e.limit_bytes)
        by (nonlinear_arith)
        requires
            e.warning_threshold <= e.critical_threshold,
    ;
}

/// A piece goes behind the last one where it fits in the block, else to the
/// start of the next block, and nowhere where there is none; it lies within its
/// block where it fits into one.
pub proof fn law_pieces_placed(a: MemoryArena, size: usize)
    requires
        a.wf(),
        a.current_block < a.blocks,
    ensures
        a.current_offset + size <= a.block_size ==> {
            &&& a.place(size) is Some
            &&& a.place(size)->0.block == a.current_block
            &&& a.place(size)->0.offset == a.current_offset
            &&& a.after(size).current_offset == a.current_offset + size
        },
        a.current_offset + size > a.block_size && a.current_block + 1 < a.blocks ==> {
            &&& a.place(size) is Some
            &&& a.place(size)->0.block == a.current_block + 1
            &&& a.place(size)->0.offset == 0
            &&& a.after(size).current_offset == size
        },
        a.current_offset + size > a.block_size && a.current_block + 1 >= a.blocks ==> a.place(
            size,
        ) is None,
        a.place(size) is Some && size <= a.block_size ==> a.place(size)->0.offset + size
            <= a.block_size,
{
}

/// Options of a socket are set as wanted: both buffers always, each with its own
/// size, the others where they are switched on.
pub proof fn law_socket_options(c: TcpTuningConfig)
    ensures
        c.no_delay ==> c.options().len() > 0 && c.options()[0] == SocketOption::NoDelay,
        c.options().contains(SocketOption::NoDelay) <==> c.no_delay,
        c.options().contains(SocketOption::ReuseAddress) <==> c.reuse_addr,
        c.options().contains(SocketOption::SendBuffer { bytes: c.send_buffer_size }),
        c.options().contains(SocketOption::ReceiveBuffer { bytes: c.recv_buffer_size }),
        c.options().len() == 2 + (if c.no_delay {
            1int
        } else {
            0
        }) + (if c.reuse_addr {
            1int
        } else {
            0
        }),
{
    let o = c.options();
    let k = if c.no_delay {
        1int
    } else {
        0
    };
    assert(o[k] == SocketOption::SendBuffer { bytes: c.send_buffer_size });
    assert(o[k + 1] == SocketOption::ReceiveBuffer { bytes: c.recv_buffer_size });
    if c.no_delay {
        assert(o[0] == SocketOption::NoDelay);
    }
    if c.reuse_addr {
        assert(o[o.len() - 1] == SocketOption::ReuseAddress);
    }
}

/// The usual tuning sends at once, with buffers of a quarter of a mebibyte.
pub proof fn law_usual_tuning()
    ensures
        TcpTuningConfig::usual().no_delay,
        TcpTuningConfig::usual().send_buffer_size == 256 * 1024,
        TcpTuningConfig::usual().recv_buffer_size == 256 * 1024,
        TcpTuningConfig::usual().keepalive_enabled,
        TcpTuningConfig::usual().keepalive_idle_ms == 30 * 1000,
        TcpTuningConfig::usual().keepalive_interval_ms == 5 * 1000,
        TcpTuningConfig::usual().keepalive_count == 5,
        TcpTuningConfig::usual().reuse_addr,
{
}

/// Flags name the processor, the level, the units, the way to panic and each
/// feature; whole-program optimisation where it is wanted.
pub proof fn law_compiler_flags(c: MsvcOptimizerConfig)
    ensures
        PanicStrategy::Abort.name() == "abort"@,
        PanicStrategy::Unwind.name() == "unwind"@,
        c.flags()[0] == "-C target-cpu="@ + c.target_cpu@,
        c.flags()[1] == "-C opt-level="@ + crate::base::text::decimal(c.optimization_level as nat),
        c.lto_enabled ==> c.flags()[2] == "-C lto=fat"@ && c.flags()[3] == "-C codegen-units="@
            + crate::base::text::decimal(c.codegen_units as nat) && c.flags()[4] == "-C panic="@
            + c.panic_strategy.name(),
        !c.lto_enabled ==> c.flags()[2] == "-C codegen-units="@ + crate::base::text::decimal(
            c.codegen_units as nat,
        ) && c.flags()[3] == "-C panic="@ + c.panic_strategy.name(),
        c.flags().len() == (if c.lto_enabled {
            5int
        } else {
            4
        }) + c.target_features@.len(),
{
}

/// The higher the priority, the more urgent the policy.
pub proof fn law_priorities()
    ensures
        ThreadPriority::Normal.policy() == (SchedulingPolicy::Other, 0i32),
        ThreadPriority::High.policy() == (SchedulingPolicy::Batch, 5i32),
        ThreadPriority::RealTime.policy() == (SchedulingPolicy::Fifo, 50i32),
        ThreadPriority::FIFORt.policy() == (SchedulingPolicy::Fifo, 99i32),
{
}

/// Keys tell completions apart: one accepts, two received and three sent.
pub proof fn law_completion_keys(key: usize, has: bool)
    ensures
        action_for(1, has) == CompletionAction::Accept,
        action_for(2, has) == CompletionAction::Received,
        action_for(3, has) == CompletionAction::Sent,
        action_for(0, false) == CompletionAction::Wait,
        action_for(0, true) == CompletionAction::Unknown,
        key > 3 ==> action_for(key, has) == CompletionAction::Unknown,
{
}

} // verus!
