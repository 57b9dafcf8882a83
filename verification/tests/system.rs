use trading_core::base::amount::Amount;
use trading_core::base::clock::{
    fix_time, iso_time, micros_of, millis_of, nanos_of, now_ms, now_ns, now_secs, now_us, secs_of,
    UtcInstant,
};
use trading_core::hft::simd_utils::{compare_prices_avx2, sum_f64_avx2};
use trading_core::hft::cache_alignment;
use trading_core::hft::core_parking_disabler::{
    CommandOutcome, CoreParkingManager, NextStep, PowerStep,
};
use trading_core::hft::cpu_pinning::{
    CpuPinConfig, CpuPinningManager, SchedulingPolicy, ThreadPriority,
};
use trading_core::hft::kernel_bypass::{
    BypassError, IoUringConfig, KernelBypassManager, XdpSocketConfig,
};
use trading_core::hft::memory_alignment::{
    aligned_size, CacheAlignedAllocator, CachePaddedRingBuffer, SlabAllocator,
    ThreadLocalAllocTracker, CACHE_LINE_SIZE,
};
use trading_core::hft::msvc_optimizer::{check_hardware, MsvcOptimizerConfig, PanicStrategy};
use trading_core::hft::ram_enforcer_win::{MemoryPressure, RamEnforcer, TOTAL_RAM_LIMIT_BYTES};
use trading_core::hft::windows_heap::{blocks_for, HFTheap, MemoryArena};
use trading_core::hft::windows_iocp::{completion_action, receive_failed, CompletionAction};
use trading_core::hft::windows_memory::{large_page_bytes, HFTMemoryArena};
use trading_core::hft::windows_tcp_tuning::{
    SocketOption, TcpTuningConfig, DEFAULT_RECV_BUFFER_SIZE, DEFAULT_SEND_BUFFER_SIZE,
};
use trading_core::hft::windows_threading::{HFTThreadManager, ThreadAffinityConfig};

#[test]
fn core_parking_disabler_test_manager_creation() {
    let manager = CoreParkingManager::new();
    assert!(!manager.is_running());
}

fn run(first: PowerStep, outcomes: &[CommandOutcome]) -> Result<usize, String> {
    let mut step = first;
    for (i, outcome) in outcomes.iter().enumerate() {
        match step.after(outcome).next {
            NextStep::Run { step: next } => step = next,
            NextStep::Done => return Ok(i + 1),
            NextStep::Fail { error } => return Err(error),
        }
    }
    panic!("more outcomes are needed")
}

fn failed() -> CommandOutcome {
    CommandOutcome::Failed { stderr: "denied".to_string() }
}

fn not_run() -> CommandOutcome {
    CommandOutcome::NotRun { error: "missing".to_string() }
}

#[test]
fn only_the_registry_decides_about_parking() {
    let first = CoreParkingManager::disable_core_parking();
    assert_eq!(run(first, &[failed(), CommandOutcome::Succeeded, not_run()]), Ok(3));
    assert_eq!(
        run(first, &[CommandOutcome::Succeeded, failed()]),
        Err("Failed to disable core parking: denied".to_string())
    );
    assert_eq!(
        run(first, &[CommandOutcome::Succeeded, not_run()]),
        Err("Registry command failed: missing".to_string())
    );
    let restore = CoreParkingManager::enable_core_parking();
    assert_eq!(run(restore, &[CommandOutcome::Succeeded, failed()]), Ok(2));
    assert_eq!(
        run(restore, &[failed()]),
        Err("Failed to enable core parking: denied".to_string())
    );
    assert_eq!(run(CoreParkingManager::disable_c_states(), &[failed(), not_run()]), Ok(2));
}

#[test]
fn power_commands_are_spelled_out() {
    let command = PowerStep::SetBoost.command();
    assert_eq!(command.program, "powercfg");
    assert_eq!(
        command.args,
        vec!["/setacvalueindex", "SCHEME_CURRENT", "SUB_PROCESSOR", "PERFBOOSTMODE", "3"]
    );
    let registry = PowerStep::EnableParking.command();
    assert_eq!(registry.program, "reg");
    assert!(registry.args[1].ends_with("0cc5b647-c1df-4637-891a-dec35c318583"));
    assert_eq!(registry.args[7], "100");
    let log = PowerStep::SetBoost.after(&failed()).log.unwrap();
    assert_eq!(log, "[WARNING] Boost mode command failed: denied");
}

#[test]
fn a_manager_starts_once() {
    let mut manager = CoreParkingManager::default();
    assert!(manager.start().is_ok());
    assert!(manager.stop().is_none());
    manager.started();
    assert_eq!(manager.start(), Err("Already running".to_string()));
    assert_eq!(manager.stop(), Some(PowerStep::EnableParking));
    manager.stopped();
    assert!(!manager.is_running());
    assert!(CoreParkingManager::is_core_parking_enabled("  TRUE\r\n"));
    assert!(!CoreParkingManager::is_core_parking_enabled("False\n"));
    assert!(!CoreParkingManager::is_core_parking_enabled("tr ue"));
}

#[test]
fn test_manager_initialization() {
    let mut manager = CpuPinningManager::new();
    assert!(manager.initialize().is_ok());
    let (total, pinned, isolated) = manager.get_stats();
    assert!(total > 0);
    assert_eq!(pinned, 0);
    assert!(!isolated);
}

#[test]
fn test_optimal_core_assignment() {
    let mut manager = CpuPinningManager::new();
    manager.initialize().unwrap();
    let config = manager.get_optimal_core("market_data");
    assert!(config.is_some());
    let config = config.unwrap();
    assert_eq!(config.priority, ThreadPriority::RealTime);
    assert!(config.isolate);
}

#[test]
fn cores_are_grouped_by_six() {
    let mut manager = CpuPinningManager::with_cores(14);
    assert!(manager.get_optimal_core("market_data").is_none());
    manager.initialize().unwrap();
    let topology = manager.get_topology();
    assert_eq!(topology.len(), 3);
    assert_eq!(topology[1].core_ids, vec![6, 7, 8, 9, 10, 11]);
    assert_eq!(topology[2].core_ids, vec![12, 13]);
    assert_eq!(manager.get_optimal_core("strategy").unwrap().core_id, 6);
    assert_eq!(manager.get_optimal_core("order_routing").unwrap().core_id, 1);
    assert!(manager.get_optimal_core("logging").is_none());
    assert_eq!(manager.get_optimal_core("anything").unwrap().priority, ThreadPriority::Normal);
}

#[test]
fn pinnings_are_recorded() {
    let mut manager = CpuPinningManager::with_cores(4);
    let config = CpuPinConfig {
        core_id: 4,
        ccx_id: 0,
        numa_node: 0,
        priority: ThreadPriority::FIFORt,
        isolate: false,
    };
    assert_eq!(manager.check_core(&config), Err("Invalid core ID: 4 (max: 3)".to_string()));
    assert!(manager.check_core(&CpuPinConfig { core_id: 3, ..config }).is_ok());
    manager.record_pinning(3, 77);
    assert!(manager.is_core_pinned(3));
    assert!(!manager.is_core_pinned(2));
    manager.enable_isolation();
    assert_eq!(manager.get_stats(), (4, 1, true));
    assert_eq!(ThreadPriority::FIFORt.scheduling(), (SchedulingPolicy::Fifo, 99));
    assert_eq!(ThreadPriority::High.scheduling(), (SchedulingPolicy::Batch, 5));
    assert_eq!(cache_alignment::CACHE_LINE_SIZE, 64);
}

#[test]
fn test_uring_initialization() {
    let mut manager = KernelBypassManager::new();
    let config = IoUringConfig::default();
    assert!(manager.initialize_uring(&config).is_ok());
    assert!(manager.uring_initialized);
}

#[test]
fn test_xdp_initialization() {
    let mut manager = KernelBypassManager::new();
    let config = XdpSocketConfig::default();
    assert!(manager.initialize_xdp(&config).is_ok());
    assert!(manager.xdp_initialized);
}

#[test]
fn test_full_operationational() {
    let mut manager = KernelBypassManager::new();
    manager.initialize_uring(&IoUringConfig::default()).unwrap();
    manager.initialize_xdp(&XdpSocketConfig::default()).unwrap();
    assert!(manager.is_operational());
    let (_, _, packets, zerocopy) = manager.get_stats();
    assert_eq!(packets, 0);
    assert_eq!(zerocopy, 0);
}

#[test]
fn packets_need_a_socket() {
    let mut manager = KernelBypassManager::default();
    let mut buffer = [7u8; 2000];
    assert_eq!(manager.submit_io(0, 1, 2, 3), Err(BypassError::RingNotInitialized));
    assert_eq!(
        manager.receive_packet_zerocopy(&mut buffer),
        Err(BypassError::SocketNotInitialized)
    );
    assert_eq!(manager.send_packet_zerocopy(&buffer), Err(BypassError::SocketNotInitialized));
    let mut small = XdpSocketConfig::default();
    small.frame_size = 1023;
    assert_eq!(manager.initialize_xdp(&small), Err(BypassError::InvalidFrameSize));
    assert_eq!(BypassError::InvalidFrameSize.to_string(), "Invalid frame size");
    manager.initialize_uring(&IoUringConfig::default()).unwrap();
    manager.initialize_xdp(&XdpSocketConfig::default()).unwrap();
    assert_eq!(manager.submit_io(0, 1, 2, 3), Ok(1));
    assert_eq!(manager.receive_packet_zerocopy(&mut buffer), Ok(1500));
    assert_eq!(manager.send_packet_zerocopy(&buffer), Ok(2000));
    assert_eq!(manager.get_stats(), (true, true, 2, 2));
    manager.shutdown();
    assert!(!manager.is_operational());
}

#[test]
fn test_aligned_allocator() {
    let mut allocator = CacheAlignedAllocator::new();
    let size = allocator.allocate_aligned(100);
    assert_eq!(size % CACHE_LINE_SIZE, 0);
    assert_eq!(size, 128);
    let (allocs, deallocs, current, peak) = allocator.get_stats();
    assert_eq!(allocs, 1);
    assert_eq!(deallocs, 0);
    assert!(current > 0);
    assert!(peak >= current);
    allocator.deallocate_aligned(100);
    let (_, deallocs, _, _) = allocator.get_stats();
    assert_eq!(deallocs, 1);
    assert_eq!(allocator.get_stats(), (1, 1, 0, 128));
    assert_eq!(allocator.get_alignment_ratio(), (1, 1));
    assert_eq!(aligned_size(0), 0);
    assert_eq!(aligned_size(64), 64);
    assert_eq!(aligned_size(65), 128);
}

#[test]
fn test_ring_buffer() {
    let mut buffer: CachePaddedRingBuffer<i32> = CachePaddedRingBuffer::new(16);
    assert!(buffer.is_empty());
    assert!(!buffer.is_full());
    assert!(buffer.push(42));
    assert_eq!(buffer.len(), 1);
    let item = buffer.pop();
    assert_eq!(item, Some(42));
    assert!(buffer.is_empty());
}

#[test]
fn a_ring_buffer_holds_its_capacity() {
    let mut buffer: CachePaddedRingBuffer<i32> = CachePaddedRingBuffer::new(3);
    for i in 0..4 {
        assert!(buffer.push(i));
    }
    assert!(buffer.is_full());
    assert!(!buffer.push(9));
    for i in 0..4 {
        assert_eq!(buffer.pop(), Some(i));
    }
    assert_eq!(buffer.pop(), None);
    let one: CachePaddedRingBuffer<i32> = CachePaddedRingBuffer::new(0);
    assert_eq!(one.capacity, 1);
}

#[test]
fn test_slab_allocator() {
    let mut slab = SlabAllocator::new(32, 64);
    slab.add_slab();
    let slot = slab.allocate();
    assert!(slot.is_some());
    let (used, slots) = slab.get_utilization();
    let util = used as f64 / slots as f64;
    assert!(util > 0.0 && util <= 1.0);
}

#[test]
fn slots_are_given_out_once() {
    let mut slab = SlabAllocator::new(32, 64);
    assert_eq!(slab.object_size, 64);
    assert_eq!(slab.allocate(), None);
    slab.add_slab();
    for i in 0..64 {
        assert_eq!(slab.allocate(), Some(i));
    }
    assert_eq!(slab.allocate(), None);
    assert_eq!(slab.get_utilization(), (64, 64));
    slab.deallocate(17);
    slab.deallocate(64);
    assert_eq!(slab.get_utilization(), (63, 64));
    assert_eq!(slab.allocate(), Some(17));
    let mut tracker = ThreadLocalAllocTracker::default();
    tracker.track(10);
    tracker.track(5);
    assert_eq!(tracker.get_stats(), (2, 15));
}

#[test]
fn test_config_defaults() {
    let config = MsvcOptimizerConfig::default();
    assert_eq!(config.optimization_level, 3);
    assert!(config.lto_enabled);
    assert_eq!(config.codegen_units, 1);
    assert_eq!(config.panic_strategy, PanicStrategy::Abort);
}

#[test]
fn test_rustflags_generation() {
    let config = MsvcOptimizerConfig::default();
    let flags = config.generate_rustflags();
    assert!(flags.contains("-C target-cpu=native"));
    assert!(flags.contains("-C opt-level=3"));
    assert!(flags.contains("-C lto=fat"));
    assert!(flags.contains("-C panic=abort"));
    assert!(flags.ends_with("-C target-feature=+lzcnt -C target-feature=+popcnt"));
}

#[test]
fn profiles_are_written_out() {
    let mut config = MsvcOptimizerConfig::default();
    config.lto_enabled = false;
    config.panic_strategy = PanicStrategy::Unwind;
    assert_eq!(
        config.generate_cargo_profile(),
        "[profile.release]\nopt-level = 3\nlto = thin\ncodegen-units = 1\npanic = \"unwind\"\nstrip = true\ndebug = false\nrpath = false\n"
    );
    assert!(!config.generate_rustflags().contains("lto"));
    assert!(check_hardware(true, true, true).is_ok());
    assert_eq!(
        check_hardware(true, false, false),
        Err("BMI2 not supported on this CPU".to_string())
    );
}

#[test]
fn test_enforcer_state() {
    let enforcer = RamEnforcer::new(TOTAL_RAM_LIMIT_BYTES);
    let state = enforcer.state();
    assert_eq!(state.current_working_set_bytes, 0);
    assert!(!state.python_gc_triggered);
}

#[test]
fn pressure_rises_with_the_working_set() {
    let mut enforcer = RamEnforcer::new(1000);
    enforcer.start();
    assert!(enforcer.is_running());
    assert_eq!(enforcer.enforce(849), MemoryPressure::Normal);
    assert_eq!(enforcer.enforce(850), MemoryPressure::Warning);
    assert_eq!(enforcer.enforce(949), MemoryPressure::Warning);
    assert!(!enforcer.state().critical_alert);
    assert_eq!(enforcer.enforce(950), MemoryPressure::Critical);
    assert!(enforcer.state().critical_alert);
    assert_eq!(enforcer.current_usage(), (950, 1000));
    enforcer.state.reset_flags();
    assert!(!enforcer.state().critical_alert);
    enforcer.stop();
    assert!(!enforcer.is_running());
}

#[test]
fn test_custom_heap() {
    let mut heap = HFTheap::create();
    heap.allocate(1024);
    assert_eq!(heap.allocated_bytes(), 1024);
    assert_eq!(heap.allocation_count(), 1);
    heap.free(1024);
    assert_eq!(heap.allocated_bytes(), 0);
}

#[test]
fn test_memory_arena() {
    let mut arena = MemoryArena::new(4, 64 * 1024);
    let first = arena.allocate(256).expect("Failed to allocate");
    let second = arena.allocate(256).expect("Failed to allocate");
    assert_ne!(first, second);
    arena.reset();
    assert_eq!(arena.allocate(256), Some(first));
}

#[test]
fn an_arena_goes_on_to_the_next_block() {
    let mut arena = MemoryArena::new(2, 100);
    assert_eq!(arena.total_capacity(), 200);
    assert_eq!(arena.allocate(60).unwrap().offset, 0);
    let next = arena.allocate(60).unwrap();
    assert_eq!((next.block, next.offset), (1, 0));
    assert_eq!(arena.allocate(40).unwrap().offset, 60);
    assert!(arena.allocate(1).is_none());
    assert_eq!(blocks_for(0, 8), 1);
    assert_eq!(blocks_for(67_108_864, 2), 3);
    assert_eq!(blocks_for(67_108_864, 200), 16);
}

#[test]
fn completions_are_told_apart_by_key() {
    assert_eq!(completion_action(0, false), CompletionAction::Wait);
    assert_eq!(completion_action(1, false), CompletionAction::Accept);
    assert_eq!(completion_action(2, true), CompletionAction::Received);
    assert_eq!(completion_action(3, true), CompletionAction::Sent);
    assert_eq!(completion_action(0, true), CompletionAction::Unknown);
    assert!(!receive_failed(None));
    assert!(!receive_failed(Some(997)));
    assert!(receive_failed(Some(10054)));
}

#[test]
fn memory_is_locked_once() {
    assert_eq!(large_page_bytes(1), 2_097_152);
    assert_eq!(large_page_bytes(4 * 1024 * 1024), 4 * 1024 * 1024);
    let mut arena = HFTMemoryArena::new(4096);
    assert_eq!(arena.size(), 4096);
    assert_eq!(arena.lock(Err("no".to_string())), Err("no".to_string()));
    assert!(!arena.locked);
    assert!(arena.lock(Ok(())).is_ok());
    assert!(arena.lock(Err("no".to_string())).is_ok());
    assert!(arena.locked);
}

#[test]
fn test_default_config() {
    let config = TcpTuningConfig::default();
    assert!(config.no_delay);
    assert_eq!(config.send_buffer_size, DEFAULT_SEND_BUFFER_SIZE);
    assert_eq!(config.recv_buffer_size, DEFAULT_RECV_BUFFER_SIZE);
}

#[test]
fn socket_options_are_set_in_order() {
    let options = TcpTuningConfig::default().socket_options();
    assert_eq!(options.len(), 4);
    assert_eq!(options[0], SocketOption::NoDelay);
    assert_eq!(options[1], SocketOption::SendBuffer { bytes: 262_144 });
    assert_eq!(options[3], SocketOption::ReuseAddress);
    assert_eq!(options[2].failure_text(), "Failed to set SO_RCVBUF: ");
    let read = TcpTuningConfig::from_readings(false, 1, 2);
    assert!(!read.no_delay);
    assert_eq!(read.recv_buffer_size, 2);
    assert!(read.reuse_addr);
    assert_eq!(read.socket_options().len(), 3);
}

#[test]
fn test_physical_core_calculation() {
    assert_eq!(HFTThreadManager::get_physical_core_without_smt(0), 0);
    assert_eq!(HFTThreadManager::get_physical_core_without_smt(1), 0);
    assert_eq!(HFTThreadManager::get_physical_core_without_smt(2), 2);
    assert_eq!(HFTThreadManager::get_physical_core_without_smt(3), 2);
}

#[test]
fn test_core_layout() {
    let (ccd0, ccd1) = HFTThreadManager::get_amd_zen_core_layout();
    assert!(!ccd0.is_empty());
    assert!(!ccd1.is_empty());
}

#[test]
fn windows_threading_test_manager_creation() {
    let manager = HFTThreadManager::new();
    assert!(!manager.is_running());
    assert!(manager.bound_cores().is_empty());
}

#[test]
fn a_mask_names_one_core() {
    assert_eq!(HFTThreadManager::affinity_mask(0), 1);
    assert_eq!(HFTThreadManager::affinity_mask(63), 1u64 << 63);
    assert_eq!(HFTThreadManager::thread_name(12), "hft-core-12");
    let mut manager = HFTThreadManager::default();
    manager.start();
    assert!(manager.is_running());
    manager.stop();
    assert!(!manager.is_running());
    assert_eq!(ThreadAffinityConfig::default().priority, 15);
}

#[test]
fn test_simd_sum() {
    let values: Vec<Amount> = (1..=100).map(|x| Amount { units: x * 100_000_000 }).collect();
    assert_eq!(sum_f64_avx2(&values), 505_000_000_000);
}

#[test]
fn prices_are_compared_one_by_one() {
    let a = [Amount { units: 1 }, Amount { units: 2 }, Amount { units: 3 }];
    let b = [Amount { units: 2 }, Amount { units: 2 }, Amount { units: 1 }];
    assert_eq!(compare_prices_avx2(&a, &b), vec![true, false, false]);
    assert!(compare_prices_avx2(&[], &[]).is_empty());
}

#[test]
fn clock_units_are_whole_and_wrap() {
    let ns = 1_706_704_245_999_999_999u128;
    assert_eq!(nanos_of(ns), 1_706_704_245_999_999_999);
    assert_eq!(micros_of(ns), 1_706_704_245_999_999);
    assert_eq!(millis_of(ns), 1_706_704_245_999);
    assert_eq!(secs_of(ns), 1_706_704_245);
    assert_eq!(nanos_of((1u128 << 64) + 5), 5);
    assert_eq!(micros_of(((1u128 << 64) + 5) * 1_000), 5);
    assert_eq!(millis_of(((1u128 << 64) + 5) * 1_000_000), 5);
    assert_eq!(secs_of(((1u128 << 64) + 5) * 1_000_000_000), 5);
}

#[test]
fn clocks_agree() {
    let secs = now_secs();
    let (ms, us, ns) = (now_ms(), now_us(), now_ns());
    assert!(secs > 1_600_000_000);
    assert!(ms / 1_000 - secs <= 10);
    assert!(us / 1_000_000 - secs <= 10);
    assert!(ns / 1_000_000_000 - secs <= 10);
}

#[test]
fn moments_are_written_in_two_forms() {
    let at = UtcInstant { secs: 1_706_704_245, nanos: 1 };
    assert_eq!(fix_time(at), "20240131-12:30:45.000000001");
    assert_eq!(iso_time(at), "2024-01-31T12:30:45.000000001Z");
    let before_epoch = UtcInstant { secs: -2, nanos: 987_654_321 };
    assert_eq!(fix_time(before_epoch), "19691231-23:59:58.987654321");
    let first = UtcInstant { secs: -8_334_601_228_800, nanos: 7 };
    assert_eq!(iso_time(first), "-262143-01-01T00:00:00.000000007Z");
    let last = UtcInstant { secs: 8_210_266_876_799, nanos: 999_999_999 };
    assert_eq!(iso_time(last), "+262142-12-31T23:59:59.999999999Z");
}

#[test]
fn a_machine_has_a_core() {
    assert!(CpuPinningManager::new().total_cores >= 1);
}
