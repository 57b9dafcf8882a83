//! Latency of the machine: cores, memory, sockets and power states. The rules
//! stand here; the calls into the operating system are the caller's.

pub mod cache_alignment;
pub mod core_parking_disabler;
pub mod cpu_pinning;
pub mod kernel_bypass;
pub mod machine;
pub mod memory_alignment;
pub mod msvc_optimizer;
pub mod ram_enforcer_win;
pub mod simd_utils;
pub mod windows_heap;
pub mod windows_iocp;
pub mod windows_memory;
pub mod windows_tcp_tuning;
pub mod windows_threading;
