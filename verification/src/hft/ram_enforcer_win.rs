//! Watching the process's memory against its limit.

use vstd::prelude::*;

verus! {

/// The limit: ten gibibytes.
pub const TOTAL_RAM_LIMIT_BYTES: u64 = 10_737_418_240;

/// From this percentage of the limit on, something is done.
pub const WARNING_THRESHOLD_PERCENT: u64 = 85;

/// From this percentage of the limit on, everything is done.
pub const CRITICAL_THRESHOLD_PERCENT: u64 = 95;

/// Milliseconds between two looks.
pub const POLL_INTERVAL_MS: u64 = 100;

/// Milliseconds that a critical look takes longer.
pub const CRITICAL_PAUSE_MS: u64 = 10;

/// What was seen and done.
#[derive(Debug, Clone, Copy, PartialEq, Eq, Structural)]
pub struct RamEnforcerState {
    pub current_working_set_bytes: u64,
    pub python_gc_triggered: bool,
    pub telemetry_flushed: bool,
    pub critical_alert: bool,
}

impl RamEnforcerState {
    /// Nothing seen or done.
    pub fn new() -> (s: Self)
        ensures
            s == (RamEnforcerState {
                current_working_set_bytes: 0,
                python_gc_triggered: false,
                telemetry_flushed: false,
                critical_alert: false,
            }),
    {
        RamEnforcerState {
            current_working_set_bytes: 0,
            python_gc_triggered: false,
            telemetry_flushed: false,
            critical_alert: false,
        }
    }

    /// Forgets what was done.
    pub fn reset_flags(&mut self)
        ensures
            *final(self) == (RamEnforcerState {
                python_gc_triggered: false,
                telemetry_flushed: false,
                critical_alert: false,
                ..*old(self)
            }),
    {
        self.python_gc_triggered = false;
        self.telemetry_flushed = false;
        self.critical_alert = false;
    }
}

/// How bad the memory's use is.
#[derive(Debug, Clone, Copy, PartialEq, Eq, Structural)]
pub enum MemoryPressure {
    Normal,
    /// Collect garbage.
    Warning,
    /// Raise an alert, collect garbage, flush telemetry, and pause.
    Critical,
}

/// Compares the working set with the limit.
#[derive(Debug, Clone, Copy, PartialEq, Eq, Structural)]
pub struct RamEnforcer {
    pub state: RamEnforcerState,
    pub running: bool,
    pub limit_bytes: u64,
    pub warning_threshold: u64,
    pub critical_threshold: u64,
}

impl RamEnforcer {
    /// Whether a working set reaches a percentage of the limit; without a limit
    /// anything does, but not nothing.
    pub open spec fn reaches(&self, working_set: u64, percent: u64) -> bool {
        100 * working_set >= percent * self.limit_bytes && (self.limit_bytes > 0 || working_set > 0)
    }

    /// How bad a working set is.
    pub open spec fn pressure(&self, working_set: u64) -> MemoryPressure {
        if self.reaches(working_set, self.critical_threshold) {
            MemoryPressure::Critical
        } else if self.reaches(working_set, self.warning_threshold) {
            MemoryPressure::Warning
        } else {
            MemoryPressure::Normal
        }
    }

    /// A stopped enforcer.
    pub fn new(limit_bytes: u64) -> (e: Self)
        ensures
            e == (RamEnforcer {
                state: RamEnforcerState {
                    current_working_set_bytes: 0,
                    python_gc_triggered: false,
                    telemetry_flushed: false,
                    critical_alert: false,
                },
                running: false,
                limit_bytes,
                warning_threshold: 85,
                critical_threshold: 95,
            }),
    {
        RamEnforcer {
            state: RamEnforcerState::new(),
            running: false,
            limit_bytes,
            warning_threshold: WARNING_THRESHOLD_PERCENT,
            critical_threshold: CRITICAL_THRESHOLD_PERCENT,
        }
    }

    /// Starts the enforcement.
    pub fn start(&mut self)
        ensures
            *final(self) == (RamEnforcer { running: true, ..*old(self) }),
    {
        self.running = true;
    }

    fn has_reached(&self, working_set: u64, percent: u64) -> (r: bool)
        ensures
            r == self.reaches(working_set, percent),
    {
        let p: u128 = percent as u128;
        let l: u128 = self.limit_bytes as u128;
        assert(p * l <= 0xffff_ffff_ffff_ffff * 0xffff_ffff_ffff_ffff) by (nonlinear_arith)
            requires
                p <= 0xffff_ffff_ffff_ffff,
                l <= 0xffff_ffff_ffff_ffff,
        ;
        100 * working_set as u128 >= p * l && (self.limit_bytes > 0 || working_set > 0)
    }

    /// Takes in a working set, and tells how bad it is. A critical one is noted.
    pub fn enforce(&mut self, working_set: u64) -> (r: MemoryPressure)
        ensures
            r == old(self).pressure(working_set),
            *final(self) == (RamEnforcer {
                state: RamEnforcerState {
                    current_working_set_bytes: working_set,
                    critical_alert: old(self).state.critical_alert || r
                        == MemoryPressure::Critical,
                    ..old(self).state
                },
                ..*old(self)
            }),
    {
        self.state.current_working_set_bytes = working_set;
        if self.has_reached(working_set, self.critical_threshold) {
            self.state.critical_alert = true;
            MemoryPressure::Critical
        } else if self.has_reached(working_set, self.warning_threshold) {
            MemoryPressure::Warning
        } else {
            MemoryPressure::Normal
        }
    }

    /// Stops the enforcement.
    pub fn stop(&mut self)
        ensures
            *final(self) == (RamEnforcer { running: false, ..*old(self) }),
    {
        self.running = false;
    }

    /// Whether the enforcement runs.
    pub fn is_running(&self) -> (r: bool)
        ensures
            r == self.running,
    {
        self.running
    }

    /// What was seen and done.
    pub fn state(&self) -> (r: &RamEnforcerState)
        ensures
            *r == self.state,
    {
        &self.state
    }

    /// The working set last seen, and the limit.
    pub fn current_usage(&self) -> (r: (u64, u64))
        ensures
            r == (self.state.current_working_set_bytes, self.limit_bytes),
    {
        (self.state.current_working_set_bytes, self.limit_bytes)
    }
}

/// With the usual thresholds, more memory is never less bad.
pub proof fn law_pressure_rises(e: RamEnforcer, a: u64, b: u64)
    requires
        e.warning_threshold <= e.critical_threshold,
        a <= b,
    ensures
        e.pressure(a) == MemoryPressure::Critical ==> e.pressure(b) == MemoryPressure::Critical,
        e.pressure(a) == MemoryPressure::Warning ==> e.pressure(b) != MemoryPressure::Normal,
{
}

} // verus!
