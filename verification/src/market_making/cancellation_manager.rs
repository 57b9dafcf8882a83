//! When quotes are pulled, and how many cancellations are let through.

use vstd::prelude::*;
use crate::base::clock::now_ns;

verus! {

/// Why a quote is cancelled.
#[derive(Debug, Clone, Copy, PartialEq, Eq, Structural)]
pub enum CancellationReason {
    ToxicFlow,
    LatencyArbitrage,
    InventoryLimit,
    SpreadViolation,
    ManualOverride,
    SystemHalt,
}

/// Counters of cancellations.
#[derive(Debug, Clone, Copy, PartialEq, Eq, Structural)]
pub struct CancellationStats {
    pub total_cancellations: u64,
    pub toxic_flow_cancels: u64,
    pub latency_arb_cancels: u64,
    /// The running mean of the latencies, in nanoseconds.
    pub avg_latency_ns: u64,
    /// When the last cancellation was, in nanoseconds.
    pub last_cancel_ns: u64,
}

impl CancellationStats {
    /// Counters at zero.
    pub fn new() -> (s: Self)
        ensures
            s == (CancellationStats {
                total_cancellations: 0,
                toxic_flow_cancels: 0,
                latency_arb_cancels: 0,
                avg_latency_ns: 0,
                last_cancel_ns: 0,
            }),
    {
        CancellationStats {
            total_cancellations: 0,
            toxic_flow_cancels: 0,
            latency_arb_cancels: 0,
            avg_latency_ns: 0,
            last_cancel_ns: 0,
        }
    }

    /// The counters once a cancellation took `latency_ns` at `now`.
    pub open spec fn recorded(self, reason: CancellationReason, latency_ns: u64, now: u64) -> Self {
        CancellationStats {
            total_cancellations: (self.total_cancellations + 1) as u64,
            toxic_flow_cancels: if reason == CancellationReason::ToxicFlow {
                self.toxic_flow_cancels.wrapping_add(1)
            } else {
                self.toxic_flow_cancels
            },
            latency_arb_cancels: if reason == CancellationReason::LatencyArbitrage {
                self.latency_arb_cancels.wrapping_add(1)
            } else {
                self.latency_arb_cancels
            },
            avg_latency_ns: ((self.avg_latency_ns * self.total_cancellations + latency_ns) / (
            self.total_cancellations + 1)) as u64,
            last_cancel_ns: now,
        }
    }

    /// Counts a cancellation that took `latency_ns`.
    pub fn record_cancel(&mut self, reason: CancellationReason, latency_ns: u64)
        requires
            old(self).total_cancellations < u64::MAX,
        ensures
            *final(self) == old(self).recorded(reason, latency_ns, final(self).last_cancel_ns),
    {
        let now: u64 = now_ns();
        self.record_cancel_at(reason, latency_ns, now);
    }

    /// Counts a cancellation that took `latency_ns` at `now`.
    pub fn record_cancel_at(&mut self, reason: CancellationReason, latency_ns: u64, now: u64)
        requires
            old(self).total_cancellations < u64::MAX,
        ensures
            *final(self) == old(self).recorded(reason, latency_ns, now),
    {
        let before: u64 = self.total_cancellations;
        let avg: u64 = self.avg_latency_ns;
        self.total_cancellations = before + 1;
        match reason {
            CancellationReason::ToxicFlow => {
                self.toxic_flow_cancels = self.toxic_flow_cancels.wrapping_add(1);
            },
            CancellationReason::LatencyArbitrage => {
                self.latency_arb_cancels = self.latency_arb_cancels.wrapping_add(1);
            },
            _ => {},
        }
        assert(avg * before <= 0xffff_ffff_ffff_ffff * 0xffff_ffff_ffff_ffff) by (nonlinear_arith)
            requires
                avg <= 0xffff_ffff_ffff_ffff,
                before <= 0xffff_ffff_ffff_ffff,
        ;
        let sum: u128 = avg as u128 * before as u128 + latency_ns as u128;
        let mean: u128 = sum / (before as u128 + 1);
        assert(mean <= 0xffff_ffff_ffff_ffff) by (nonlinear_arith)
            requires
                sum == avg * before + latency_ns,
                avg <= 0xffff_ffff_ffff_ffff,
                latency_ns <= 0xffff_ffff_ffff_ffff,
                mean as int == (sum as int) / (before + 1),
        ;
        self.avg_latency_ns = mean as u64;
        self.last_cancel_ns = now;
    }

    /// How many cancellations there were.
    pub fn get_total_cancellations(&self) -> (n: u64)
        ensures
            n == self.total_cancellations,
    {
        self.total_cancellations
    }

    /// How many cancellations were for toxic flow, and how many there were.
    pub fn get_toxic_flow_ratio(&self) -> (r: (u64, u64))
        ensures
            r == (self.toxic_flow_cancels, self.total_cancellations),
    {
        (self.toxic_flow_cancels, self.total_cancellations)
    }
}

/// The count of cancellations starts anew after this long, in nanoseconds.
pub const COUNT_WINDOW_NS: u64 = 1_000_000_000;

/// Decides on cancellations.
#[derive(Debug, Clone, Copy, PartialEq, Eq, Structural)]
pub struct CancellationManager {
    pub enabled: bool,
    /// Toxicity above this many thousandths cancels.
    pub toxic_vpin_threshold: u64,
    pub latency_threshold_ns: u64,
    pub max_cancels_per_sec: u64,
    pub current_cancel_count: u64,
    pub last_reset_ns: u64,
    pub stats: CancellationStats,
    pub emergency_halt: bool,
}

impl CancellationManager {
    /// A manager with thresholds for toxicity, in thousandths, and for latency,
    /// in milliseconds.
    pub fn new(toxic_vpin_threshold: u64, latency_threshold_ms: u64) -> (m: Self)
        requires
            latency_threshold_ms * 1_000_000 <= u64::MAX,
        ensures
            m.enabled,
            m.toxic_vpin_threshold == toxic_vpin_threshold,
            m.latency_threshold_ns == latency_threshold_ms * 1_000_000,
            m.max_cancels_per_sec == 1000,
            m.current_cancel_count == 0,
            m.last_reset_ns == 0,
            m.stats == (CancellationStats {
                total_cancellations: 0,
                toxic_flow_cancels: 0,
                latency_arb_cancels: 0,
                avg_latency_ns: 0,
                last_cancel_ns: 0,
            }),
            !m.emergency_halt,
    {
        CancellationManager {
            enabled: true,
            toxic_vpin_threshold,
            latency_threshold_ns: latency_threshold_ms * 1_000_000,
            max_cancels_per_sec: 1000,
            current_cancel_count: 0,
            last_reset_ns: 0,
            stats: CancellationStats::new(),
            emergency_halt: false,
        }
    }

    /// Why quotes are to be cancelled.
    pub open spec fn cause(self, vpin: u64, message_latency_ns: u64) -> Option<CancellationReason> {
        if !self.enabled || self.emergency_halt || self.current_cancel_count
            >= self.max_cancels_per_sec {
            None
        } else if vpin > self.toxic_vpin_threshold {
            Some(CancellationReason::ToxicFlow)
        } else if message_latency_ns > self.latency_threshold_ns {
            Some(CancellationReason::LatencyArbitrage)
        } else {
            None
        }
    }

    /// Why quotes are to be cancelled, given the toxicity in thousandths and a
    /// message's latency. Never while halted, disabled or at the limit; toxic
    /// flow comes before latency.
    pub fn should_cancel(&self, vpin: u64, message_latency_ns: u64) -> (r: Option<
        CancellationReason,
    >)
        ensures
            r == self.cause(vpin, message_latency_ns),
    {
        if !self.enabled || self.emergency_halt {
            return None;
        }
        if self.current_cancel_count >= self.max_cancels_per_sec {
            return None;
        }
        if vpin > self.toxic_vpin_threshold {
            return Some(CancellationReason::ToxicFlow);
        }
        if message_latency_ns > self.latency_threshold_ns {
            return Some(CancellationReason::LatencyArbitrage);
        }
        None
    }

    /// Whether a new second has begun at `now`.
    pub open spec fn window_over(self, now: u64) -> bool {
        now - self.last_reset_ns > COUNT_WINDOW_NS
    }

    /// The manager with the count of this second.
    pub open spec fn counting(self, now: u64) -> Self {
        if self.window_over(now) {
            CancellationManager { current_cancel_count: 0, last_reset_ns: now, ..self }
        } else {
            self
        }
    }

    /// Whether a cancellation is let through at `now`.
    pub open spec fn lets_through(self, now: u64) -> bool {
        !self.emergency_halt && self.counting(now).current_cancel_count < self.max_cancels_per_sec
    }

    /// The manager once a cancellation was asked for: it is counted where it is
    /// let through.
    pub open spec fn after_request(
        self,
        reason: CancellationReason,
        latency_ns: u64,
        now: u64,
    ) -> Self {
        if self.emergency_halt {
            self
        } else if self.lets_through(now) {
            CancellationManager {
                current_cancel_count: (self.counting(now).current_cancel_count + 1) as u64,
                stats: self.stats.recorded(reason, latency_ns, now),
                ..self.counting(now)
            }
        } else {
            self.counting(now)
        }
    }

    /// Lets a cancellation through at `now`, and counts it. Refused while
    /// halted, and beyond the limit of this second.
    pub fn execute_cancel_at(&mut self, reason: CancellationReason, latency_ns: u64, now: u64) -> (r:
        bool)
        requires
            old(self).stats.total_cancellations < u64::MAX,
        ensures
            r == old(self).lets_through(now),
            *final(self) == old(self).after_request(reason, latency_ns, now),
    {
        if self.emergency_halt {
            return false;
        }
        if now.saturating_sub(self.last_reset_ns) > COUNT_WINDOW_NS {
            self.current_cancel_count = 0;
            self.last_reset_ns = now;
        }
        if self.current_cancel_count >= self.max_cancels_per_sec {
            return false;
        }
        self.current_cancel_count = self.current_cancel_count + 1;
        self.stats.record_cancel_at(reason, latency_ns, now);
        true
    }

    /// Lets a cancellation through, and counts it.
    pub fn execute_cancel(&mut self, reason: CancellationReason, latency_ns: u64) -> (r: bool)
        requires
            old(self).stats.total_cancellations < u64::MAX,
        ensures
            exists|now: u64| r == #[trigger] old(self).lets_through(now) && *final(self) == old(
                self,
            ).after_request(reason, latency_ns, now),
    {
        let now: u64 = now_ns();
        self.execute_cancel_at(reason, latency_ns, now)
    }

    /// Stops all quoting.
    pub fn emergency_halt_all(&mut self)
        ensures
            *final(self) == (CancellationManager {
                emergency_halt: true,
                enabled: false,
                ..*old(self)
            }),
    {
        self.emergency_halt = true;
        self.enabled = false;
    }

    /// Resumes normal operation.
    pub fn resume(&mut self)
        ensures
            *final(self) == (CancellationManager {
                emergency_halt: false,
                enabled: true,
                current_cancel_count: 0,
                ..*old(self)
            }),
    {
        self.emergency_halt = false;
        self.enabled = true;
        self.current_cancel_count = 0;
    }

    /// The counters.
    pub fn get_stats(&self) -> (r: &CancellationStats)
        ensures
            *r == self.stats,
    {
        &self.stats
    }

    /// Sets the threshold for toxicity, in thousandths.
    pub fn set_toxic_threshold(&mut self, vpin: u64)
        ensures
            *final(self) == (CancellationManager { toxic_vpin_threshold: vpin, ..*old(self) }),
    {
        self.toxic_vpin_threshold = vpin;
    }

    /// Whether all quoting is stopped.
    pub fn is_halted(&self) -> (r: bool)
        ensures
            r == self.emergency_halt,
    {
        self.emergency_halt
    }
}

/// While halted, no cancellation is let through and none is called for, at any
/// time.
pub proof fn law_halt_stops_cancels(m: CancellationManager, now: u64, vpin: u64, latency_ns: u64)
    requires
        m.emergency_halt,
    ensures
        !m.lets_through(now),
        m.cause(vpin, latency_ns) is None,
{
}

/// The count of a second never exceeds its limit.
pub proof fn law_count_bounded(m: CancellationManager, now: u64)
    requires
        m.current_cancel_count <= m.max_cancels_per_sec,
    ensures
        m.lets_through(now) ==> m.counting(now).current_cancel_count + 1 <= m.max_cancels_per_sec,
        m.counting(now).current_cancel_count <= m.max_cancels_per_sec,
{
}

/// A request to cancel several orders.
#[derive(Debug, Clone)]
pub struct BatchCancelRequest {
    pub order_ids: Vec<u64>,
    pub reason: CancellationReason,
}

impl BatchCancelRequest {
    /// A request without orders.
    pub fn new(reason: CancellationReason) -> (b: Self)
        ensures
            b.reason == reason,
            b.order_ids@.len() == 0,
    {
        BatchCancelRequest { order_ids: Vec::new(), reason }
    }

    /// Adds an order.
    pub fn add_order(&mut self, order_id: u64)
        ensures
            final(self).order_ids@ == old(self).order_ids@.push(order_id),
            final(self).reason == old(self).reason,
    {
        self.order_ids.push(order_id);
    }

    /// How many orders there are.
    pub fn len(&self) -> (n: usize)
        ensures
            n == self.order_ids@.len(),
    {
        self.order_ids.len()
    }

    /// Whether there are no orders.
    pub fn is_empty(&self) -> (r: bool)
        ensures
            r == (self.order_ids@.len() == 0),
    {
        self.order_ids.len() == 0
    }
}

} // verus!
