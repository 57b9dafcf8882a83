//! Slicing of large orders by time, by volume profile, and by clip. Quantities
//! and shares are decimal numbers with eight places.

use vstd::prelude::*;
use crate::base::amount::Amount;
use crate::base::clock::now_ns;
use crate::base::numbers::{
    between, divide_signed, divide_truncated, fits, larger, product, product_of, quotient, saturate,
    saturated, share, share_of, smaller, truncated_div,
};

verus! {

/// How far a sliced order has come.
#[derive(Debug, Clone, Copy, PartialEq, Eq, Structural)]
pub struct ParentOrderStatus {
    pub total_quantity: Amount,
    pub executed_quantity: Amount,
    pub remaining_quantity: Amount,
    pub average_price: Amount,
    pub progress_pct: Amount,
    pub estimated_completion_ns: u64,
    pub slices_completed: u32,
    pub total_slices: u32,
}

/// The outcome of one slice.
#[derive(Debug, Clone, Copy, PartialEq, Eq, Structural)]
pub struct SliceExecution {
    pub slice_number: u32,
    pub quantity: Amount,
    pub price: Amount,
    pub timestamp_ns: u64,
    pub filled: bool,
    pub fill_price: Option<Amount>,
    pub fill_quantity: Option<Amount>,
}

/// A moment `duration` after another, no later than the clock can tell.
pub open spec fn later(now: u64, duration: int) -> int {
    smaller(now + duration, u64::MAX as int)
}

/// The percentage of an order that is executed.
pub open spec fn progress_pct(executed: int, total: int) -> int {
    if total > 0 {
        share(100 * executed, total)
    } else {
        0
    }
}

fn progress_of(executed: i64, total: i64) -> (r: i64)
    ensures
        r == progress_pct(executed as int, total as int),
{
    if total > 0 {
        share_of(100 * executed as i128, total as u128)
    } else {
        0
    }
}

/// When an order is expected to be complete: while it is partly executed, the
/// time it has taken divided by its progress, else its end.
pub open spec fn completion(executed: int, total: int, elapsed: int, end: u64) -> int {
    if 0 < executed < total {
        smaller(elapsed * total / executed, u64::MAX as int)
    } else {
        end as int
    }
}

fn estimate_completion(executed: i64, total: i64, elapsed: u64, end: u64) -> (r: u64)
    ensures
        r == completion(executed as int, total as int, elapsed as int, end),
{
    if 0 < executed && executed < total {
        let e: u128 = elapsed as u128;
        let t: u128 = total as u128;
        assert(e * t <= 0xffff_ffff_ffff_ffff * 0x7fff_ffff_ffff_ffff) by (nonlinear_arith)
            requires
                e <= 0xffff_ffff_ffff_ffff,
                t <= 0x7fff_ffff_ffff_ffff,
        ;
        let ns: u128 = e * t / executed as u128;
        if ns <= u64::MAX as u128 {
            ns as u64
        } else {
            u64::MAX
        }
    } else {
        end
    }
}

/// Slices an order into equal parts over time.
#[derive(Debug, Clone, Copy, PartialEq, Eq, Structural)]
pub struct TwapExecutor {
    pub total_quantity: Amount,
    pub executed_quantity: Amount,
    pub start_time_ns: u64,
    pub end_time_ns: u64,
    pub num_slices: u32,
    pub slice_quantity: Amount,
    pub slice_interval_ms: u64,
    pub last_execution_ts: u64,
    pub is_active: bool,
}

impl TwapExecutor {
    /// There are slices, each an equal part of the total.
    pub open spec fn wf(&self) -> bool {
        &&& self.num_slices > 0
        &&& self.slice_quantity.units == truncated_div(
            self.total_quantity.units as int,
            self.num_slices as int,
        )
    }

    /// What is left to execute; negative where too much was.
    pub open spec fn remaining(&self) -> int {
        saturated(self.total_quantity.units - self.executed_quantity.units)
    }

    /// Whether the next slice is due at `now`.
    pub open spec fn due(&self, now: u64) -> bool {
        self.is_active && self.remaining() > 0 && (if now >= self.last_execution_ts {
            (now - self.last_execution_ts) / 1_000_000
        } else {
            0
        }) >= self.slice_interval_ms
    }

    /// How many whole slices are executed.
    pub open spec fn slices_done(&self) -> int {
        if self.slice_quantity.units != 0 {
            between(
                quotient(
                    self.executed_quantity.units as int,
                    self.slice_quantity.units as int,
                ),
                0,
                u32::MAX as int,
            )
        } else if self.executed_quantity.units > 0 {
            u32::MAX as int
        } else {
            0
        }
    }

    /// How far the order has come at `now`.
    pub open spec fn status_at(&self, now: u64) -> ParentOrderStatus {
        let executed = self.executed_quantity.units as int;
        let total = self.total_quantity.units as int;
        ParentOrderStatus {
            total_quantity: self.total_quantity,
            executed_quantity: self.executed_quantity,
            remaining_quantity: Amount { units: self.remaining() as i64 },
            average_price: Amount { units: 0 },
            progress_pct: Amount { units: progress_pct(executed, total) as i64 },
            estimated_completion_ns: completion(
                executed,
                total,
                if now >= self.start_time_ns {
                    now - self.start_time_ns
                } else {
                    0
                },
                self.end_time_ns,
            ) as u64,
            slices_completed: self.slices_done() as u32,
            total_slices: self.num_slices,
        }
    }

    /// A stopped executor, made at `now`.
    pub fn new_at(total_quantity: Amount, duration_seconds: u64, num_slices: u32, now: u64) -> (t:
        Self)
        requires
            num_slices > 0,
            duration_seconds * 1_000_000_000 <= u64::MAX,
        ensures
            t.wf(),
            t == (TwapExecutor {
                total_quantity,
                executed_quantity: Amount { units: 0 },
                start_time_ns: now,
                end_time_ns: later(now, duration_seconds * 1_000_000_000) as u64,
                num_slices,
                slice_quantity: Amount {
                    units: truncated_div(total_quantity.units as int, num_slices as int) as i64,
                },
                slice_interval_ms: (duration_seconds * 1000 / num_slices as int) as u64,
                last_execution_ts: 0,
                is_active: false,
            }),
    {
        TwapExecutor {
            total_quantity,
            executed_quantity: Amount::zero(),
            start_time_ns: now,
            end_time_ns: now.saturating_add(duration_seconds * 1_000_000_000),
            num_slices,
            slice_quantity: slice_of(total_quantity, num_slices),
            slice_interval_ms: duration_seconds * 1000 / num_slices as u64,
            last_execution_ts: 0,
            is_active: false,
        }
    }

    /// A stopped executor.
    pub fn new(total_quantity: Amount, duration_seconds: u64, num_slices: u32) -> (t: Self)
        requires
            num_slices > 0,
            duration_seconds * 1_000_000_000 <= u64::MAX,
        ensures
            t.wf(),
            t == (TwapExecutor {
                total_quantity,
                executed_quantity: Amount { units: 0 },
                start_time_ns: t.start_time_ns,
                end_time_ns: later(t.start_time_ns, duration_seconds * 1_000_000_000) as u64,
                num_slices,
                slice_quantity: Amount {
                    units: truncated_div(total_quantity.units as int, num_slices as int) as i64,
                },
                slice_interval_ms: (duration_seconds * 1000 / num_slices as int) as u64,
                last_execution_ts: 0,
                is_active: false,
            }),
    {
        let now: u64 = now_ns();
        Self::new_at(total_quantity, duration_seconds, num_slices, now)
    }

    /// Starts the executor at `now`.
    pub fn start_at(&mut self, now: u64)
        ensures
            *final(self) == (TwapExecutor { is_active: true, start_time_ns: now, ..*old(self) }),
    {
        self.is_active = true;
        self.start_time_ns = now;
    }

    /// Starts the executor.
    pub fn start(&mut self)
        ensures
            *final(self) == (TwapExecutor {
                is_active: true,
                start_time_ns: final(self).start_time_ns,
                ..*old(self)
            }),
    {
        let now: u64 = now_ns();
        self.start_at(now);
    }

    /// Stops the executor.
    pub fn stop(&mut self)
        ensures
            *final(self) == (TwapExecutor { is_active: false, ..*old(self) }),
    {
        self.is_active = false;
    }

    /// Whether the next slice is due at `now`: the executor runs, something is
    /// left, and the interval has passed.
    pub fn should_execute_slice_at(&self, now: u64) -> (r: bool)
        ensures
            r == self.due(now),
    {
        if !self.is_active {
            return false;
        }
        if self.executed_quantity.units >= self.total_quantity.units {
            return false;
        }
        let elapsed_ms: u64 = now.saturating_sub(self.last_execution_ts) / 1_000_000;
        elapsed_ms >= self.slice_interval_ms
    }

    /// Whether the next slice is due.
    pub fn should_execute_slice(&self) -> (r: bool)
        ensures
            exists|now: u64| r == #[trigger] self.due(now),
    {
        let now: u64 = now_ns();
        self.should_execute_slice_at(now)
    }

    /// The quantity of the next slice: a slice, or what is left of less.
    pub open spec fn next_slice(&self) -> int {
        larger(smaller(self.slice_quantity.units as int, self.remaining()), 0)
    }

    /// The quantity of the next slice: no more than is left.
    pub fn get_next_slice_quantity(&self) -> (r: Amount)
        ensures
            r.units == self.next_slice(),
    {
        let remaining: i64 = difference(self.total_quantity, self.executed_quantity);
        let next: i64 = if self.slice_quantity.units <= remaining {
            self.slice_quantity.units
        } else {
            remaining
        };
        if next > 0 {
            Amount { units: next }
        } else {
            Amount::zero()
        }
    }

    /// Records a slice executed at `now`.
    pub fn record_slice_execution_at(&mut self, quantity: Amount, now: u64)
        requires
            old(self).wf(),
        ensures
            final(self).wf(),
            *final(self) == (TwapExecutor {
                executed_quantity: Amount {
                    units: saturated(old(self).executed_quantity.units + quantity.units) as i64,
                },
                last_execution_ts: now,
                ..*old(self)
            }),
    {
        self.executed_quantity = together(self.executed_quantity, quantity);
        self.last_execution_ts = now;
    }

    /// Records an executed slice.
    pub fn record_slice_execution(&mut self, quantity: Amount)
        requires
            old(self).wf(),
        ensures
            final(self).wf(),
            *final(self) == (TwapExecutor {
                executed_quantity: Amount {
                    units: saturated(old(self).executed_quantity.units + quantity.units) as i64,
                },
                last_execution_ts: final(self).last_execution_ts,
                ..*old(self)
            }),
    {
        let now: u64 = now_ns();
        self.record_slice_execution_at(quantity, now);
    }

    /// How far the order has come at `now`.
    pub fn get_status_at(&self, now: u64) -> (r: ParentOrderStatus)
        requires
            self.wf(),
        ensures
            r == self.status_at(now),
    {
        let total: i64 = self.total_quantity.units;
        let executed: i64 = self.executed_quantity.units;
        let slices_completed: u32 = if self.slice_quantity.units != 0 {
            let n: i128 = divide_signed(executed as i128, self.slice_quantity.units as i128);
            if n < 0 {
                0
            } else if n <= u32::MAX as i128 {
                n as u32
            } else {
                u32::MAX
            }
        } else if executed > 0 {
            u32::MAX
        } else {
            0
        };
        ParentOrderStatus {
            total_quantity: self.total_quantity,
            executed_quantity: self.executed_quantity,
            remaining_quantity: Amount {
                units: difference(self.total_quantity, self.executed_quantity),
            },
            average_price: Amount::zero(),
            progress_pct: Amount { units: progress_of(executed, total) },
            estimated_completion_ns: estimate_completion(
                executed,
                total,
                now.saturating_sub(self.start_time_ns),
                self.end_time_ns,
            ),
            slices_completed,
            total_slices: self.num_slices,
        }
    }

    /// How far the order has come.
    pub fn get_status(&self) -> (r: ParentOrderStatus)
        requires
            self.wf(),
        ensures
            exists|now: u64| r == #[trigger] self.status_at(now),
    {
        let now: u64 = now_ns();
        self.get_status_at(now)
    }

    /// Changes the quantity of the order, and its slices with it.
    pub fn update_total_quantity(&mut self, new_total: Amount)
        requires
            old(self).wf(),
        ensures
            final(self).wf(),
            *final(self) == (TwapExecutor {
                total_quantity: new_total,
                slice_quantity: Amount {
                    units: truncated_div(
                        new_total.units as int,
                        old(self).num_slices as int,
                    ) as i64,
                },
                ..*old(self)
            }),
    {
        self.total_quantity = new_total;
        self.slice_quantity = slice_of(new_total, self.num_slices);
    }
}

fn slice_of(total: Amount, num_slices: u32) -> (r: Amount)
    requires
        num_slices > 0,
    ensures
        r.units == truncated_div(total.units as int, num_slices as int),
{
    let q: i128 = divide_truncated(total.units as i128, num_slices as u64);
    proof {
        let n = num_slices as int;
        let m = if total.units < 0 {
            -total.units as int
        } else {
            total.units as int
        };
        assert(0 <= m / n <= m) by (nonlinear_arith)
            requires
                n >= 1,
                m >= 0,
        ;
    }
    Amount { units: q as i64 }
}

fn difference(a: Amount, b: Amount) -> (r: i64)
    ensures
        r == saturated(a.units - b.units),
{
    saturate(a.units as i128 - b.units as i128)
}

fn together(a: Amount, b: Amount) -> (r: Amount)
    ensures
        r.units == saturated(a.units + b.units),
{
    Amount { units: saturate(a.units as i128 + b.units as i128) }
}

/// The next slice never takes an order beyond its total.
pub proof fn law_slice_within_total(t: TwapExecutor)
    requires
        t.executed_quantity.units <= t.total_quantity.units,
    ensures
        t.executed_quantity.units + larger(
            smaller(t.slice_quantity.units as int, t.remaining()),
            0,
        ) <= t.total_quantity.units,
{
}

/// A finished order has no slice due, at any time.
pub proof fn law_finished_order_rests(t: TwapExecutor, now: u64)
    requires
        t.executed_quantity.units >= t.total_quantity.units,
    ensures
        !t.due(now),
{
}

/// The sum of weights.
pub open spec fn weight_sum(s: Seq<Amount>) -> int
    decreases s.len(),
{
    if s.len() == 0 {
        0
    } else {
        weight_sum(s.drop_last()) + s.last().units
    }
}

/// No weight is negative.
pub open spec fn no_negative(s: Seq<Amount>) -> bool {
    forall|i: int| 0 <= i < s.len() ==> (#[trigger] s[i]).units >= 0
}

proof fn lemma_weight_prefix(s: Seq<Amount>, n: int)
    requires
        no_negative(s),
        0 <= n <= s.len(),
    ensures
        0 <= weight_sum(s.take(n)) <= weight_sum(s),
    decreases s.len(),
{
    if s.len() > 0 {
        if n == s.len() {
            assert(s.take(n) =~= s);
            lemma_weight_prefix(s.drop_last(), n - 1);
        } else {
            assert(s.drop_last().take(n) =~= s.take(n));
            lemma_weight_prefix(s.drop_last(), n);
        }
    } else {
        assert(s.take(n) =~= s);
    }
}

fn sum_weights(s: &Vec<Amount>, n: usize) -> (r: i64)
    requires
        n <= s@.len(),
        no_negative(s@),
        weight_sum(s@) <= i64::MAX,
    ensures
        r == weight_sum(s@.take(n as int)),
        r >= 0,
{
    let mut sum: i64 = 0;
    let mut i: usize = 0;
    assert(s@.take(0) =~= Seq::empty());
    while i < n
        invariant
            i <= n <= s@.len(),
            no_negative(s@),
            weight_sum(s@) <= i64::MAX,
            sum == weight_sum(s@.take(i as int)),
            sum >= 0,
        decreases n - i,
    {
        proof {
            lemma_weight_prefix(s@, i + 1);
            assert(s@.take(i + 1).drop_last() =~= s@.take(i as int));
        }
        sum = sum + s[i].units;
        i += 1;
    }
    sum
}

/// Slices an order along a volume profile. The weights of the profile need not
/// sum to one: a bucket's share is its weight over the sum.
#[derive(Debug, Clone)]
pub struct VwapExecutor {
    pub total_quantity: Amount,
    pub executed_quantity: Amount,
    pub start_time_ns: u64,
    pub end_time_ns: u64,
    pub volume_profile: Vec<Amount>,
    pub profile_sum: i64,
    pub current_bucket: u64,
    pub bucket_target: Amount,
    pub num_buckets: usize,
    pub is_active: bool,
}

impl VwapExecutor {
    /// The weights sum to a positive number unless there are none, and none of
    /// them is negative.
    pub open spec fn wf(&self) -> bool {
        &&& no_negative(self.volume_profile@)
        &&& self.profile_sum == weight_sum(self.volume_profile@)
        &&& self.volume_profile@.len() > 0 ==> self.profile_sum > 0
        &&& self.num_buckets == self.volume_profile@.len()
    }

    /// What is left to execute; negative where too much was.
    pub open spec fn remaining(&self) -> int {
        saturated(self.total_quantity.units - self.executed_quantity.units)
    }

    /// A quantity's part for a bucket.
    pub open spec fn allotted(&self, quantity: int, bucket: int) -> int {
        truncated_div(quantity * self.volume_profile@[bucket].units, self.profile_sum as int)
    }

    /// Whether less is executed than the profile asks up to the current bucket:
    /// the executed part of the total is below the weight of the buckets so far
    /// over the weight of all. After the last bucket, everything is asked.
    pub open spec fn behind_profile(&self) -> bool {
        let (done, asked) = if self.current_bucket < self.volume_profile@.len() {
            (
                self.executed_quantity.units * self.profile_sum,
                weight_sum(self.volume_profile@.take(self.current_bucket + 1))
                    * self.total_quantity.units,
            )
        } else {
            (self.executed_quantity.units as int, self.total_quantity.units as int)
        };
        if self.total_quantity.units < 0 {
            done > asked
        } else {
            done < asked
        }
    }

    /// How far the order has come at `now`.
    pub open spec fn status_at(&self, now: u64) -> ParentOrderStatus {
        let executed = self.executed_quantity.units as int;
        let total = self.total_quantity.units as int;
        ParentOrderStatus {
            total_quantity: self.total_quantity,
            executed_quantity: self.executed_quantity,
            remaining_quantity: Amount { units: self.remaining() as i64 },
            average_price: Amount { units: 0 },
            progress_pct: Amount { units: progress_pct(executed, total) as i64 },
            estimated_completion_ns: completion(
                executed,
                total,
                if now >= self.start_time_ns {
                    now - self.start_time_ns
                } else {
                    0
                },
                self.end_time_ns,
            ) as u64,
            slices_completed: self.current_bucket as u32,
            total_slices: self.num_buckets as u32,
        }
    }

    /// A stopped executor, made at `now`.
    pub fn new_at(
        total_quantity: Amount,
        duration_seconds: u64,
        volume_profile: Vec<Amount>,
        now: u64,
    ) -> (v: Self)
        requires
            duration_seconds * 1_000_000_000 <= u64::MAX,
            no_negative(volume_profile@),
            weight_sum(volume_profile@) <= i64::MAX,
            volume_profile@.len() > 0 ==> weight_sum(volume_profile@) > 0,
        ensures
            v.wf(),
            v.total_quantity == total_quantity,
            v.executed_quantity.units == 0,
            v.start_time_ns == now,
            v.end_time_ns == later(now, duration_seconds * 1_000_000_000),
            v.volume_profile == volume_profile,
            v.current_bucket == 0,
            v.bucket_target.units == 0,
            !v.is_active,
    {
        let num_buckets: usize = volume_profile.len();
        let profile_sum: i64 = sum_weights(&volume_profile, num_buckets);
        assert(volume_profile@.take(num_buckets as int) =~= volume_profile@);
        VwapExecutor {
            total_quantity,
            executed_quantity: Amount::zero(),
            start_time_ns: now,
            end_time_ns: now.saturating_add(duration_seconds * 1_000_000_000),
            volume_profile,
            profile_sum,
            current_bucket: 0,
            bucket_target: Amount::zero(),
            num_buckets,
            is_active: false,
        }
    }

    /// A stopped executor.
    pub fn new(total_quantity: Amount, duration_seconds: u64, volume_profile: Vec<Amount>) -> (v:
        Self)
        requires
            duration_seconds * 1_000_000_000 <= u64::MAX,
            no_negative(volume_profile@),
            weight_sum(volume_profile@) <= i64::MAX,
            volume_profile@.len() > 0 ==> weight_sum(volume_profile@) > 0,
        ensures
            v.wf(),
            v.total_quantity == total_quantity,
            v.executed_quantity.units == 0,
            v.end_time_ns == later(v.start_time_ns, duration_seconds * 1_000_000_000),
            v.volume_profile == volume_profile,
            v.current_bucket == 0,
            v.bucket_target.units == 0,
            !v.is_active,
    {
        let now: u64 = now_ns();
        Self::new_at(total_quantity, duration_seconds, volume_profile, now)
    }

    fn allot(&self, quantity: i64, bucket: usize) -> (r: Amount)
        requires
            self.wf(),
            bucket < self.volume_profile@.len(),
        ensures
            r.units == self.allotted(quantity as int, bucket as int),
    {
        let q: i128 = quantity as i128;
        let w: i128 = self.volume_profile[bucket].units as i128;
        assert(-0x8000_0000_0000_0000 * 0x8000_0000_0000_0000 <= q * w <= 0x8000_0000_0000_0000
            * 0x8000_0000_0000_0000) by (nonlinear_arith)
            requires
                -0x8000_0000_0000_0000 <= q <= 0x8000_0000_0000_0000,
                0 <= w <= 0x8000_0000_0000_0000,
        ;
        let part: i128 = divide_truncated(q * w, self.profile_sum as u64);
        proof {
            lemma_weight_prefix(self.volume_profile@, bucket as int);
            lemma_weight_prefix(self.volume_profile@, bucket + 1);
            let p = self.volume_profile@.take(bucket + 1);
            assert(p.drop_last() =~= self.volume_profile@.take(bucket as int));
            assert(w <= self.profile_sum);
            lemma_part(q as int, w as int, self.profile_sum as int);
        }
        Amount { units: part as i64 }
    }

    /// Starts the executor at `now`, with the first bucket's target.
    pub fn start_at(&mut self, now: u64)
        requires
            old(self).wf(),
        ensures
            final(self).wf(),
            *final(self) == (VwapExecutor {
                is_active: true,
                start_time_ns: now,
                bucket_target: if old(self).volume_profile@.len() > 0 {
                    Amount {
                        units: old(self).allotted(old(self).total_quantity.units as int, 0) as i64,
                    }
                } else {
                    old(self).bucket_target
                },
                ..*old(self)
            }),
    {
        self.is_active = true;
        self.start_time_ns = now;
        if self.volume_profile.len() > 0 {
            let target: Amount = self.allot(self.total_quantity.units, 0);
            self.bucket_target = target;
        }
    }

    /// Starts the executor, with the first bucket's target.
    pub fn start(&mut self)
        requires
            old(self).wf(),
        ensures
            final(self).wf(),
            *final(self) == (VwapExecutor {
                is_active: true,
                start_time_ns: final(self).start_time_ns,
                bucket_target: if old(self).volume_profile@.len() > 0 {
                    Amount {
                        units: old(self).allotted(old(self).total_quantity.units as int, 0) as i64,
                    }
                } else {
                    old(self).bucket_target
                },
                ..*old(self)
            }),
    {
        let now: u64 = now_ns();
        self.start_at(now);
    }

    /// Stops the executor.
    pub fn stop(&mut self)
        ensures
            *final(self) == (VwapExecutor { is_active: false, ..*old(self) }),
    {
        self.is_active = false;
    }

    /// The current bucket's target.
    pub fn get_bucket_target(&self) -> (r: Amount)
        ensures
            r == self.bucket_target,
    {
        self.bucket_target
    }

    /// Whether a slice is wanted while the market trades a volume.
    pub open spec fn wants_slice(&self, market_volume: int) -> bool {
        self.is_active && self.remaining() > 0 && market_volume > 0 && self.behind_profile()
    }

    /// The quantity of the next slice: the wanted part of the market's volume,
    /// or what is left of less.
    pub open spec fn next_slice(&self, market_volume: int, rate: int) -> int {
        larger(smaller(product(market_volume, rate), self.remaining()), 0)
    }

    /// The order once the next bucket began; the last one stays.
    pub open spec fn in_next_bucket(self) -> Self {
        if self.current_bucket + 1 < self.num_buckets {
            VwapExecutor {
                current_bucket: (self.current_bucket + 1) as u64,
                bucket_target: Amount {
                    units: self.allotted(self.remaining(), self.current_bucket + 1) as i64,
                },
                ..self
            }
        } else {
            self
        }
    }

    /// Whether to execute a slice: the executor runs, something is left, the
    /// market trades, and less is executed than the profile asks.
    pub fn should_execute_slice(&self, current_volume: Amount, market_volume: Amount) -> (r: bool)
        requires
            self.wf(),
        ensures
            r == self.wants_slice(market_volume.units as int),
    {
        if !self.is_active {
            return false;
        }
        if self.executed_quantity.units >= self.total_quantity.units {
            return false;
        }
        if market_volume.units <= 0 {
            return false;
        }
        self.is_behind_profile()
    }

    fn is_behind_profile(&self) -> (r: bool)
        requires
            self.wf(),
        ensures
            r == self.behind_profile(),
    {
        let executed: i128 = self.executed_quantity.units as i128;
        let total: i128 = self.total_quantity.units as i128;
        let (done, asked): (i128, i128) = if self.current_bucket < self.volume_profile.len() as u64 {
            let upto: usize = self.current_bucket as usize + 1;
            let so_far: i128 = sum_weights(&self.volume_profile, upto) as i128;
            let all: i128 = self.profile_sum as i128;
            assert(-0x8000_0000_0000_0000 * 0x8000_0000_0000_0000 <= executed * all
                <= 0x8000_0000_0000_0000 * 0x8000_0000_0000_0000) by (nonlinear_arith)
                requires
                    -0x8000_0000_0000_0000 <= executed <= 0x8000_0000_0000_0000,
                    0 <= all <= 0x8000_0000_0000_0000,
            ;
            assert(-0x8000_0000_0000_0000 * 0x8000_0000_0000_0000 <= so_far * total
                <= 0x8000_0000_0000_0000 * 0x8000_0000_0000_0000) by (nonlinear_arith)
                requires
                    0 <= so_far <= 0x8000_0000_0000_0000,
                    -0x8000_0000_0000_0000 <= total <= 0x8000_0000_0000_0000,
            ;
            (executed * all, so_far * total)
        } else {
            (executed, total)
        };
        if total < 0 {
            done > asked
        } else {
            done < asked
        }
    }

    /// The quantity of the next slice: the given part of the market's volume,
    /// no more than is left.
    pub fn get_next_slice_quantity(&self, market_volume: Amount, participation_rate: Amount) -> (r:
        Amount)
        ensures
            r.units == self.next_slice(
                market_volume.units as int,
                participation_rate.units as int,
            ),
    {
        let remaining: i64 = difference(self.total_quantity, self.executed_quantity);
        let target: i64 = product_of(market_volume.units, participation_rate.units);
        let next: i64 = if target <= remaining { target } else { remaining };
        if next > 0 {
            Amount { units: next }
        } else {
            Amount::zero()
        }
    }

    /// Records an executed slice.
    pub fn record_slice_execution(&mut self, quantity: Amount)
        requires
            old(self).wf(),
        ensures
            final(self).wf(),
            *final(self) == (VwapExecutor {
                executed_quantity: Amount {
                    units: saturated(old(self).executed_quantity.units + quantity.units) as i64,
                },
                ..*old(self)
            }),
    {
        self.executed_quantity = together(self.executed_quantity, quantity);
    }

    /// Goes to the next bucket, unless this is the last, with its part of what
    /// is left as its target.
    pub fn advance_bucket(&mut self)
        requires
            old(self).wf(),
            old(self).num_buckets > 0,
        ensures
            final(self).wf(),
            *final(self) == old(self).in_next_bucket(),
    {
        let current: u64 = self.current_bucket;
        if current < (self.num_buckets - 1) as u64 {
            let next: u64 = current + 1;
            self.current_bucket = next;
            let remaining: i64 = difference(self.total_quantity, self.executed_quantity);
            let target: Amount = self.allot(remaining, next as usize);
            self.bucket_target = target;
        }
    }

    /// How far the order has come at `now`.
    pub fn get_status_at(&self, now: u64) -> (r: ParentOrderStatus)
        requires
            self.wf(),
        ensures
            r == self.status_at(now),
    {
        let total: i64 = self.total_quantity.units;
        let executed: i64 = self.executed_quantity.units;
        ParentOrderStatus {
            total_quantity: self.total_quantity,
            executed_quantity: self.executed_quantity,
            remaining_quantity: Amount {
                units: difference(self.total_quantity, self.executed_quantity),
            },
            average_price: Amount::zero(),
            progress_pct: Amount { units: progress_of(executed, total) },
            estimated_completion_ns: estimate_completion(
                executed,
                total,
                now.saturating_sub(self.start_time_ns),
                self.end_time_ns,
            ),
            slices_completed: self.current_bucket as u32,
            total_slices: self.num_buckets as u32,
        }
    }

    /// How far the order has come.
    pub fn get_status(&self) -> (r: ParentOrderStatus)
        requires
            self.wf(),
        ensures
            exists|now: u64| r == #[trigger] self.status_at(now),
    {
        let now: u64 = now_ns();
        self.get_status_at(now)
    }
}

proof fn lemma_part(q: int, w: int, sum: int)
    requires
        0 <= w <= sum,
        sum > 0,
        fits(q),
    ensures
        fits(truncated_div(q * w, sum)),
{
    let m = if q < 0 {
        -q
    } else {
        q
    };
    assert(0 <= (m * w) / sum <= m) by (nonlinear_arith)
        requires
            0 <= w <= sum,
            sum > 0,
            m >= 0,
    ;
    assert((-m) * w == -(m * w)) by (nonlinear_arith);
    assert(m * w >= 0) by (nonlinear_arith)
        requires
            m >= 0,
            w >= 0,
    ;
}

/// In the last bucket the whole order is asked for.
pub proof fn law_last_bucket_asks_everything(v: VwapExecutor)
    requires
        v.wf(),
        v.volume_profile@.len() > 0,
        v.current_bucket + 1 == v.volume_profile@.len(),
        v.total_quantity.units >= 0,
    ensures
        v.behind_profile() <==> v.executed_quantity.units < v.total_quantity.units,
{
    let s = v.profile_sum as int;
    let e = v.executed_quantity.units as int;
    let t = v.total_quantity.units as int;
    assert(v.volume_profile@.take(v.current_bucket + 1) =~= v.volume_profile@);
    assert(e * s < s * t <==> e < t) by (nonlinear_arith)
        requires
            s > 0,
    ;
}

/// An order that shows clips of its quantity.
#[derive(Debug, Clone, Copy, PartialEq, Eq, Structural)]
pub struct IcebergOrder {
    pub total_quantity: Amount,
    pub visible_size: Amount,
    pub hidden_quantity: Amount,
    pub executed_quantity: Amount,
    pub clip_remaining: Amount,
    pub clips_executed: u64,
    pub is_active: bool,
}

impl IcebergOrder {
    /// What is left to execute.
    pub open spec fn remaining(self) -> int {
        saturated(self.total_quantity.units - self.executed_quantity.units)
    }

    /// The clip that replaces an empty one.
    pub open spec fn next_clip(self) -> int {
        smaller(self.visible_size.units as int, self.hidden_quantity.units as int)
    }

    /// The order after a fill: an empty clip is replaced from the hidden part,
    /// as long as there is one.
    pub open spec fn after_fill(self, quantity: Amount) -> Self {
        let executed = Amount {
            units: saturated(self.executed_quantity.units + quantity.units) as i64,
        };
        let clip = saturated(self.clip_remaining.units - quantity.units);
        if clip > 0 {
            IcebergOrder {
                executed_quantity: executed,
                clip_remaining: Amount { units: clip as i64 },
                ..self
            }
        } else if self.hidden_quantity.units > 0 {
            IcebergOrder {
                executed_quantity: executed,
                clip_remaining: Amount { units: self.next_clip() as i64 },
                hidden_quantity: Amount {
                    units: saturated(self.hidden_quantity.units - self.next_clip()) as i64,
                },
                clips_executed: self.clips_executed.wrapping_add(1),
                ..self
            }
        } else {
            IcebergOrder {
                executed_quantity: executed,
                clip_remaining: Amount { units: 0 },
                ..self
            }
        }
    }

    /// A stopped order; what is not shown is hidden.
    pub fn new(total_quantity: Amount, visible_size: Amount) -> (o: Self)
        ensures
            o == (IcebergOrder {
                total_quantity,
                visible_size,
                hidden_quantity: Amount {
                    units: larger(
                        saturated(total_quantity.units - visible_size.units),
                        0,
                    ) as i64,
                },
                executed_quantity: Amount { units: 0 },
                clip_remaining: visible_size,
                clips_executed: 0,
                is_active: false,
            }),
    {
        let rest: i64 = difference(total_quantity, visible_size);
        IcebergOrder {
            total_quantity,
            visible_size,
            hidden_quantity: Amount { units: if rest > 0 { rest } else { 0 } },
            executed_quantity: Amount::zero(),
            clip_remaining: visible_size,
            clips_executed: 0,
            is_active: false,
        }
    }

    /// Starts the order.
    pub fn start(&mut self)
        ensures
            *final(self) == (IcebergOrder { is_active: true, ..*old(self) }),
    {
        self.is_active = true;
    }

    /// The size that the market sees.
    pub open spec fn shown(self) -> int {
        smaller(self.visible_size.units as int, self.remaining())
    }

    /// The size to show: no more than is left.
    pub fn get_visible_size(&self) -> (r: Amount)
        ensures
            r.units == self.shown(),
    {
        let remaining: i64 = difference(self.total_quantity, self.executed_quantity);
        if self.visible_size.units <= remaining {
            self.visible_size
        } else {
            Amount { units: remaining }
        }
    }

    /// Records a fill of the current clip.
    pub fn record_fill(&mut self, fill_quantity: Amount)
        ensures
            *final(self) == old(self).after_fill(fill_quantity),
    {
        self.executed_quantity = together(self.executed_quantity, fill_quantity);
        let left: i64 = difference(self.clip_remaining, fill_quantity);
        if left <= 0 {
            let hidden: i64 = self.hidden_quantity.units;
            if hidden > 0 {
                let reload: i64 = if self.visible_size.units <= hidden {
                    self.visible_size.units
                } else {
                    hidden
                };
                self.clip_remaining = Amount { units: reload };
                self.hidden_quantity = Amount { units: saturate(hidden as i128 - reload as i128) };
                self.clips_executed = self.clips_executed.wrapping_add(1);
            } else {
                self.clip_remaining = Amount::zero();
            }
        } else {
            self.clip_remaining = Amount { units: left };
        }
    }

    /// Whether everything is executed.
    pub fn is_complete(&self) -> (r: bool)
        ensures
            r == (self.executed_quantity.units >= self.total_quantity.units),
    {
        self.executed_quantity.units >= self.total_quantity.units
    }

    /// What is left to execute.
    pub fn get_remaining(&self) -> (r: Amount)
        ensures
            r.units == self.remaining(),
    {
        Amount { units: difference(self.total_quantity, self.executed_quantity) }
    }

    /// The size to show at a depth: a tenth of the depth, but at least a tenth
    /// of the wanted size and at most all of it.
    pub open spec fn size_for_depth(wanted: int, depth: int) -> int {
        let (size, deep) = if wanted >= 0 {
            (wanted, depth)
        } else {
            (-wanted, -depth)
        };
        let shown = if deep >= 10 * size {
            size
        } else if deep <= size {
            size / 10
        } else {
            deep / 10
        };
        if wanted >= 0 {
            shown
        } else {
            -shown
        }
    }

    /// Sets the size to show by the depth of the order book.
    pub fn adjust_visible_size(&mut self, new_visible: Amount, order_book_depth: Amount)
        ensures
            *final(self) == (IcebergOrder {
                visible_size: Amount {
                    units: Self::size_for_depth(
                        new_visible.units as int,
                        order_book_depth.units as int,
                    ) as i64,
                },
                ..*old(self)
            }),
    {
        let negative: bool = new_visible.units < 0;
        let (size, depth): (i128, i128) = if negative {
            (-(new_visible.units as i128), -(order_book_depth.units as i128))
        } else {
            (new_visible.units as i128, order_book_depth.units as i128)
        };
        let shown: i128 = if depth >= 10 * size {
            size
        } else if depth <= size {
            (size as u128 / 10) as i128
        } else {
            (depth as u128 / 10) as i128
        };
        self.visible_size = Amount { units: if negative { (-shown) as i64 } else { shown as i64 } };
    }
}

/// While fills match the clips, what is executed, shown and hidden makes up the
/// whole order.
pub proof fn law_iceberg_conserves(o: IcebergOrder)
    requires
        o.executed_quantity.units + o.clip_remaining.units + o.hidden_quantity.units
            == o.total_quantity.units,
        o.clip_remaining.units >= 0,
        o.hidden_quantity.units >= 0,
        o.visible_size.units > 0,
        o.executed_quantity.units >= 0,
    ensures
        ({
            let n = o.after_fill(o.clip_remaining);
            n.executed_quantity.units + n.clip_remaining.units + n.hidden_quantity.units
                == n.total_quantity.units
        }),
{
}

} // verus!
