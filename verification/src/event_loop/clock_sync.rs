//! Synchronisation of the local clock with time servers.

use vstd::prelude::*;
use crate::base::amount::magnitude;
use crate::base::clock::now_ns;
use crate::base::numbers::{divide_truncated, is_root, lemma_root_unique, root, truncated_div};
use crate::base::sorting::{ascending, lemma_ascending, sorted};
use crate::base::text::views;

verus! {

/// The outcome of a synchronisation.
#[derive(Debug, Clone, Copy, PartialEq, Eq, Structural)]
pub struct ClockSyncResult {
    /// How far the local clock is ahead, in nanoseconds.
    pub offset_ns: i64,
    /// Mean round trip, in nanoseconds.
    pub rtt_ns: u64,
    /// Standard deviation of the offsets, in nanoseconds.
    pub jitter_ns: u64,
    pub sample_count: u32,
    pub sync_timestamp_ns: u64,
}

impl ClockSyncResult {
    /// Whether the offset is within a limit and the jitter below a millisecond.
    pub open spec fn accurate(&self, max_offset_ns: i64) -> bool {
        magnitude(self.offset_ns as int) <= max_offset_ns && self.jitter_ns < 1_000_000
    }

    /// Whether the offset is within the limit and the jitter below a
    /// millisecond.
    pub fn is_accurate(&self, max_offset_ns: i64) -> (r: bool)
        ensures
            r == self.accurate(max_offset_ns),
    {
        let m: i128 = if self.offset_ns < 0 {
            -(self.offset_ns as i128)
        } else {
            self.offset_ns as i128
        };
        m <= max_offset_ns as i128 && self.jitter_ns < 1_000_000
    }
}

/// Settings of the synchroniser.
#[derive(Debug, Clone)]
pub struct ClockSyncConfig {
    pub ntp_servers: Vec<String>,
    /// Where the exchange tells its time.
    pub exchange_time_endpoint: Option<String>,
    pub sync_interval_sec: u64,
    pub max_offset_ns: i64,
    pub samples_per_sync: u32,
    pub enable_ptp: bool,
}

impl ClockSyncConfig {
    /// Whether three public servers are asked, eight times each, once a minute.
    pub open spec fn is_usual(&self) -> bool {
        &&& views(self.ntp_servers@) == seq![
            "pool.ntp.org"@,
            "time.google.com"@,
            "time.cloudflare.com"@,
        ]
        &&& self.exchange_time_endpoint is None
        &&& self.sync_interval_sec == 60
        &&& self.max_offset_ns == 100_000
        &&& self.samples_per_sync == 8
        &&& !self.enable_ptp
    }
}

impl Default for ClockSyncConfig {
    fn default() -> (c: Self)
        ensures
            c.is_usual(),
    {
        let mut servers: Vec<String> = Vec::new();
        servers.push("pool.ntp.org".to_owned());
        servers.push("time.google.com".to_owned());
        servers.push("time.cloudflare.com".to_owned());
        assert(views(servers@) =~= seq![
            "pool.ntp.org"@,
            "time.google.com"@,
            "time.cloudflare.com"@,
        ]);
        ClockSyncConfig {
            ntp_servers: servers,
            exchange_time_endpoint: None,
            sync_interval_sec: 60,
            max_offset_ns: 100_000,
            samples_per_sync: 8,
            enable_ptp: false,
        }
    }
}

/// Counters of the synchroniser.
#[derive(Debug, Clone, Copy, PartialEq, Eq, Structural)]
pub struct ClockSyncStats {
    pub offset_ns: i64,
    pub jitter_ns: u64,
    pub sync_count: u64,
    pub last_sync_ns: u64,
    pub is_running: bool,
}

/// The offsets of samples.
pub open spec fn offsets(samples: Seq<(i64, u64)>) -> Seq<i64> {
    Seq::new(samples.len(), |i: int| samples[i].0)
}

/// The middle of the offsets in order: the mean of the two in the middle where
/// their number is even.
pub open spec fn median(s: Seq<i64>) -> int {
    let sorted = ascending(s);
    let mid = s.len() as int / 2;
    if s.len() % 2 == 0 {
        truncated_div(sorted[mid - 1] + sorted[mid], 2)
    } else {
        sorted[mid] as int
    }
}

/// The sum of the offsets.
pub open spec fn offset_sum(s: Seq<i64>) -> int
    decreases s.len(),
{
    if s.len() == 0 {
        0
    } else {
        offset_sum(s.drop_last()) + s.last()
    }
}

/// The mean of the offsets, without its fraction.
pub open spec fn mean(s: Seq<i64>) -> int {
    truncated_div(offset_sum(s), s.len() as int)
}

/// The sum of the squared distances from `m`.
pub open spec fn square_sum(s: Seq<i64>, m: int) -> int
    decreases s.len(),
{
    if s.len() == 0 {
        0
    } else {
        square_sum(s.drop_last(), m) + (s.last() - m) * (s.last() - m)
    }
}

/// The variance of the offsets, without its fraction; a sum of squares out of
/// range counts as the largest in range.
pub open spec fn variance(s: Seq<i64>) -> int {
    let sum = square_sum(s, mean(s));
    (if sum <= u128::MAX {
        sum
    } else {
        u128::MAX as int
    }) / (s.len() as int)
}

/// The sum of the round trips.
pub open spec fn rtt_sum(samples: Seq<(i64, u64)>) -> int
    decreases samples.len(),
{
    if samples.len() == 0 {
        0
    } else {
        rtt_sum(samples.drop_last()) + samples.last().1
    }
}

/// Whether a result is what samples taken until `now` show.
pub open spec fn shows(samples: Seq<(i64, u64)>, now: u64, r: ClockSyncResult) -> bool {
    &&& r.offset_ns == median(offsets(samples))
    &&& r.rtt_ns == rtt_sum(samples) / (samples.len() as int)
    &&& is_root(r.jitter_ns as int, variance(offsets(samples)))
    &&& r.sample_count == samples.len() as u32
    &&& r.sync_timestamp_ns == now
}

proof fn lemma_truncated_bounds(a: int, b: int, low: int, high: int)
    requires
        b > 0,
        low <= 0 <= high,
        low * b <= a <= high * b,
    ensures
        low <= truncated_div(a, b) <= high,
{
    if a < 0 {
        assert((-a) / b <= -low) by (nonlinear_arith)
            requires
                b > 0,
                low * b <= a,
                a < 0,
        ;
        assert((-a) / b >= 0) by (nonlinear_arith)
            requires
                b > 0,
                a < 0,
        ;
    } else {
        assert(a / b <= high) by (nonlinear_arith)
            requires
                b > 0,
                a <= high * b,
        ;
        assert(a / b >= 0) by (nonlinear_arith)
            requires
                b > 0,
                a >= 0,
        ;
    }
}

proof fn lemma_offset_sum_bounds(s: Seq<i64>)
    ensures
        i64::MIN * s.len() <= offset_sum(s) <= i64::MAX * s.len(),
    decreases s.len(),
{
    if s.len() > 0 {
        lemma_offset_sum_bounds(s.drop_last());
        assert(i64::MIN * s.len() == i64::MIN * (s.len() - 1) + i64::MIN) by (nonlinear_arith);
        assert(i64::MAX * s.len() == i64::MAX * (s.len() - 1) + i64::MAX) by (nonlinear_arith);
    }
}

proof fn lemma_rtt_sum_bounds(s: Seq<(i64, u64)>)
    ensures
        0 <= rtt_sum(s) <= u64::MAX * s.len(),
    decreases s.len(),
{
    if s.len() > 0 {
        lemma_rtt_sum_bounds(s.drop_last());
        assert(u64::MAX * s.len() == u64::MAX * (s.len() - 1) + u64::MAX) by (nonlinear_arith);
    }
}

fn median_of(sorted: &Vec<i64>) -> (m: i64)
    requires
        sorted@.len() > 0,
    ensures
        m == (if sorted@.len() % 2 == 0 {
            truncated_div(
                sorted@[sorted@.len() as int / 2 - 1] + sorted@[sorted@.len() as int / 2],
                2,
            )
        } else {
            sorted@[sorted@.len() as int / 2] as int
        }),
{
    let mid: usize = sorted.len() / 2;
    if sorted.len() % 2 == 0 {
        let sum: i128 = sorted[mid - 1] as i128 + sorted[mid] as i128;
        proof {
            lemma_truncated_bounds(sum as int, 2, i64::MIN as int, i64::MAX as int);
        }
        divide_truncated(sum, 2) as i64
    } else {
        sorted[mid]
    }
}

fn mean_of(v: &Vec<i64>) -> (m: i64)
    requires
        v@.len() > 0,
    ensures
        m == mean(v@),
{
    let mut sum: i128 = 0;
    let mut i: usize = 0;
    assert(v@.take(0) =~= Seq::<i64>::empty());
    while i < v.len()
        invariant
            i <= v@.len(),
            sum == offset_sum(v@.take(i as int)),
            -0x8000_0000_0000_0000 * i <= sum <= 0x8000_0000_0000_0000 * i,
        decreases v@.len() - i,
    {
        assert(v@.take(i + 1).drop_last() =~= v@.take(i as int));
        sum = sum + v[i] as i128;
        i += 1;
    }
    proof {
        assert(v@.take(v@.len() as int) =~= v@);
        lemma_offset_sum_bounds(v@);
        lemma_truncated_bounds(sum as int, v@.len() as int, i64::MIN as int, i64::MAX as int);
    }
    divide_truncated(sum, v.len() as u64) as i64
}

proof fn lemma_square_bound(a: int)
    requires
        -0xffff_ffff_ffff_ffff <= a <= 0xffff_ffff_ffff_ffff,
    ensures
        0 <= a * a <= 0xffff_ffff_ffff_ffff * 0xffff_ffff_ffff_ffff,
{
    assert(0 <= a * a <= 0xffff_ffff_ffff_ffff * 0xffff_ffff_ffff_ffff) by (nonlinear_arith)
        requires
            -0xffff_ffff_ffff_ffff <= a <= 0xffff_ffff_ffff_ffff,
    ;
}

proof fn lemma_square_sum_grows(s: Seq<i64>, m: int, k: int)
    requires
        0 <= k <= s.len(),
    ensures
        0 <= square_sum(s.take(k), m) <= square_sum(s, m),
    decreases s.len(),
{
    if s.len() == 0 {
        assert(s.take(k) =~= s);
    } else {
        assert((s.last() - m) * (s.last() - m) >= 0) by (nonlinear_arith);
        if k == s.len() {
            assert(s.take(k) =~= s);
            lemma_square_sum_grows(s.drop_last(), m, 0);
        } else {
            lemma_square_sum_grows(s.drop_last(), m, k);
            assert(s.drop_last().take(k) =~= s.take(k));
        }
    }
}

fn variance_of(v: &Vec<i64>, m: i64) -> (r: u128)
    requires
        v@.len() > 0,
        m == mean(v@),
    ensures
        r == variance(v@),
{
    let mut sum: u128 = 0;
    let mut i: usize = 0;
    assert(v@.take(0) =~= Seq::<i64>::empty());
    while i < v.len()
        invariant
            i <= v@.len(),
            sum == (if square_sum(v@.take(i as int), m as int) <= u128::MAX {
                square_sum(v@.take(i as int), m as int)
            } else {
                u128::MAX as int
            }),
        decreases v@.len() - i,
    {
        proof {
            assert(v@.take(i + 1).drop_last() =~= v@.take(i as int));
            lemma_square_bound(v@[i as int] - m);
            lemma_square_sum_grows(v@.take(i + 1), m as int, i as int);
            assert(v@.take(i + 1).take(i as int) =~= v@.take(i as int));
        }
        let d: i128 = v[i] as i128 - m as i128;
        let a: u128 = if d < 0 {
            (-d) as u128
        } else {
            d as u128
        };
        proof {
            lemma_square_bound(a as int);
            assert(a * a == d * d) by (nonlinear_arith)
                requires
                    a == d || a == -d,
            ;
        }
        sum = sum.saturating_add(a * a);
        i += 1;
    }
    assert(v@.take(v@.len() as int) =~= v@);
    sum / (v.len() as u128)
}

/// Keeps the offset of the local clock.
pub struct ClockSynchronizer {
    pub config: ClockSyncConfig,
    pub current_offset_ns: i64,
    pub current_jitter_ns: i64,
    pub last_sync_timestamp_ns: u64,
    pub is_running: bool,
    pub sync_count: u64,
}

impl ClockSynchronizer {
    /// A synchroniser that has not run yet.
    pub fn new(config: ClockSyncConfig) -> (s: Self)
        ensures
            s.config == config,
            s.current_offset_ns == 0,
            s.current_jitter_ns == 0,
            s.last_sync_timestamp_ns == 0,
            !s.is_running,
            s.sync_count == 0,
    {
        ClockSynchronizer {
            config,
            current_offset_ns: 0,
            current_jitter_ns: 0,
            last_sync_timestamp_ns: 0,
            is_running: false,
            sync_count: 0,
        }
    }

    /// The current offset.
    pub fn get_offset_ns(&self) -> (r: i64)
        ensures
            r == self.current_offset_ns,
    {
        self.current_offset_ns
    }

    /// The current jitter.
    pub fn get_jitter_ns(&self) -> (r: i64)
        ensures
            r == self.current_jitter_ns,
    {
        self.current_jitter_ns
    }

    /// A local time with the offset taken off, within the range of `u64`.
    pub open spec fn synced(&self, local_ns: u64) -> int {
        let t = local_ns - self.current_offset_ns;
        if t < 0 {
            0
        } else if t > u64::MAX {
            u64::MAX as int
        } else {
            t
        }
    }

    /// A local time with the offset taken off.
    pub fn get_synced_timestamp_at(&self, local_ns: u64) -> (r: u64)
        ensures
            r == self.synced(local_ns),
    {
        let t: i128 = local_ns as i128 - self.current_offset_ns as i128;
        if t < 0 {
            0
        } else if t > u64::MAX as i128 {
            u64::MAX
        } else {
            t as u64
        }
    }

    /// The current time with the offset taken off.
    pub fn get_synced_timestamp_ns(&self) -> (r: u64)
        ensures
            exists|local: u64| r == #[trigger] self.synced(local),
    {
        let local: u64 = now_ns();
        self.get_synced_timestamp_at(local)
    }

    /// What samples taken until `now` make of the synchroniser.
    pub open spec fn synchronised(&self, after: &Self, r: ClockSyncResult) -> bool {
        *after == (ClockSynchronizer {
            current_offset_ns: r.offset_ns,
            current_jitter_ns: r.jitter_ns as i64,
            last_sync_timestamp_ns: r.sync_timestamp_ns,
            sync_count: self.sync_count.wrapping_add(1),
            ..*self
        })
    }

    /// Takes in samples, each an offset and a round trip, at `now`. Refused
    /// where there are none.
    pub fn apply_samples(&mut self, samples: &Vec<(i64, u64)>, now: u64) -> (r: Result<
        ClockSyncResult,
        String,
    >)
        ensures
            match r {
                Ok(result) => samples@.len() > 0 && shows(samples@, now, result) && old(
                    self,
                ).synchronised(final(self), result),
                Err(e) => samples@.len() == 0 && e@ == "No successful time samples"@
                    && *final(self) == *old(self),
            },
    {
        if samples.len() == 0 {
            return Err("No successful time samples".to_owned());
        }
        let mut found: Vec<i64> = Vec::new();
        let mut rtts: u128 = 0;
        let mut i: usize = 0;
        assert(samples@.take(0) =~= Seq::<(i64, u64)>::empty());
        while i < samples.len()
            invariant
                i <= samples@.len(),
                found@.len() == i,
                forall|k: int| 0 <= k < i ==> found@[k] == (#[trigger] samples@[k]).0,
                rtts == rtt_sum(samples@.take(i as int)),
                rtts <= 0xffff_ffff_ffff_ffff * i,
            decreases samples@.len() - i,
        {
            assert(samples@.take(i + 1).drop_last() =~= samples@.take(i as int));
            found.push(samples[i].0);
            rtts = rtts + samples[i].1 as u128;
            i += 1;
        }
        assert(samples@.take(samples@.len() as int) =~= samples@);
        assert(found@ =~= offsets(samples@));
        let in_order = sorted(&found);
        let median_offset: i64 = median_of(&in_order);
        let mean_offset: i64 = mean_of(&found);
        let jitter: u64 = root(variance_of(&found, mean_offset));
        let n: u128 = samples.len() as u128;
        assert(rtts / n <= 0xffff_ffff_ffff_ffff) by (nonlinear_arith)
            requires
                n > 0,
                rtts <= 0xffff_ffff_ffff_ffff * n,
        ;
        let avg_rtt: u64 = (rtts / n) as u64;
        self.current_offset_ns = median_offset;
        self.current_jitter_ns = jitter as i64;
        self.last_sync_timestamp_ns = now;
        self.sync_count = self.sync_count.wrapping_add(1);
        Ok(
            ClockSyncResult {
                offset_ns: median_offset,
                rtt_ns: avg_rtt,
                jitter_ns: jitter,
                sample_count: samples.len() as u32,
                sync_timestamp_ns: now,
            },
        )
    }

    /// The simulated answer of a time server: half a millisecond ahead after
    /// twenty milliseconds.
    fn query_ntp(&self, _server: &String) -> (r: (i64, u64))
        ensures
            r == (500_000i64, 20_000_000u64),
    {
        (500_000, 20_000_000)
    }

    /// The simulated answer of the exchange: a tenth of a millisecond ahead
    /// after ten milliseconds.
    fn query_exchange_time(&self, _endpoint: &String) -> (r: (i64, u64))
        ensures
            r == (100_000i64, 10_000_000u64),
    {
        (100_000, 10_000_000)
    }

    /// The simulated samples: one for each server, and one for the exchange
    /// where it is asked.
    pub open spec fn simulated_samples(&self) -> Seq<(i64, u64)> {
        Seq::new(
            self.config.ntp_servers@.len() + (if self.config.exchange_time_endpoint is Some {
                1nat
            } else {
                0
            }),
            |i: int|
                if i < self.config.ntp_servers@.len() {
                    (500_000i64, 20_000_000u64)
                } else {
                    (100_000i64, 10_000_000u64)
                },
        )
    }

    /// Synchronises once.
    pub fn sync_once(&mut self) -> (r: Result<ClockSyncResult, String>)
        ensures
            match r {
                Ok(result) => old(self).simulated_samples().len() > 0 && shows(
                    old(self).simulated_samples(),
                    result.sync_timestamp_ns,
                    result,
                ) && old(self).synchronised(final(self), result),
                Err(e) => old(self).simulated_samples().len() == 0 && e@
                    == "No successful time samples"@ && *final(self) == *old(self),
            },
    {
        let mut samples: Vec<(i64, u64)> = Vec::new();
        let mut i: usize = 0;
        while i < self.config.ntp_servers.len()
            invariant
                i <= self.config.ntp_servers@.len(),
                samples@.len() == i,
                *self == *old(self),
                forall|k: int| 0 <= k < i ==> #[trigger] samples@[k] == (500_000i64, 20_000_000u64),
            decreases self.config.ntp_servers@.len() - i,
        {
            samples.push(self.query_ntp(&self.config.ntp_servers[i]));
            i += 1;
        }
        if let Some(endpoint) = &self.config.exchange_time_endpoint {
            samples.push(self.query_exchange_time(endpoint));
        }
        assert(samples@ =~= self.simulated_samples());
        let now: u64 = now_ns();
        self.apply_samples(&samples, now)
    }

    /// Lets the synchronisation loop run.
    pub fn start_sync_loop(&mut self)
        ensures
            *final(self) == (ClockSynchronizer { is_running: true, ..*old(self) }),
    {
        self.is_running = true;
    }

    /// Ends the synchronisation loop.
    pub fn stop(&mut self)
        ensures
            *final(self) == (ClockSynchronizer { is_running: false, ..*old(self) }),
    {
        self.is_running = false;
    }

    /// The synchroniser's counters.
    pub fn get_stats(&self) -> (r: ClockSyncStats)
        ensures
            r == (ClockSyncStats {
                offset_ns: self.current_offset_ns,
                jitter_ns: self.current_jitter_ns as u64,
                sync_count: self.sync_count,
                last_sync_ns: self.last_sync_timestamp_ns,
                is_running: self.is_running,
            }),
    {
        ClockSyncStats {
            offset_ns: self.current_offset_ns,
            jitter_ns: self.current_jitter_ns as u64,
            sync_count: self.sync_count,
            last_sync_ns: self.last_sync_timestamp_ns,
            is_running: self.is_running,
        }
    }
}

impl Default for ClockSynchronizer {
    fn default() -> (s: Self)
        ensures
            s.config.is_usual(),
            s.current_offset_ns == 0,
            s.current_jitter_ns == 0,
            s.last_sync_timestamp_ns == 0,
            s.sync_count == 0,
            !s.is_running,
    {
        ClockSynchronizer::new(ClockSyncConfig::default())
    }
}

/// Samples that all show one offset have that offset as their median, and no
/// jitter.
pub proof fn law_equal_samples(samples: Seq<(i64, u64)>, offset: i64, now: u64, r: ClockSyncResult)
    requires
        samples.len() > 0,
        forall|i: int| 0 <= i < samples.len() ==> (#[trigger] samples[i]).0 == offset,
        shows(samples, now, r),
    ensures
        r.offset_ns == offset,
        r.jitter_ns == 0,
{
    let s = offsets(samples);
    let n = s.len() as int;
    assert forall|i: int| 0 <= i < s.len() implies s[i] == offset by {
        assert(samples[i].0 == offset);
    }
    lemma_ascending(s);
    assert forall|i: int| 0 <= i < s.len() implies #[trigger] ascending(s)[i] == offset by {
        assert(s.contains(ascending(s)[i]));
    }
    assert(truncated_div(offset + offset, 2) == offset);
    lemma_constant(s, offset);
    assert(truncated_div(offset * n, n) == offset) by (nonlinear_arith)
        requires
            n > 0,
    ;
    assert(mean(s) == offset);
    assert(0int / n == 0) by (nonlinear_arith)
        requires
            n > 0,
    ;
    assert(0int * 0int <= 0 && 0int < (0int + 1) * (0int + 1)) by (nonlinear_arith);
    lemma_root_unique(r.jitter_ns as int, 0, 0);
}

proof fn lemma_constant(s: Seq<i64>, offset: i64)
    requires
        forall|i: int| 0 <= i < s.len() ==> #[trigger] s[i] == offset,
    ensures
        offset_sum(s) == offset * s.len(),
        square_sum(s, offset as int) == 0,
    decreases s.len(),
{
    if s.len() > 0 {
        lemma_constant(s.drop_last(), offset);
        assert(offset * s.len() == offset * (s.len() - 1) + offset) by (nonlinear_arith);
        let d = s.last() - offset;
        assert(s[s.len() - 1] == offset);
        assert(d * d == 0) by (nonlinear_arith)
            requires
                d == 0,
        ;
    }
}

} // verus!
