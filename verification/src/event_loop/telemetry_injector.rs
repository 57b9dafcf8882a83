//! Telemetry of the main loop: samples in a ring, and statistics over them.

use vstd::prelude::*;
use crate::base::clock::now_ns;
use crate::base::numbers::{numeral, parse_u64};
use crate::base::sequences::newest;
use crate::base::sorting::{ascending, lemma_ascending, sorted};
use crate::base::text::{has_prefix, split, split_on, split_words, starts_with, views, words};

verus! {

/// A sample of the loop's state.
#[derive(Debug, Clone, Copy, PartialEq, Eq, Structural)]
pub struct MetricSample {
    pub tick_id: u64,
    pub timestamp_ns: u64,
    pub latency_ns: u32,
    pub queue_depth: u16,
    pub memory_used_mb: u16,
    pub flags: u8,
    pub strategy_id: u8,
}

impl Default for MetricSample {
    fn default() -> (s: Self)
        ensures
            s == (MetricSample {
                tick_id: 0,
                timestamp_ns: 0,
                latency_ns: 0,
                queue_depth: 0,
                memory_used_mb: 0,
                flags: 0,
                strategy_id: 0,
            }),
    {
        MetricSample {
            tick_id: 0,
            timestamp_ns: 0,
            latency_ns: 0,
            queue_depth: 0,
            memory_used_mb: 0,
            flags: 0,
            strategy_id: 0,
        }
    }
}

/// A ring of samples. One place always stays free.
pub struct MetricRingBuffer {
    pub buffer: Vec<MetricSample>,
    /// Where the next sample goes.
    pub head: u64,
    /// Where the oldest sample stands.
    pub tail: u64,
    pub capacity: usize,
}

/// The place `i` steps behind `tail` in a ring of `n` places.
pub open spec fn ring_place(tail: int, i: int, n: int) -> int {
    if tail + i < n {
        tail + i
    } else {
        tail + i - n
    }
}

/// How many places lie between `tail` and `head` in a ring of `n` places.
pub open spec fn ring_len(head: int, tail: int, n: int) -> int {
    if head >= tail {
        head - tail
    } else {
        n - (tail - head)
    }
}

impl View for MetricRingBuffer {
    type V = Seq<MetricSample>;

    open spec fn view(&self) -> Seq<MetricSample> {
        Seq::new(
            ring_len(self.head as int, self.tail as int, self.capacity as int) as nat,
            |i: int| self.buffer@[ring_place(self.tail as int, i, self.capacity as int)],
        )
    }
}

impl MetricRingBuffer {
    /// Both ends lie in the ring, or at its start where it has no places.
    pub open spec fn wf(&self) -> bool {
        &&& self.buffer@.len() == self.capacity
        &&& self.head < self.capacity || self.head == 0
        &&& self.tail < self.capacity || self.tail == 0
    }

    /// An empty ring.
    pub fn new(capacity: usize) -> (b: Self)
        ensures
            b.wf(),
            b.capacity == capacity,
            b@ == Seq::<MetricSample>::empty(),
    {
        let mut buffer: Vec<MetricSample> = Vec::new();
        let mut i: usize = 0;
        while i < capacity
            invariant
                i <= capacity,
                buffer@.len() == i,
            decreases capacity - i,
        {
            buffer.push(MetricSample::default());
            i += 1;
        }
        let b = MetricRingBuffer { buffer, head: 0, tail: 0, capacity };
        assert(b@ =~= Seq::<MetricSample>::empty());
        b
    }

    /// Appends a sample; the oldest one leaves where there is no room.
    pub fn push(&mut self, sample: MetricSample) -> (r: bool)
        requires
            old(self).wf(),
            old(self).capacity > 0,
        ensures
            final(self).wf(),
            final(self).capacity == old(self).capacity,
            final(self)@ == newest(old(self)@.push(sample), (old(self).capacity - 1) as nat),
            r,
    {
        let cap: u64 = self.capacity as u64;
        let head: u64 = self.head;
        let next_head: u64 = if head + 1 == cap { 0 } else { head + 1 };
        if next_head == self.tail {
            self.tail = if self.tail + 1 == cap { 0 } else { self.tail + 1 };
        }
        self.buffer.set(head as usize, sample);
        self.head = next_head;
        assert(self@ =~= newest(old(self)@.push(sample), (old(self).capacity - 1) as nat));
        true
    }

    /// Takes all samples out, oldest first.
    pub fn read_samples(&mut self) -> (r: Vec<MetricSample>)
        requires
            old(self).wf(),
        ensures
            final(self).wf(),
            final(self).capacity == old(self).capacity,
            r@ == old(self)@,
            final(self)@ == Seq::<MetricSample>::empty(),
    {
        let cap: u64 = self.capacity as u64;
        let ghost all = self@;
        let ghost t0 = self.tail as int;
        let mut r: Vec<MetricSample> = Vec::new();
        let mut tail: u64 = self.tail;
        while tail != self.head
            invariant
                self.wf(),
                *self == *old(self),
                cap == self.capacity,
                tail < cap || tail == 0,
                all == self@,
                t0 == self.tail,
                r@.len() <= all.len(),
                tail == ring_place(t0, r@.len() as int, cap as int),
                r@ == all.take(r@.len() as int),
            decreases all.len() - r@.len(),
        {
            let ghost k = r@.len() as int;
            r.push(self.buffer[tail as usize]);
            tail = if tail + 1 == cap { 0 } else { tail + 1 };
            assert(k < all.len());
            assert(r@ =~= all.take(k + 1));
        }
        assert(r@.len() == all.len());
        assert(all.take(all.len() as int) =~= all);
        self.tail = tail;
        assert(self@ =~= Seq::<MetricSample>::empty());
        r
    }

    /// How many samples there are.
    pub fn fill_level(&self) -> (n: usize)
        requires
            self.wf(),
        ensures
            n == self@.len(),
            n < self.capacity || n == 0,
    {
        if self.head >= self.tail {
            (self.head - self.tail) as usize
        } else {
            self.capacity - (self.tail - self.head) as usize
        }
    }
}

/// Statistics over samples. Means and rates are ratios of these numbers.
#[derive(Debug, Clone, Copy, PartialEq, Eq, Structural)]
pub struct TelemetryStats {
    pub sample_count: u64,
    /// The sum of the latencies: the mean is this over the number of samples.
    pub latency_sum_ns: u128,
    pub min_latency_ns: u32,
    pub max_latency_ns: u32,
    pub p50_latency_ns: u32,
    pub p95_latency_ns: u32,
    pub p99_latency_ns: u32,
    /// Ticks since the start: the rate is this over the elapsed time.
    pub ticks: u64,
    pub elapsed_ns: u64,
    pub last_update_ns: u64,
}

impl Default for TelemetryStats {
    fn default() -> (s: Self)
        ensures
            s.sample_count == 0,
            s.latency_sum_ns == 0,
            s.min_latency_ns == 0,
            s.max_latency_ns == 0,
            s.p50_latency_ns == 0,
            s.p95_latency_ns == 0,
            s.p99_latency_ns == 0,
            s.ticks == 0,
            s.elapsed_ns == 0,
            s.last_update_ns == 0,
    {
        TelemetryStats {
            sample_count: 0,
            latency_sum_ns: 0,
            min_latency_ns: 0,
            max_latency_ns: 0,
            p50_latency_ns: 0,
            p95_latency_ns: 0,
            p99_latency_ns: 0,
            ticks: 0,
            elapsed_ns: 0,
            last_update_ns: 0,
        }
    }
}

/// The latencies of samples.
pub open spec fn latencies(samples: Seq<MetricSample>) -> Seq<i64> {
    Seq::new(samples.len(), |i: int| samples[i].latency_ns as i64)
}

/// The sum of the latencies.
pub open spec fn latency_sum(samples: Seq<MetricSample>) -> nat
    decreases samples.len(),
{
    if samples.len() == 0 {
        0
    } else {
        latency_sum(samples.drop_last()) + samples.last().latency_ns as nat
    }
}

/// The latency below which `percent` of a hundred samples lie.
pub open spec fn percentile(samples: Seq<MetricSample>, percent: int) -> int {
    ascending(latencies(samples))[samples.len() * percent / 100] as int
}

/// Whether statistics are what samples show at `now`.
pub open spec fn summarises(
    samples: Seq<MetricSample>,
    ticks: u64,
    start_ns: u64,
    now: u64,
    r: TelemetryStats,
) -> bool {
    let sorted = ascending(latencies(samples));
    &&& r.sample_count == samples.len()
    &&& r.latency_sum_ns == latency_sum(samples)
    &&& r.min_latency_ns == sorted[0]
    &&& r.max_latency_ns == sorted[sorted.len() - 1]
    &&& r.p50_latency_ns == sorted[samples.len() as int / 2]
    &&& r.p95_latency_ns == percentile(samples, 95)
    &&& r.p99_latency_ns == percentile(samples, 99)
    &&& r.ticks == ticks
    &&& r.elapsed_ns == (if now >= start_ns {
        now - start_ns
    } else {
        0
    })
    &&& r.last_update_ns == now
}

/// The percentiles of a set of samples rise from the smallest latency to the
/// largest.
pub proof fn law_percentiles_rise(
    samples: Seq<MetricSample>,
    ticks: u64,
    start_ns: u64,
    now: u64,
    r: TelemetryStats,
)
    requires
        samples.len() > 0,
        summarises(samples, ticks, start_ns, now, r),
    ensures
        r.min_latency_ns <= r.p50_latency_ns <= r.p95_latency_ns <= r.p99_latency_ns
            <= r.max_latency_ns,
{
    let s = latencies(samples);
    lemma_ascending(s);
    let n = samples.len() as int;
    assert(0 <= n / 2 <= n * 95 / 100 <= n * 99 / 100 <= n - 1);
}

/// Summarises samples that were taken until `now`.
pub fn summarise(samples: &Vec<MetricSample>, ticks: u64, start_ns: u64, now: u64) -> (r:
    TelemetryStats)
    requires
        samples@.len() > 0,
    ensures
        summarises(samples@, ticks, start_ns, now, r),
{
    let mut values: Vec<i64> = Vec::new();
    let mut sum: u128 = 0;
    let mut i: usize = 0;
    assert(samples@.take(0) =~= Seq::<MetricSample>::empty());
    while i < samples.len()
        invariant
            i <= samples@.len(),
            values@.len() == i,
            forall|k: int| 0 <= k < i ==> values@[k] == (#[trigger] samples@[k]).latency_ns,
            sum == latency_sum(samples@.take(i as int)),
            sum <= 0xffff_ffff * i,
        decreases samples@.len() - i,
    {
        assert(samples@.take(i + 1).drop_last() =~= samples@.take(i as int));
        values.push(samples[i].latency_ns as i64);
        sum = sum + samples[i].latency_ns as u128;
        i += 1;
    }
    assert(samples@.take(samples@.len() as int) =~= samples@);
    assert(values@ =~= latencies(samples@));
    let in_order = sorted(&values);
    proof {
        lemma_ascending(values@);
        assert forall|k: int| 0 <= k < in_order@.len() implies 0 <= #[trigger] in_order@[k]
            <= u32::MAX by {
            assert(values@.contains(in_order@[k]));
            let j = choose|j: int| 0 <= j < values@.len() && values@[j] == in_order@[k];
            assert(values@[j] == samples@[j].latency_ns);
        }
    }
    let n: usize = in_order.len();
    let p95: usize = (n as u128 * 95 / 100) as usize;
    let p99: usize = (n as u128 * 99 / 100) as usize;
    TelemetryStats {
        sample_count: n as u64,
        latency_sum_ns: sum,
        min_latency_ns: in_order[0] as u32,
        max_latency_ns: in_order[n - 1] as u32,
        p50_latency_ns: in_order[n / 2] as u32,
        p95_latency_ns: in_order[p95] as u32,
        p99_latency_ns: in_order[p99] as u32,
        ticks,
        elapsed_ns: now.saturating_sub(start_ns),
        last_update_ns: now,
    }
}

/// The resident memory that one line of a process status names, in kilobytes.
pub open spec fn resident_kb(line: Seq<char>) -> Option<nat> {
    if has_prefix(line, "VmRSS:"@) && words(line).len() >= 2 {
        numeral(words(line)[1], u64::MAX as nat)
    } else {
        None
    }
}

/// The resident memory, in megabytes, that the first line among some to name
/// any names; zero where none does.
pub open spec fn resident_mb(lines: Seq<Seq<char>>) -> nat
    decreases lines.len(),
{
    if lines.len() == 0 {
        0
    } else {
        match resident_kb(lines[0]) {
            Some(kb) => kb / 1024,
            None => resident_mb(lines.skip(1)),
        }
    }
}

/// The resident memory, in megabytes, that a process status names.
pub fn parse_memory_usage_mb(status: &str) -> (mb: u64)
    ensures
        mb == resident_mb(split_on(status@, '\n')),
{
    let lines = split(status, '\n');
    let ghost all = views(lines@);
    let mut i: usize = 0;
    assert(all.skip(0) =~= all);
    while i < lines.len()
        invariant
            i <= lines@.len(),
            all == views(lines@),
            all == split_on(status@, '\n'),
            resident_mb(all) == resident_mb(all.skip(i as int)),
        decreases lines@.len() - i,
    {
        let line = lines[i].as_str();
        proof {
            assert(all.skip(i as int)[0] == line@);
            assert(all.skip(i as int).skip(1) =~= all.skip(i + 1));
        }
        if starts_with(line, "VmRSS:") {
            let parts = split_words(line);
            if parts.len() >= 2 {
                assert(words(line@)[1] == parts@[1]@);
                if let Some(kb) = parse_u64(parts[1].as_str()) {
                    return kb / 1024;
                }
            }
        }
        i += 1;
    }
    0
}

/// Settings of the injector.
#[derive(Debug, Clone, Copy, PartialEq, Eq, Structural)]
pub struct TelemetryConfig {
    pub sample_interval_ticks: u64,
    pub buffer_capacity: usize,
    pub stats_interval_ms: u64,
    pub enable_memory_tracking: bool,
}

impl Default for TelemetryConfig {
    fn default() -> (c: Self)
        ensures
            c.sample_interval_ticks == 1000,
            c.buffer_capacity == 65536,
            c.stats_interval_ms == 1000,
            c.enable_memory_tracking,
    {
        TelemetryConfig {
            sample_interval_ticks: 1000,
            buffer_capacity: 65536,
            stats_interval_ms: 1000,
            enable_memory_tracking: true,
        }
    }
}

/// Samples the main loop.
pub struct TelemetryInjector {
    pub config: TelemetryConfig,
    pub ring_buffer: MetricRingBuffer,
    pub tick_counter: u64,
    pub total_latency_ns: u64,
    pub last_sample_tick: u64,
    pub is_running: bool,
    pub stats: TelemetryStats,
    pub start_time_ns: u64,
}

impl TelemetryInjector {
    /// The ring is sound.
    pub open spec fn wf(&self) -> bool {
        self.ring_buffer.wf()
    }

    /// Whether ticks can be recorded: they are sampled at some interval, and
    /// there is a place for the next sample where one is due.
    pub open spec fn can_record(&self) -> bool {
        self.config.sample_interval_ticks > 0 && (self.due() ==> self.ring_buffer.capacity > 0)
    }

    /// An injector without samples.
    pub fn new(config: TelemetryConfig) -> (t: Self)
        ensures
            t.wf(),
            t.config == config,
            t.ring_buffer@ == Seq::<MetricSample>::empty(),
            t.ring_buffer.capacity == config.buffer_capacity,
            t.tick_counter == 0,
            t.total_latency_ns == 0,
            t.last_sample_tick == 0,
            !t.is_running,
            t.stats == (TelemetryStats {
                sample_count: 0,
                latency_sum_ns: 0,
                min_latency_ns: 0,
                max_latency_ns: 0,
                p50_latency_ns: 0,
                p95_latency_ns: 0,
                p99_latency_ns: 0,
                ticks: 0,
                elapsed_ns: 0,
                last_update_ns: 0,
            }),
            t.start_time_ns == 0,
    {
        TelemetryInjector {
            config,
            ring_buffer: MetricRingBuffer::new(config.buffer_capacity),
            tick_counter: 0,
            total_latency_ns: 0,
            last_sample_tick: 0,
            is_running: false,
            stats: TelemetryStats::default(),
            start_time_ns: 0,
        }
    }

    /// Whether the next tick is sampled.
    pub open spec fn due(&self) -> bool {
        self.tick_counter % self.config.sample_interval_ticks == 0
    }

    /// The sample of the next tick, taken at `now`.
    pub open spec fn sample(
        &self,
        latency_ns: u32,
        queue_depth: u16,
        strategy_id: u8,
        memory_mb: u64,
        now: u64,
    ) -> MetricSample {
        MetricSample {
            tick_id: self.tick_counter,
            timestamp_ns: now,
            latency_ns,
            queue_depth,
            memory_used_mb: if self.config.enable_memory_tracking {
                memory_mb as u16
            } else {
                0
            },
            flags: 0,
            strategy_id,
        }
    }

    /// Whether the next tick is sampled: only then the memory in use matters.
    pub fn sample_due(&self) -> (r: bool)
        requires
            self.config.sample_interval_ticks > 0,
        ensures
            r == self.due(),
    {
        self.tick_counter % self.config.sample_interval_ticks == 0
    }

    /// Counts a tick at `now`, and samples it where it is due.
    pub fn record_tick_at(
        &mut self,
        latency_ns: u32,
        queue_depth: u16,
        strategy_id: u8,
        memory_mb: u64,
        now: u64,
    )
        requires
            old(self).wf(),
            old(self).can_record(),
        ensures
            final(self).wf(),
            final(self).config == old(self).config,
            final(self).tick_counter == old(self).tick_counter.wrapping_add(1),
            final(self).total_latency_ns == old(self).total_latency_ns.wrapping_add(
                latency_ns as u64,
            ),
            final(self).is_running == old(self).is_running,
            final(self).stats == old(self).stats,
            final(self).start_time_ns == old(self).start_time_ns,
            final(self).ring_buffer.capacity == old(self).ring_buffer.capacity,
            old(self).due() ==> final(self).last_sample_tick == old(self).tick_counter
                && final(self).ring_buffer@ == newest(
                old(self).ring_buffer@.push(
                    old(self).sample(latency_ns, queue_depth, strategy_id, memory_mb, now),
                ),
                (old(self).ring_buffer.capacity - 1) as nat,
            ),
            !old(self).due() ==> final(self).last_sample_tick == old(self).last_sample_tick
                && final(self).ring_buffer == old(self).ring_buffer,
    {
        let tick: u64 = self.tick_counter;
        self.tick_counter = tick.wrapping_add(1);
        self.total_latency_ns = self.total_latency_ns.wrapping_add(latency_ns as u64);
        if tick % self.config.sample_interval_ticks == 0 {
            let memory_used_mb: u16 = if self.config.enable_memory_tracking {
                memory_mb as u16
            } else {
                0
            };
            let _ = self.ring_buffer.push(
                MetricSample {
                    tick_id: tick,
                    timestamp_ns: now,
                    latency_ns,
                    queue_depth,
                    memory_used_mb,
                    flags: 0,
                    strategy_id,
                },
            );
            self.last_sample_tick = tick;
        }
    }

    /// Counts a tick, and samples it where it is due.
    pub fn record_tick(&mut self, latency_ns: u32, queue_depth: u16, strategy_id: u8, memory_mb: u64)
        requires
            old(self).wf(),
            old(self).can_record(),
        ensures
            final(self).wf(),
            final(self).config == old(self).config,
            final(self).tick_counter == old(self).tick_counter.wrapping_add(1),
            final(self).total_latency_ns == old(self).total_latency_ns.wrapping_add(
                latency_ns as u64,
            ),
            final(self).stats == old(self).stats,
            final(self).is_running == old(self).is_running,
            final(self).start_time_ns == old(self).start_time_ns,
            final(self).ring_buffer.capacity == old(self).ring_buffer.capacity,
            old(self).due() ==> final(self).last_sample_tick == old(self).tick_counter && exists|
                now: u64,
            |
                final(self).ring_buffer@ == newest(
                    old(self).ring_buffer@.push(
                        #[trigger] old(self).sample(
                            latency_ns,
                            queue_depth,
                            strategy_id,
                            memory_mb,
                            now,
                        ),
                    ),
                    (old(self).ring_buffer.capacity - 1) as nat,
                ),
            !old(self).due() ==> final(self).last_sample_tick == old(self).last_sample_tick
                && final(self).ring_buffer == old(self).ring_buffer,
    {
        let now: u64 = now_ns();
        self.record_tick_at(latency_ns, queue_depth, strategy_id, memory_mb, now);
    }

    /// Starts the statistics at `now`.
    pub fn start_stats_at(&mut self, now: u64)
        ensures
            *final(self) == (TelemetryInjector {
                is_running: true,
                start_time_ns: now,
                ..*old(self)
            }),
    {
        self.is_running = true;
        self.start_time_ns = now;
    }

    /// Takes the samples out of the ring and renews the statistics at `now`.
    /// Without samples the statistics stay. Tells whether they were renewed.
    pub fn update_stats_at(&mut self, now: u64) -> (renewed: bool)
        requires
            old(self).wf(),
        ensures
            final(self).wf(),
            renewed == (old(self).ring_buffer@.len() > 0),
            final(self).ring_buffer@ == Seq::<MetricSample>::empty(),
            final(self).ring_buffer.capacity == old(self).ring_buffer.capacity,
            renewed ==> summarises(
                old(self).ring_buffer@,
                old(self).tick_counter,
                old(self).start_time_ns,
                now,
                final(self).stats,
            ),
            !renewed ==> final(self).stats == old(self).stats,
            *final(self) == (TelemetryInjector {
                ring_buffer: final(self).ring_buffer,
                stats: final(self).stats,
                ..*old(self)
            }),
    {
        let samples = self.ring_buffer.read_samples();
        if samples.len() == 0 {
            return false;
        }
        self.stats = summarise(&samples, self.tick_counter, self.start_time_ns, now);
        true
    }

    /// The current statistics.
    pub fn get_stats(&self) -> (r: TelemetryStats)
        ensures
            r == self.stats,
    {
        self.stats
    }

    /// The ring of samples.
    pub fn get_ring_buffer(&self) -> (r: &MetricRingBuffer)
        ensures
            *r == self.ring_buffer,
    {
        &self.ring_buffer
    }

    /// Ends the statistics.
    pub fn stop(&mut self)
        ensures
            *final(self) == (TelemetryInjector { is_running: false, ..*old(self) }),
    {
        self.is_running = false;
    }
}

impl Default for TelemetryInjector {
    fn default() -> (t: Self)
        ensures
            t.wf(),
            t.config == (TelemetryConfig {
                sample_interval_ticks: 1000,
                buffer_capacity: 65536,
                stats_interval_ms: 1000,
                enable_memory_tracking: true,
            }),
            t.can_record(),
            t.tick_counter == 0,
            t.total_latency_ns == 0,
            t.last_sample_tick == 0,
            t.stats.sample_count == 0,
            t.start_time_ns == 0,
            t.ring_buffer@ == Seq::<MetricSample>::empty(),
            t.ring_buffer.capacity == 65536,
            !t.is_running,
    {
        TelemetryInjector::new(TelemetryConfig::default())
    }
}

} // verus!
