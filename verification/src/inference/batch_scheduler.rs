//! A scheduler that groups tick events into batches, urgent events first,
//! within a latency budget.

use std::collections::VecDeque;
use vstd::prelude::*;
use crate::base::clock::now_ns;
use crate::base::text::views;

verus! {

/// Settings of the scheduler.
#[derive(Debug, Clone, Copy, PartialEq, Eq, Structural)]
pub struct BatchSchedulerConfig {
    pub target_batch_size: usize,
    /// From this many events on a batch is made at once.
    pub min_batch_size: usize,
    /// The latency budget.
    pub max_wait_time_ms: u64,
    /// From this many events on the oldest one is dropped.
    pub max_queue_size: usize,
    pub dynamic_batch_sizing: bool,
    pub min_batch_interval_ms: u64,
}

impl Default for BatchSchedulerConfig {
    fn default() -> (c: Self)
        ensures
            c.target_batch_size == 32,
            c.min_batch_size == 8,
            c.max_wait_time_ms == 1,
            c.max_queue_size == 1024,
            c.dynamic_batch_sizing,
            c.min_batch_interval_ms == 0,
    {
        BatchSchedulerConfig {
            target_batch_size: 32,
            min_batch_size: 8,
            max_wait_time_ms: 1,
            max_queue_size: 1024,
            dynamic_batch_sizing: true,
            min_batch_interval_ms: 0,
        }
    }
}

/// Whole milliseconds between two times in nanoseconds; none where the second
/// is not later.
pub open spec fn elapsed_ms(from: u64, to: u64) -> nat {
    if to >= from {
        ((to - from) / 1_000_000) as nat
    } else {
        0
    }
}

fn milliseconds_between(from: u64, to: u64) -> (ms: u64)
    ensures
        ms == elapsed_ms(from, to),
{
    to.saturating_sub(from) / 1_000_000
}

/// A tick event that waits for a batch.
#[derive(Debug, Clone)]
pub struct TickEvent<D> {
    /// When the event was made, in nanoseconds.
    pub timestamp_ns: u64,
    pub symbol: String,
    pub data: Vec<D>,
    /// The higher, the more urgent.
    pub priority: u8,
    pub correlation_id: u64,
}

impl<D> TickEvent<D> {
    /// An event made at `now`.
    pub fn new_at(symbol: &str, data: Vec<D>, priority: u8, now: u64) -> (e: Self)
        ensures
            e.timestamp_ns == now,
            e.symbol@ == symbol@,
            e.data == data,
            e.priority == priority,
            e.correlation_id == 0,
    {
        TickEvent {
            timestamp_ns: now,
            symbol: symbol.to_owned(),
            data,
            priority,
            correlation_id: 0,
        }
    }

    /// An event made now.
    pub fn new(symbol: &str, data: Vec<D>, priority: u8) -> (e: Self)
        ensures
            e.symbol@ == symbol@,
            e.data == data,
            e.priority == priority,
            e.correlation_id == 0,
    {
        TickEvent::new_at(symbol, data, priority, now_ns())
    }

    /// Whether the event is older than `max_age_ms` at `now`.
    pub open spec fn stale_at(&self, max_age_ms: u64, now: u64) -> bool {
        elapsed_ms(self.timestamp_ns, now) > max_age_ms
    }

    /// Whether the event is older than `max_age_ms` at `now`.
    pub fn is_stale_at(&self, max_age_ms: u64, now: u64) -> (r: bool)
        ensures
            r == self.stale_at(max_age_ms, now),
    {
        milliseconds_between(self.timestamp_ns, now) > max_age_ms
    }

    /// Whether the event is older than `max_age_ms`.
    pub fn is_stale(&self, max_age_ms: u64) -> (r: bool)
        ensures
            exists|now: u64| r == #[trigger] self.stale_at(max_age_ms, now),
    {
        let now: u64 = now_ns();
        self.is_stale_at(max_age_ms, now)
    }
}

/// A batch of events.
#[derive(Debug, Clone)]
pub struct TickBatch<D> {
    pub events: Vec<TickEvent<D>>,
    /// When the batch was made, in nanoseconds.
    pub created_at_ns: u64,
    pub batch_id: u64,
    /// The symbols of the events.
    pub symbols: Vec<String>,
}

/// The symbols of events.
pub open spec fn event_symbols<D>(s: Seq<TickEvent<D>>) -> Seq<Seq<char>> {
    Seq::new(s.len(), |i: int| s[i].symbol@)
}

/// The age of the oldest of events at `now`, in milliseconds.
pub open spec fn oldest_age<D>(s: Seq<TickEvent<D>>, now: u64) -> nat
    decreases s.len(),
{
    if s.len() == 0 {
        0
    } else {
        let rest = oldest_age(s.drop_last(), now);
        let age = elapsed_ms(s.last().timestamp_ns, now);
        if age > rest {
            age
        } else {
            rest
        }
    }
}

/// No event of a batch is older than the oldest, and one is as old.
pub proof fn law_oldest_age<D>(s: Seq<TickEvent<D>>, now: u64)
    ensures
        forall|i: int|
            0 <= i < s.len() ==> elapsed_ms((#[trigger] s[i]).timestamp_ns, now) <= oldest_age(
                s,
                now,
            ),
        s.len() > 0 ==> exists|i: int|
            0 <= i < s.len() && elapsed_ms((#[trigger] s[i]).timestamp_ns, now) == oldest_age(
                s,
                now,
            ),
    decreases s.len(),
{
    if s.len() > 0 {
        let rest = s.drop_last();
        law_oldest_age(rest, now);
        assert forall|i: int| 0 <= i < s.len() implies elapsed_ms(
            (#[trigger] s[i]).timestamp_ns,
            now,
        ) <= oldest_age(s, now) by {
            if i < rest.len() {
                assert(rest[i] == s[i]);
            }
        }
        if elapsed_ms(s.last().timestamp_ns, now) > oldest_age(rest, now) || rest.len() == 0 {
            assert(elapsed_ms(s[s.len() - 1].timestamp_ns, now) == oldest_age(s, now));
        } else {
            let i = choose|i: int|
                0 <= i < rest.len() && elapsed_ms((#[trigger] rest[i]).timestamp_ns, now)
                    == oldest_age(rest, now);
            assert(s[i] == rest[i]);
        }
    }
}

impl<D> TickBatch<D> {
    /// A batch made at `now`.
    pub fn new_at(events: Vec<TickEvent<D>>, batch_id: u64, now: u64) -> (b: Self)
        ensures
            b.events == events,
            b.created_at_ns == now,
            b.batch_id == batch_id,
            views(b.symbols@) == event_symbols(events@),
    {
        let mut symbols: Vec<String> = Vec::new();
        let mut i: usize = 0;
        while i < events.len()
            invariant
                i <= events@.len(),
                symbols@.len() == i,
                forall|k: int| 0 <= k < i ==> (#[trigger] symbols@[k])@ == events@[k].symbol@,
            decreases events@.len() - i,
        {
            symbols.push(events[i].symbol.clone());
            i += 1;
        }
        assert(views(symbols@) =~= event_symbols(events@));
        TickBatch { events, created_at_ns: now, batch_id, symbols }
    }

    /// A batch made now.
    pub fn new(events: Vec<TickEvent<D>>, batch_id: u64) -> (b: Self)
        ensures
            b.events == events,
            b.batch_id == batch_id,
            views(b.symbols@) == event_symbols(events@),
    {
        TickBatch::new_at(events, batch_id, now_ns())
    }

    /// The age of the oldest event at `now`, in milliseconds.
    pub open spec fn age_at(&self, now: u64) -> nat {
        oldest_age(self.events@, now)
    }

    /// The age of the oldest event at `now`, in milliseconds; zero without
    /// events.
    pub fn oldest_event_age_ms_at(&self, now: u64) -> (ms: u64)
        ensures
            ms == self.age_at(now),
    {
        let ghost all = self.events@;
        let mut oldest: u64 = 0;
        let mut i: usize = 0;
        assert(all.take(0) =~= Seq::empty());
        while i < self.events.len()
            invariant
                i <= all.len(),
                all == self.events@,
                oldest == oldest_age(all.take(i as int), now),
            decreases all.len() - i,
        {
            assert(all.take(i + 1).drop_last() =~= all.take(i as int));
            let age: u64 = milliseconds_between(self.events[i].timestamp_ns, now);
            if age > oldest {
                oldest = age;
            }
            i += 1;
        }
        assert(all.take(all.len() as int) =~= all);
        oldest
    }

    /// The age of the oldest event, in milliseconds.
    pub fn oldest_event_age_ms(&self) -> (ms: u64)
        ensures
            exists|now: u64| ms == #[trigger] self.age_at(now),
    {
        let now: u64 = now_ns();
        self.oldest_event_age_ms_at(now)
    }
}

/// Counters of the scheduler. Mean batch size and mean latency are ratios of
/// these numbers.
#[derive(Debug, Clone, Copy, PartialEq, Eq, Structural)]
pub struct SchedulerStats {
    pub total_events_received: u64,
    pub total_batches_created: u64,
    pub total_events_dropped: u64,
    /// Events in all batches.
    pub batched_events: u128,
    /// The latencies of all batches together.
    pub latency_sum_ms: u128,
    pub max_latency_ms: u64,
    pub current_queue_depth: usize,
}

impl Default for SchedulerStats {
    fn default() -> (s: Self)
        ensures
            s.total_events_received == 0,
            s.total_batches_created == 0,
            s.total_events_dropped == 0,
            s.batched_events == 0,
            s.latency_sum_ms == 0,
            s.max_latency_ms == 0,
            s.current_queue_depth == 0,
    {
        SchedulerStats {
            total_events_received: 0,
            total_batches_created: 0,
            total_events_dropped: 0,
            batched_events: 0,
            latency_sum_ms: 0,
            max_latency_ms: 0,
            current_queue_depth: 0,
        }
    }
}

/// Events from this priority on are urgent.
pub const URGENT_PRIORITY: u8 = 5;

/// The largest target that can be set.
pub const MAX_TARGET: usize = 128;

/// A queue once an event is appended, where `limit` events are enough.
pub open spec fn enqueued<D>(q: Seq<TickEvent<D>>, e: TickEvent<D>, limit: usize) -> Seq<
    TickEvent<D>,
> {
    if q.len() >= limit && q.len() > 0 {
        q.skip(1).push(e)
    } else {
        q.push(e)
    }
}

/// Whether the last batch is too recent for another one at `now`.
pub open spec fn throttled(last: Option<u64>, config: BatchSchedulerConfig, now: u64) -> bool {
    last is Some && config.min_batch_interval_ms > 0 && elapsed_ms(last->0, now)
        < config.min_batch_interval_ms
}

/// Whether there is reason for a batch at `now`: enough events, an urgent
/// event over its budget, or the oldest other one over it.
pub open spec fn batch_wanted<D>(
    eq: Seq<TickEvent<D>>,
    pq: Seq<TickEvent<D>>,
    config: BatchSchedulerConfig,
    target: usize,
    now: u64,
) -> bool {
    ||| eq.len() + pq.len() >= config.min_batch_size
    ||| eq.len() + pq.len() >= target
    ||| exists|i: int|
        0 <= i < pq.len() && (#[trigger] pq[i]).stale_at(config.max_wait_time_ms, now)
    ||| eq.len() > 0 && eq[0].stale_at(config.max_wait_time_ms, now)
}

/// Whether a batch is made at `now`.
pub open spec fn batch_due<D>(
    eq: Seq<TickEvent<D>>,
    pq: Seq<TickEvent<D>>,
    config: BatchSchedulerConfig,
    last: Option<u64>,
    target: usize,
    now: u64,
) -> bool {
    &&& !throttled(last, config, now)
    &&& eq.len() + pq.len() > 0
    &&& target > 0
    &&& batch_wanted(eq, pq, config, target, now)
}

/// How many of `n` events fit where there is room for `room`.
pub open spec fn fitting(n: nat, room: int) -> int {
    if n <= room {
        n as int
    } else {
        room
    }
}

/// The events of a batch: urgent ones first, then others, up to the target.
pub open spec fn batch_events<D>(
    eq: Seq<TickEvent<D>>,
    pq: Seq<TickEvent<D>>,
    target: usize,
) -> Seq<TickEvent<D>> {
    let urgent = fitting(pq.len(), target as int);
    pq.take(urgent) + eq.take(fitting(eq.len(), target - urgent))
}

/// The urgent events that stay behind.
pub open spec fn urgent_left<D>(pq: Seq<TickEvent<D>>, target: usize) -> Seq<TickEvent<D>> {
    pq.skip(fitting(pq.len(), target as int))
}

/// The other events that stay behind.
pub open spec fn others_left<D>(
    eq: Seq<TickEvent<D>>,
    pq: Seq<TickEvent<D>>,
    target: usize,
) -> Seq<TickEvent<D>> {
    eq.skip(fitting(eq.len(), target - fitting(pq.len(), target as int)))
}

/// A batch is no larger than its target, and it and what stays behind are the
/// urgent events followed by the others, in their order.
pub proof fn law_batch_loses_nothing<D>(
    eq: Seq<TickEvent<D>>,
    pq: Seq<TickEvent<D>>,
    target: usize,
)
    ensures
        batch_events(eq, pq, target).len() <= target,
        batch_events(eq, pq, target) + urgent_left(pq, target) + others_left(eq, pq, target) == pq
            + eq,
{
    assert(batch_events(eq, pq, target) + urgent_left(pq, target) + others_left(eq, pq, target)
        =~= pq + eq);
}

/// Makes batches of tick events.
pub struct BatchScheduler<D> {
    pub config: BatchSchedulerConfig,
    pub is_running: bool,
    pub batch_counter: usize,
    pub event_queue: VecDeque<TickEvent<D>>,
    pub priority_queue: VecDeque<TickEvent<D>>,
    pub stats: SchedulerStats,
    /// When the last batch was made, in nanoseconds.
    pub last_batch_ns: Option<u64>,
    pub current_target_batch: usize,
}

impl<D> BatchScheduler<D> {
    /// A scheduler that is not running.
    pub fn new(config: BatchSchedulerConfig) -> (s: Self)
        ensures
            s.config == config,
            !s.is_running,
            s.batch_counter == 0,
            s.event_queue@.len() == 0,
            s.priority_queue@.len() == 0,
            s.stats.total_events_received == 0,
            s.stats.total_batches_created == 0,
            s.stats.total_events_dropped == 0,
            s.stats.batched_events == 0,
            s.stats.latency_sum_ms == 0,
            s.stats.max_latency_ms == 0,
            s.stats.current_queue_depth == 0,
            s.last_batch_ns is None,
            s.current_target_batch == config.target_batch_size,
    {
        BatchScheduler {
            config,
            is_running: false,
            batch_counter: 0,
            event_queue: VecDeque::with_capacity(config.max_queue_size),
            priority_queue: VecDeque::with_capacity(config.max_queue_size / 4),
            stats: SchedulerStats::default(),
            last_batch_ns: None,
            current_target_batch: config.target_batch_size,
        }
    }

    /// Whether this is what a scheduler becomes with an event: an urgent one
    /// waits apart, in a quarter of the room.
    pub open spec fn took(&self, before: Self, event: TickEvent<D>) -> bool {
        let urgent = event.priority >= URGENT_PRIORITY;
        let limit = if urgent {
            before.config.max_queue_size / 4
        } else {
            before.config.max_queue_size
        };
        let full = if urgent {
            before.priority_queue@.len() >= limit
        } else {
            before.event_queue@.len() >= limit
        };
        &&& self.priority_queue@ == (if urgent {
            enqueued(before.priority_queue@, event, limit)
        } else {
            before.priority_queue@
        })
        &&& self.event_queue@ == (if urgent {
            before.event_queue@
        } else {
            enqueued(before.event_queue@, event, limit)
        })
        &&& self.stats == (SchedulerStats {
            total_events_received: (before.stats.total_events_received + 1) as u64,
            total_events_dropped: if full {
                (before.stats.total_events_dropped + 1) as u64
            } else {
                before.stats.total_events_dropped
            },
            ..before.stats
        })
        &&& *self == (BatchScheduler {
            event_queue: self.event_queue,
            priority_queue: self.priority_queue,
            stats: self.stats,
            ..before
        })
    }

    /// A target brought between the least batch and the largest.
    pub open spec fn allowed_target(&self, target: usize) -> usize {
        if target < self.config.min_batch_size {
            self.config.min_batch_size
        } else if target > MAX_TARGET {
            MAX_TARGET
        } else {
            target
        }
    }

    /// Submits an event. Refused while the scheduler is not running. A full
    /// queue drops its oldest event.
    pub fn submit(&mut self, event: TickEvent<D>) -> (r: Result<(), &'static str>)
        requires
            old(self).stats.total_events_received < u64::MAX,
            old(self).stats.total_events_dropped < u64::MAX,
        ensures
            !old(self).is_running ==> *final(self) == *old(self) && r is Err && r->Err_0@
                == "Scheduler not running"@,
            old(self).is_running ==> r is Ok && final(self).took(*old(self), event),
    {
        if !self.is_running {
            return Err("Scheduler not running");
        }
        self.stats.total_events_received = self.stats.total_events_received + 1;
        if event.priority >= URGENT_PRIORITY {
            let limit: usize = self.config.max_queue_size / 4;
            if self.priority_queue.len() >= limit {
                let ghost q = self.priority_queue@;
                let _ = self.priority_queue.pop_front();
                assert(q.len() > 0 ==> self.priority_queue@ =~= q.skip(1));
                self.stats.total_events_dropped = self.stats.total_events_dropped + 1;
            }
            self.priority_queue.push_back(event);
        } else {
            let limit: usize = self.config.max_queue_size;
            if self.event_queue.len() >= limit {
                let ghost q = self.event_queue@;
                let _ = self.event_queue.pop_front();
                assert(q.len() > 0 ==> self.event_queue@ =~= q.skip(1));
                self.stats.total_events_dropped = self.stats.total_events_dropped + 1;
            }
            self.event_queue.push_back(event);
        }
        Ok(())
    }

    /// Starts the scheduler.
    pub fn start(&mut self)
        ensures
            *final(self) == (BatchScheduler { is_running: true, ..*old(self) }),
    {
        self.is_running = true;
    }

    fn move_front(from: &mut VecDeque<TickEvent<D>>, to: &mut Vec<TickEvent<D>>, target: usize)
        requires
            old(to)@.len() <= target,
        ensures
            final(to)@ == old(to)@ + old(from)@.take(
                fitting(old(from)@.len(), target - old(to)@.len()),
            ),
            final(from)@ == old(from)@.skip(fitting(old(from)@.len(), target - old(to)@.len())),
    {
        let ghost all = from@;
        let ghost start = to@;
        let ghost n = fitting(all.len(), target - start.len());
        assert(all.skip(0) =~= all);
        assert(start + all.take(0) =~= start);
        while to.len() < target && from.len() > 0
            invariant
                start.len() <= to@.len() <= target,
                to@.len() - start.len() <= all.len(),
                from@ == all.skip(to@.len() - start.len()),
                to@ == start + all.take(to@.len() - start.len()),
            decreases from@.len(),
        {
            let ghost k = to@.len() - start.len();
            let ghost q = from@;
            match from.pop_front() {
                Some(e) => {
                    to.push(e);
                    proof {
                        assert(e == all[k]);
                        assert(from@ =~= all.skip(k + 1));
                        assert(to@ =~= start + all.take(k + 1));
                    }
                },
                None => {
                    assert(false);
                },
            }
        }
        assert(to@.len() - start.len() == n);
    }

    /// Makes a batch at `now`, where one is due.
    pub fn try_create_batch(
        event_queue: &mut VecDeque<TickEvent<D>>,
        priority_queue: &mut VecDeque<TickEvent<D>>,
        config: &BatchSchedulerConfig,
        last_batch_ns: Option<u64>,
        target_batch: usize,
        now: u64,
    ) -> (r: Option<TickBatch<D>>)
        requires
            old(event_queue)@.len() + old(priority_queue)@.len() <= usize::MAX,
        ensures
            r is Some <==> batch_due(
                old(event_queue)@,
                old(priority_queue)@,
                *config,
                last_batch_ns,
                target_batch,
                now,
            ),
            r matches Some(b) ==> {
                &&& b.events@ == batch_events(
                    old(event_queue)@,
                    old(priority_queue)@,
                    target_batch,
                )
                &&& b.events@.len() > 0
                &&& views(b.symbols@) == event_symbols(b.events@)
                &&& b.batch_id == 0
                &&& b.created_at_ns == now
                &&& final(priority_queue)@ == urgent_left(old(priority_queue)@, target_batch)
                &&& final(event_queue)@ == others_left(
                    old(event_queue)@,
                    old(priority_queue)@,
                    target_batch,
                )
            },
            r is None ==> final(event_queue)@ == old(event_queue)@ && final(priority_queue)@ == old(
                priority_queue,
            )@,
    {
        if let Some(last) = last_batch_ns {
            if config.min_batch_interval_ms > 0 {
                if milliseconds_between(last, now) < config.min_batch_interval_ms {
                    return None;
                }
            }
        }
        let total: usize = event_queue.len() + priority_queue.len();
        if total == 0 {
            return None;
        }
        let mut wanted: bool = total >= config.min_batch_size || total >= target_batch;
        if !wanted {
            let mut i: usize = 0;
            while i < priority_queue.len() && !wanted
                invariant
                    i <= priority_queue@.len(),
                    wanted ==> exists|k: int|
                        0 <= k < priority_queue@.len() && (
                        #[trigger] priority_queue@[k]).stale_at(config.max_wait_time_ms, now),
                    !wanted ==> forall|k: int|
                        0 <= k < i ==> !(#[trigger] priority_queue@[k]).stale_at(
                            config.max_wait_time_ms,
                            now,
                        ),
                decreases priority_queue@.len() - i,
            {
                if priority_queue[i].is_stale_at(config.max_wait_time_ms, now) {
                    assert(priority_queue@[i as int].stale_at(config.max_wait_time_ms, now));
                    wanted = true;
                }
                i += 1;
            }
        }
        if !wanted && event_queue.len() > 0 {
            wanted = event_queue[0].is_stale_at(config.max_wait_time_ms, now);
        }
        if !wanted {
            return None;
        }
        if target_batch == 0 {
            return None;
        }
        let mut events: Vec<TickEvent<D>> = Vec::new();
        let ghost eq = event_queue@;
        let ghost pq = priority_queue@;
        Self::move_front(priority_queue, &mut events, target_batch);
        assert(events@ =~= pq.take(fitting(pq.len(), target_batch as int)));
        Self::move_front(event_queue, &mut events, target_batch);
        assert(events@ =~= batch_events(eq, pq, target_batch));
        Some(TickBatch::new_at(events, 0, now))
    }

    /// One turn of the scheduler at `now`: makes a batch where one is due, and
    /// counts it.
    pub fn step_at(&mut self, now: u64) -> (r: Option<TickBatch<D>>)
        requires
            old(self).event_queue@.len() + old(self).priority_queue@.len() <= usize::MAX,
            old(self).stats.total_batches_created < u64::MAX,
            old(self).batch_counter < usize::MAX,
            old(self).stats.batched_events + usize::MAX <= u128::MAX,
            old(self).stats.latency_sum_ms + u64::MAX <= u128::MAX,
        ensures
            r is Some <==> batch_due(
                old(self).event_queue@,
                old(self).priority_queue@,
                old(self).config,
                old(self).last_batch_ns,
                old(self).current_target_batch,
                now,
            ),
            r matches Some(b) ==> {
                &&& b.events@ == batch_events(
                    old(self).event_queue@,
                    old(self).priority_queue@,
                    old(self).current_target_batch,
                )
                &&& final(self).priority_queue@ == urgent_left(
                    old(self).priority_queue@,
                    old(self).current_target_batch,
                )
                &&& final(self).event_queue@ == others_left(
                    old(self).event_queue@,
                    old(self).priority_queue@,
                    old(self).current_target_batch,
                )
                &&& final(self).last_batch_ns == Some(now)
                &&& final(self).batch_counter == old(self).batch_counter + 1
                &&& final(self).stats == (SchedulerStats {
                    total_batches_created: (old(self).stats.total_batches_created + 1) as u64,
                    batched_events: (old(self).stats.batched_events + b.events@.len()) as u128,
                    latency_sum_ms: (old(self).stats.latency_sum_ms + b.age_at(now)) as u128,
                    max_latency_ms: if b.age_at(now) > old(self).stats.max_latency_ms {
                        b.age_at(now) as u64
                    } else {
                        old(self).stats.max_latency_ms
                    },
                    ..old(self).stats
                })
            },
            r is None ==> final(self).event_queue@ == old(self).event_queue@ && final(
                self).priority_queue@ == old(self).priority_queue@ && final(self).last_batch_ns
                == old(self).last_batch_ns && final(self).batch_counter == old(self).batch_counter
                && final(self).stats == old(self).stats,
            final(self).config == old(self).config,
            final(self).is_running == old(self).is_running,
            final(self).current_target_batch == old(self).current_target_batch,
    {
        let config = self.config;
        let r = Self::try_create_batch(
            &mut self.event_queue,
            &mut self.priority_queue,
            &config,
            self.last_batch_ns,
            self.current_target_batch,
            now,
        );
        if let Some(batch) = &r {
            self.last_batch_ns = Some(now);
            self.stats.total_batches_created = self.stats.total_batches_created + 1;
            let size: usize = batch.events.len();
            self.stats.batched_events = self.stats.batched_events + size as u128;
            let latency: u64 = batch.oldest_event_age_ms_at(now);
            self.stats.latency_sum_ms = self.stats.latency_sum_ms + latency as u128;
            if latency > self.stats.max_latency_ms {
                self.stats.max_latency_ms = latency;
            }
            self.batch_counter = self.batch_counter + 1;
        }
        r
    }

    /// Takes note of how many events wait.
    pub fn update_queue_depth(&mut self)
        requires
            old(self).event_queue@.len() + old(self).priority_queue@.len() <= usize::MAX,
        ensures
            *final(self) == (BatchScheduler {
                stats: (SchedulerStats {
                    current_queue_depth: (old(self).event_queue@.len() + old(
                        self,
                    ).priority_queue@.len()) as usize,
                    ..old(self).stats
                }),
                ..*old(self)
            }),
    {
        self.stats.current_queue_depth = self.event_queue.len() + self.priority_queue.len();
    }

    /// Whether the scheduler's loop goes on: as long as events wait.
    pub fn has_work(&self) -> (r: bool)
        ensures
            r == (self.event_queue@.len() > 0 || self.priority_queue@.len() > 0),
    {
        self.event_queue.len() > 0 || self.priority_queue.len() > 0
    }

    /// Stops the scheduler.
    pub fn stop(&mut self)
        ensures
            *final(self) == (BatchScheduler { is_running: false, ..*old(self) }),
    {
        self.is_running = false;
    }

    /// Whether the scheduler is running.
    pub fn is_running(&self) -> (r: bool)
        ensures
            r == self.is_running,
    {
        self.is_running
    }

    /// The scheduler's counters.
    pub fn get_stats(&self) -> (r: SchedulerStats)
        ensures
            r == self.stats,
    {
        self.stats
    }

    /// Sets the target, between the minimum and the largest target.
    pub fn adjust_batch_size(&mut self, new_target: usize)
        requires
            old(self).config.min_batch_size <= MAX_TARGET,
        ensures
            *final(self) == (BatchScheduler {
                current_target_batch: old(self).allowed_target(new_target),
                ..*old(self)
            }),
    {
        self.current_target_batch =
        if new_target < self.config.min_batch_size {
            self.config.min_batch_size
        } else if new_target > MAX_TARGET {
            MAX_TARGET
        } else {
            new_target
        };
    }

    /// Forgets all events that wait.
    pub fn clear(&mut self)
        ensures
            final(self).event_queue@.len() == 0,
            final(self).priority_queue@.len() == 0,
            *final(self) == (BatchScheduler {
                event_queue: final(self).event_queue,
                priority_queue: final(self).priority_queue,
                ..*old(self)
            }),
    {
        self.event_queue.clear();
        self.priority_queue.clear();
    }
}

/// Makes schedulers.
pub struct BatchSchedulerBuilder {
    pub config: BatchSchedulerConfig,
}

impl BatchSchedulerBuilder {
    /// A builder with default settings.
    pub fn new() -> (b: Self)
        ensures
            b.config.target_batch_size == 32,
            b.config.min_batch_size == 8,
            b.config.max_wait_time_ms == 1,
            b.config.max_queue_size == 1024,
            b.config.dynamic_batch_sizing,
            b.config.min_batch_interval_ms == 0,
    {
        BatchSchedulerBuilder { config: BatchSchedulerConfig::default() }
    }

    /// Sets the target size.
    pub fn target_batch_size(self, size: usize) -> (b: Self)
        ensures
            b.config == (BatchSchedulerConfig { target_batch_size: size, ..self.config }),
    {
        let mut b = self;
        b.config.target_batch_size = size;
        b
    }

    /// Sets the minimum size.
    pub fn min_batch_size(self, size: usize) -> (b: Self)
        ensures
            b.config == (BatchSchedulerConfig { min_batch_size: size, ..self.config }),
    {
        let mut b = self;
        b.config.min_batch_size = size;
        b
    }

    /// Sets the latency budget.
    pub fn max_wait_time_ms(self, ms: u64) -> (b: Self)
        ensures
            b.config == (BatchSchedulerConfig { max_wait_time_ms: ms, ..self.config }),
    {
        let mut b = self;
        b.config.max_wait_time_ms = ms;
        b
    }

    /// Sets the size of the queues.
    pub fn max_queue_size(self, size: usize) -> (b: Self)
        ensures
            b.config == (BatchSchedulerConfig { max_queue_size: size, ..self.config }),
    {
        let mut b = self;
        b.config.max_queue_size = size;
        b
    }

    /// Sets the time between batches.
    pub fn min_batch_interval_ms(self, ms: u64) -> (b: Self)
        ensures
            b.config == (BatchSchedulerConfig { min_batch_interval_ms: ms, ..self.config }),
    {
        let mut b = self;
        b.config.min_batch_interval_ms = ms;
        b
    }

    /// Makes the scheduler.
    pub fn build<D>(self) -> (s: BatchScheduler<D>)
        ensures
            s.config == self.config,
            !s.is_running,
            s.batch_counter == 0,
            s.stats == (SchedulerStats {
                total_events_received: 0,
                total_batches_created: 0,
                total_events_dropped: 0,
                batched_events: 0,
                latency_sum_ms: 0,
                max_latency_ms: 0,
                current_queue_depth: 0,
            }),
            s.last_batch_ns is None,
            s.event_queue@.len() == 0,
            s.priority_queue@.len() == 0,
            s.current_target_batch == self.config.target_batch_size,
    {
        BatchScheduler::new(self.config)
    }
}

} // verus!
