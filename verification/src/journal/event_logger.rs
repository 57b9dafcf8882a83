//! Trade events in a ring, a writer that batches them, and a tracker of each
//! order's stages.

use vstd::prelude::*;
use crate::base::amount::Amount;
use crate::base::numbers::{divide_wide, ratio, ratio_of, saturate, saturated, truncated_div};
use crate::base::clock;

verus! {

/// Stages of an order's life.
#[derive(Debug, Clone, Copy, PartialEq, Eq, Structural)]
pub enum OrderStage {
    Signal,
    PreRisk,
    Routing,
    Ack,
    Partial,
    Filled,
    Cancelled,
    Settlement,
}

impl OrderStage {
    /// The number of a stage.
    pub open spec fn number(self) -> u32 {
        match self {
            OrderStage::Signal => 0,
            OrderStage::PreRisk => 1,
            OrderStage::Routing => 2,
            OrderStage::Ack => 3,
            OrderStage::Partial => 4,
            OrderStage::Filled => 5,
            OrderStage::Cancelled => 6,
            OrderStage::Settlement => 7,
        }
    }

    /// The number of this stage.
    pub fn to_number(self) -> (n: u32)
        ensures
            n == self.number(),
            n < 8,
    {
        match self {
            OrderStage::Signal => 0,
            OrderStage::PreRisk => 1,
            OrderStage::Routing => 2,
            OrderStage::Ack => 3,
            OrderStage::Partial => 4,
            OrderStage::Filled => 5,
            OrderStage::Cancelled => 6,
            OrderStage::Settlement => 7,
        }
    }
}

/// An event in an order's life. Price and quantity are scaled integers.
#[derive(Debug, Clone, Copy, PartialEq, Eq, Structural)]
pub struct TradeEvent {
    pub timestamp_ns: u64,
    pub order_id: u64,
    pub stage: OrderStage,
    pub price_scaled: i64,
    pub quantity_scaled: i64,
    pub strategy_id: u16,
    pub asset_id: u16,
    /// Zero to buy, one to sell.
    pub side: u8,
    pub venue_id: u8,
    pub stage_latency_ns: u32,
    pub sequence: u16,
    pub flags: u8,
}

impl TradeEvent {
    /// An event with nothing set.
    pub open spec fn blank() -> TradeEvent {
        TradeEvent {
            timestamp_ns: 0,
            order_id: 0,
            stage: OrderStage::Signal,
            price_scaled: 0,
            quantity_scaled: 0,
            strategy_id: 0,
            asset_id: 0,
            side: 0,
            venue_id: 0,
            stage_latency_ns: 0,
            sequence: 0,
            flags: 0,
        }
    }

    /// An event with nothing set.
    pub fn new() -> (e: Self)
        ensures
            e == Self::blank(),
    {
        TradeEvent {
            timestamp_ns: 0,
            order_id: 0,
            stage: OrderStage::Signal,
            price_scaled: 0,
            quantity_scaled: 0,
            strategy_id: 0,
            asset_id: 0,
            side: 0,
            venue_id: 0,
            stage_latency_ns: 0,
            sequence: 0,
            flags: 0,
        }
    }

    /// The event with its order set.
    pub fn with_order(self, order_id: u64, strategy_id: u16, asset_id: u16, side: u8) -> (e: Self)
        ensures
            e == (TradeEvent { order_id, strategy_id, asset_id, side, ..self }),
    {
        TradeEvent { order_id, strategy_id, asset_id, side, ..self }
    }

    /// Sets the price, as a whole number of parts of which `scale` make one.
    pub fn set_price(&mut self, price: Amount, scale: Amount)
        ensures
            *final(self) == (TradeEvent {
                price_scaled: scaled(price, scale) as i64,
                ..*old(self)
            }),
    {
        self.price_scaled = scale_up(price, scale);
    }

    /// The price.
    pub fn get_price(&self, scale: Amount) -> (r: Amount)
        requires
            scale.units != 0,
        ensures
            r.units == unscaled(self.price_scaled, scale),
    {
        scale_down(self.price_scaled, scale)
    }

    /// Sets the quantity, as a whole number of parts of which `scale` make one.
    pub fn set_quantity(&mut self, qty: Amount, scale: Amount)
        ensures
            *final(self) == (TradeEvent {
                quantity_scaled: scaled(qty, scale) as i64,
                ..*old(self)
            }),
    {
        self.quantity_scaled = scale_up(qty, scale);
    }

    /// The quantity.
    pub fn get_quantity(&self, scale: Amount) -> (r: Amount)
        requires
            scale.units != 0,
        ensures
            r.units == unscaled(self.quantity_scaled, scale),
    {
        scale_down(self.quantity_scaled, scale)
    }
}

/// An amount as a whole number of parts of which `scale` make one.
pub open spec fn scaled(amount: Amount, scale: Amount) -> int {
    saturated(truncated_div(amount.units * scale.units, 10_000_000_000_000_000))
}

/// The amount that a number of parts makes.
pub open spec fn unscaled(parts: i64, scale: Amount) -> int {
    ratio(parts * 100_000_000, scale.units as int)
}

fn scale_up(amount: Amount, scale: Amount) -> (r: i64)
    ensures
        r == scaled(amount, scale),
{
    let x: i128 = amount.units as i128;
    let y: i128 = scale.units as i128;
    assert(-0x8000_0000_0000_0000 * 0x8000_0000_0000_0000 <= x * y <= 0x8000_0000_0000_0000
        * 0x8000_0000_0000_0000) by (nonlinear_arith)
        requires
            -0x8000_0000_0000_0000 <= x <= 0x8000_0000_0000_0000,
            -0x8000_0000_0000_0000 <= y <= 0x8000_0000_0000_0000,
    ;
    saturate(divide_wide(x * y, 10_000_000_000_000_000))
}

fn scale_down(parts: i64, scale: Amount) -> (r: Amount)
    requires
        scale.units != 0,
    ensures
        r.units == unscaled(parts, scale),
{
    Amount { units: ratio_of(parts as i128 * 100_000_000, scale.units as i128) }
}

/// An amount that is a whole number of parts comes back as it was set.
pub proof fn law_scaled_amount_returns(amount: Amount, scale: Amount, parts: i64)
    requires
        scale.units > 0,
        amount.units * scale.units == parts * 10_000_000_000_000_000,
    ensures
        scaled(amount, scale) == parts,
        unscaled(parts, scale) == amount.units,
{
    let a = amount.units as int;
    let s = scale.units as int;
    let n = parts as int * 10_000_000_000_000_000;
    assert(parts * 100_000_000 * 100_000_000 == n);
    if a >= 0 {
        assert(a * s >= 0) by (nonlinear_arith)
            requires
                a >= 0,
                s > 0,
        ;
        assert((a * s) / s == a) by (nonlinear_arith)
            requires
                s > 0,
        ;
    } else {
        let m = -a;
        assert(m * s > 0 && m * s == -(a * s)) by (nonlinear_arith)
            requires
                m > 0,
                m == -a,
                s > 0,
        ;
        assert((m * s) / s == m) by (nonlinear_arith)
            requires
                s > 0,
        ;
    }
}

impl Default for TradeEvent {
    fn default() -> (e: Self)
        ensures
            e == Self::blank(),
    {
        TradeEvent::new()
    }
}

/// Latency of one order.
#[derive(Debug, Clone, Copy, PartialEq, Eq, Structural)]
pub struct LatencyStats {
    pub total_latency_ns: u64,
    pub stage_count: u32,
}

impl Default for LatencyStats {
    fn default() -> (s: Self)
        ensures
            s.total_latency_ns == 0,
            s.stage_count == 0,
    {
        LatencyStats { total_latency_ns: 0, stage_count: 0 }
    }
}

/// The times of an order's events.
pub open spec fn times_of(s: Seq<TradeEvent>, order_id: u64) -> Seq<u64>
    decreases s.len(),
{
    if s.len() == 0 {
        Seq::empty()
    } else if s.last().order_id == order_id {
        times_of(s.drop_last(), order_id).push(s.last().timestamp_ns)
    } else {
        times_of(s.drop_last(), order_id)
    }
}

/// The time between the first and the last of some times; none where it runs
/// backwards.
pub open spec fn time_span(times: Seq<u64>) -> int {
    if times.len() == 0 || times.last() < times[0] {
        0
    } else {
        times.last() - times[0]
    }
}

proof fn lemma_times_of_prefix(s: Seq<TradeEvent>, order_id: u64, n: int)
    requires
        0 <= n <= s.len(),
    ensures
        times_of(s.take(n), order_id).len() <= times_of(s, order_id).len(),
    decreases s.len(),
{
    if n < s.len() {
        lemma_times_of_prefix(s.drop_last(), order_id, n);
        assert(s.drop_last().take(n) =~= s.take(n));
    } else {
        assert(s.take(n) =~= s);
    }
}

/// The current time in nanoseconds since the Unix epoch.
pub fn now_ns() -> (r: u64)
    ensures
        exists|ns: u128| r == #[trigger] clock::units_of(ns, 1),
{
    clock::now_ns()
}

/// A ring of events. Both ends are counters that only grow; an event stands at
/// its number modulo the capacity.
pub struct EventRingBuffer<const CAPACITY: usize> {
    pub buffer: Vec<TradeEvent>,
    /// The number of the next event to write.
    pub head: u64,
    /// The number of the next event to read.
    pub tail: u64,
    pub count: u64,
    pub total_written: u64,
    pub shutdown: bool,
}

/// The place of an event's number in the ring.
pub open spec fn place(number: int, capacity: int) -> int {
    number % capacity
}

proof fn lemma_places_differ(a: int, b: int, n: int)
    requires
        n > 0,
        0 <= a < b < a + n,
    ensures
        place(a, n) != place(b, n),
        0 <= place(a, n) < n,
        0 <= place(b, n) < n,
{
    vstd::arithmetic::div_mod::lemma_fundamental_div_mod(a, n);
    vstd::arithmetic::div_mod::lemma_fundamental_div_mod(b, n);
    vstd::arithmetic::div_mod::lemma_mod_bound(a, n);
    vstd::arithmetic::div_mod::lemma_mod_bound(b, n);
    if a % n == b % n {
        let d = b / n - a / n;
        assert(b - a == n * d) by (nonlinear_arith)
            requires
                a == n * (a / n) + a % n,
                b == n * (b / n) + b % n,
                a % n == b % n,
                d == b / n - a / n,
        ;
        assert(false) by (nonlinear_arith)
            requires
                0 < b - a < n,
                b - a == n * d,
                n > 0,
        ;
    }
}

impl<const CAPACITY: usize> View for EventRingBuffer<CAPACITY> {
    type V = Seq<TradeEvent>;

    open spec fn view(&self) -> Seq<TradeEvent> {
        Seq::new(
            (self.head - self.tail) as nat,
            |i: int| self.buffer@[place(self.tail + i, CAPACITY as int)],
        )
    }
}

impl<const CAPACITY: usize> EventRingBuffer<CAPACITY> {
    /// The ends are in order, no further apart than the capacity, and the count
    /// is their distance.
    pub open spec fn wf(&self) -> bool {
        &&& self.buffer@.len() == CAPACITY
        &&& self.tail <= self.head
        &&& self.head - self.tail <= CAPACITY
        &&& self.count == self.head - self.tail
    }

    /// An empty ring.
    pub fn new() -> (b: Self)
        ensures
            b.wf(),
            b@ == Seq::<TradeEvent>::empty(),
            b.head == 0,
            b.tail == 0,
            b.total_written == 0,
            !b.shutdown,
    {
        let mut buffer: Vec<TradeEvent> = Vec::new();
        let mut i: usize = 0;
        while i < CAPACITY
            invariant
                i <= CAPACITY,
                buffer@.len() == i,
            decreases CAPACITY - i,
        {
            buffer.push(TradeEvent::new());
            i += 1;
        }
        let b = EventRingBuffer {
            buffer,
            head: 0,
            tail: 0,
            count: 0,
            total_written: 0,
            shutdown: false,
        };
        assert(b@ =~= Seq::<TradeEvent>::empty());
        b
    }

    /// Appends an event. Refused where the ring is full or shut down.
    pub fn push(&mut self, event: TradeEvent) -> (r: bool)
        requires
            old(self).wf(),
            old(self).head < u64::MAX,
        ensures
            final(self).wf(),
            r == (!old(self).shutdown && old(self)@.len() < CAPACITY),
            r ==> final(self)@ == old(self)@.push(event) && final(self).total_written == old(
                self,
            ).total_written.wrapping_add(1) && final(self).head == old(self).head + 1 && final(
                self).tail == old(self).tail && final(self).shutdown == old(self).shutdown,
            !r ==> *final(self) == *old(self),
    {
        if self.shutdown {
            return false;
        }
        if self.head - self.tail >= CAPACITY as u64 {
            return false;
        }
        let cap: u64 = CAPACITY as u64;
        let idx: usize = (self.head % cap) as usize;
        let ghost before = self@;
        self.buffer.set(idx, event);
        self.head = self.head + 1;
        self.count = self.count + 1;
        self.total_written = self.total_written.wrapping_add(1);
        proof {
            assert forall|i: int| 0 <= i < before.len() implies self@[i] == before[i] by {
                lemma_places_differ(self.tail + i, self.head - 1, CAPACITY as int);
            }
            assert(self@ =~= before.push(event));
        }
        true
    }

    /// Takes the oldest event out.
    pub fn pop(&mut self) -> (r: Option<TradeEvent>)
        requires
            old(self).wf(),
        ensures
            final(self).wf(),
            match r {
                Some(e) => old(self)@.len() > 0 && e == old(self)@[0] && final(self)@ == old(
                    self,
                )@.skip(1) && *final(self) == (EventRingBuffer {
                    tail: (old(self).tail + 1) as u64,
                    count: (old(self).count - 1) as u64,
                    ..*old(self)
                }),
                None => old(self)@.len() == 0 && *final(self) == *old(self),
            },
    {
        if self.tail >= self.head {
            return None;
        }
        let cap: u64 = CAPACITY as u64;
        let idx: usize = (self.tail % cap) as usize;
        let event = self.buffer[idx];
        let ghost before = self@;
        self.tail = self.tail + 1;
        self.count = self.count - 1;
        assert(self@ =~= before.skip(1));
        Some(event)
    }

    /// The oldest event.
    pub fn peek(&self) -> (r: Option<TradeEvent>)
        requires
            self.wf(),
        ensures
            r == (if self@.len() > 0 {
                Some(self@[0])
            } else {
                None
            }),
    {
        if self.tail >= self.head {
            return None;
        }
        let cap: u64 = CAPACITY as u64;
        let idx: usize = (self.tail % cap) as usize;
        Some(self.buffer[idx])
    }

    /// How many events there are.
    pub fn len(&self) -> (n: usize)
        requires
            self.wf(),
        ensures
            n == self@.len(),
    {
        self.count as usize
    }

    /// Whether there are no events.
    pub fn is_empty(&self) -> (r: bool)
        requires
            self.wf(),
        ensures
            r == (self@.len() == 0),
    {
        self.len() == 0
    }

    /// Whether there is no room.
    pub fn is_full(&self) -> (r: bool)
        requires
            self.wf(),
        ensures
            r == (self@.len() >= CAPACITY),
    {
        self.head - self.tail >= CAPACITY as u64
    }

    /// How many events were ever written.
    pub fn total_written(&self) -> (n: u64)
        ensures
            n == self.total_written,
    {
        self.total_written
    }

    /// Takes no more events.
    pub fn shutdown(&mut self)
        ensures
            *final(self) == (EventRingBuffer { shutdown: true, ..*old(self) }),
    {
        self.shutdown = true;
    }

    /// Whether the ring is shut down.
    pub fn is_shutdown(&self) -> (r: bool)
        ensures
            r == self.shutdown,
    {
        self.shutdown
    }

    /// Takes events out, oldest first, as many as there is room for, and tells
    /// how many.
    pub fn drain_into(&mut self, out: &mut [TradeEvent]) -> (n: usize)
        requires
            old(self).wf(),
        ensures
            final(self).wf(),
            n == (if old(self)@.len() < old(out)@.len() {
                old(self)@.len()
            } else {
                old(out)@.len()
            }),
            final(out)@ == old(self)@.take(n as int) + old(out)@.skip(n as int),
            final(self)@ == old(self)@.skip(n as int),
            final(self).total_written == old(self).total_written,
            final(self).shutdown == old(self).shutdown,
            final(self).head == old(self).head,
    {
        let ghost all = self@;
        let ghost room = out@;
        let mut n: usize = 0;
        assert(all.skip(0) =~= all);
        assert(all.take(0) + room.skip(0) =~= room);
        while n < out.len() && self.count > 0
            invariant
                self.wf(),
                n <= all.len(),
                n <= room.len(),
                out@ == all.take(n as int) + room.skip(n as int),
                self@ == all.skip(n as int),
                self.total_written == old(self).total_written,
                self.shutdown == old(self).shutdown,
                self.head == old(self).head,
            decreases room.len() - n,
        {
            match self.pop() {
                Some(e) => {
                    out[n] = e;
                    proof {
                        assert(e == all[n as int]);
                        assert(out@ =~= all.take(n + 1) + room.skip(n + 1));
                        assert(all.skip(n as int).skip(1) =~= all.skip(n + 1));
                    }
                    n += 1;
                },
                None => {
                    assert(false);
                },
            }
        }
        n
    }

    /// Latency of one order, over the events in the ring.
    pub fn get_latency_stats(&self, order_id: u64) -> (r: LatencyStats)
        requires
            self.wf(),
            times_of(self@, order_id).len() <= u32::MAX,
        ensures
            r.stage_count == times_of(self@, order_id).len(),
            r.total_latency_ns == time_span(times_of(self@, order_id)),
    {
        let ghost s = self@;
        let cap: u64 = CAPACITY as u64;
        let n: u64 = self.head - self.tail;
        let mut first: u64 = 0;
        let mut last: u64 = 0;
        let mut found: u32 = 0;
        let mut i: u64 = 0;
        assert(s.take(0) =~= Seq::empty());
        while i < n
            invariant
                self.wf(),
                times_of(s, order_id).len() <= u32::MAX,
                cap == CAPACITY,
                n == self.head - self.tail,
                s == self@,
                i <= n,
                found == times_of(s.take(i as int), order_id).len(),
                found > 0 ==> first == times_of(s.take(i as int), order_id)[0] && last
                    == times_of(s.take(i as int), order_id).last(),
            decreases n - i,
        {
            let idx: usize = ((self.tail + i) % cap) as usize;
            let event = self.buffer[idx];
            proof {
                assert(event == s[i as int]);
                assert(s.take(i + 1).drop_last() =~= s.take(i as int));
                assert(s.take(i + 1).last() == event);
                lemma_times_of_prefix(s, order_id, i + 1);
            }
            if event.order_id == order_id {
                if found == 0 {
                    first = event.timestamp_ns;
                }
                last = event.timestamp_ns;
                found = found + 1;
            }
            i = i + 1;
        }
        assert(s.take(s.len() as int) =~= s);
        LatencyStats {
            total_latency_ns: if found > 0 {
                last.saturating_sub(first)
            } else {
                0
            },
            stage_count: found,
        }
    }
}

impl<const CAPACITY: usize> Default for EventRingBuffer<CAPACITY> {
    fn default() -> (b: Self)
        ensures
            b.wf(),
            b@ == Seq::<TradeEvent>::empty(),
            b.head == 0,
            b.tail == 0,
            b.total_written == 0,
            !b.shutdown,
    {
        EventRingBuffer::new()
    }
}

/// A call on a ring.
pub enum RingCall {
    Push { event: TradeEvent },
    Pop,
}

/// What calls make of a ring: what it holds, what it took in and what it gave
/// out.
pub struct RingRun {
    pub held: Seq<TradeEvent>,
    pub taken: Seq<TradeEvent>,
    pub given: Seq<TradeEvent>,
}

/// A run of calls on a ring that is not shut down, as `push` and `pop` answer
/// them.
pub open spec fn ring_run(start: Seq<TradeEvent>, capacity: nat, calls: Seq<RingCall>) -> RingRun
    decreases calls.len(),
{
    if calls.len() == 0 {
        RingRun { held: start, taken: Seq::empty(), given: Seq::empty() }
    } else {
        let before = ring_run(start, capacity, calls.drop_last());
        match calls.last() {
            RingCall::Push { event } => if before.held.len() < capacity {
                RingRun {
                    held: before.held.push(event),
                    taken: before.taken.push(event),
                    given: before.given,
                }
            } else {
                before
            },
            RingCall::Pop => if before.held.len() > 0 {
                RingRun {
                    held: before.held.skip(1),
                    taken: before.taken,
                    given: before.given.push(before.held[0]),
                }
            } else {
                before
            },
        }
    }
}

/// Whatever is pushed and popped, events come out in the order in which they
/// went in and none is lost: what came out, followed by what is left, is what
/// was there, followed by what was taken in.
pub proof fn law_first_in_first_out(start: Seq<TradeEvent>, capacity: nat, calls: Seq<RingCall>)
    requires
        start.len() <= capacity,
    ensures
        ({
            let run = ring_run(start, capacity, calls);
            &&& run.given + run.held == start + run.taken
            &&& run.held.len() <= capacity
        }),
    decreases calls.len(),
{
    let run = ring_run(start, capacity, calls);
    if calls.len() == 0 {
        assert(run.given + run.held =~= start + run.taken);
    } else {
        law_first_in_first_out(start, capacity, calls.drop_last());
        let before = ring_run(start, capacity, calls.drop_last());
        match calls.last() {
            RingCall::Push { event } => {
                if before.held.len() < capacity {
                    assert(run.given + run.held =~= (before.given + before.held).push(event));
                    assert(start + run.taken =~= (start + before.taken).push(event));
                }
            },
            RingCall::Pop => {
                if before.held.len() > 0 {
                    assert(run.given + run.held =~= before.given + before.held);
                }
            },
        }
    }
}

/// How many events a writer collects.
pub const BATCH_SIZE: usize = 64;

/// The longest prefix of a batch that a ring has room for.
pub open spec fn accepted(ring: nat, capacity: nat, batch: Seq<TradeEvent>, shutdown: bool) -> Seq<
    TradeEvent,
> {
    if shutdown || ring >= capacity {
        Seq::empty()
    } else if batch.len() <= capacity - ring {
        batch
    } else {
        batch.take(capacity - ring)
    }
}

/// Collects events and writes them to a ring in batches.
pub struct JournalWriter<const CAPACITY: usize> {
    pub buffer: EventRingBuffer<CAPACITY>,
    pub batch: Vec<TradeEvent>,
    pub last_flush_ns: u64,
    pub flush_interval_ns: u64,
}

impl<const CAPACITY: usize> EventRingBuffer<CAPACITY> {
    /// Whether `after` is the ring once a batch was written to it: it takes the
    /// events that it has room for and counts them, and the rest is lost.
    pub open spec fn took_in(&self, after: &Self, batch: Seq<TradeEvent>) -> bool {
        let taken = accepted(self@.len(), CAPACITY as nat, batch, self.shutdown);
        &&& after.wf()
        &&& after@ == self@ + taken
        &&& after.head == self.head + taken.len()
        &&& after.tail == self.tail
        &&& after.total_written == self.total_written.wrapping_add(taken.len() as u64)
        &&& after.shutdown == self.shutdown
    }
}

impl<const CAPACITY: usize> JournalWriter<CAPACITY> {
    /// The batch is not full between calls.
    pub open spec fn wf(&self) -> bool {
        &&& self.buffer.wf()
        &&& self.batch@.len() < BATCH_SIZE
    }

    /// A writer that flushes every millisecond.
    pub fn new(buffer: EventRingBuffer<CAPACITY>) -> (w: Self)
        requires
            buffer.wf(),
        ensures
            w.wf(),
            w.buffer == buffer,
            w.batch@.len() == 0,
            w.last_flush_ns == 0,
            w.flush_interval_ns == 1_000_000,
    {
        JournalWriter { buffer, batch: Vec::new(), last_flush_ns: 0, flush_interval_ns: 1_000_000 }
    }

    /// Writes the batch. What the ring has no room for is lost.
    fn flush(&mut self)
        requires
            old(self).buffer.wf(),
            old(self).batch@.len() <= BATCH_SIZE,
            old(self).buffer.head <= u64::MAX - BATCH_SIZE,
        ensures
            old(self).buffer.took_in(&final(self).buffer, old(self).batch@),
            final(self).batch@.len() == 0,
            final(self).last_flush_ns == old(self).last_flush_ns,
            final(self).flush_interval_ns == old(self).flush_interval_ns,
    {
        let ghost ring = self.buffer@;
        let ghost batch = self.batch@;
        let ghost head = self.buffer.head;
        let ghost down = self.buffer.shutdown;
        let mut i: usize = 0;
        let mut room = true;
        assert(ring + batch.take(0) =~= ring);
        while i < self.batch.len() && room
            invariant
                i <= batch.len(),
                batch == self.batch@,
                batch.len() <= BATCH_SIZE,
                head <= u64::MAX - BATCH_SIZE,
                self.buffer.wf(),
                self.buffer.shutdown == down,
                self.buffer.head == head + i,
                self.buffer.tail == old(self).buffer.tail,
                self.buffer.total_written == old(self).buffer.total_written.wrapping_add(i as u64),
                self.buffer@ == ring + batch.take(i as int),
                self.last_flush_ns == old(self).last_flush_ns,
                self.flush_interval_ns == old(self).flush_interval_ns,
                !room ==> i < batch.len() && (down || ring.len() + i >= CAPACITY),
                i > 0 ==> !down && ring.len() + i <= CAPACITY,
            decreases batch.len() - i + (if room { 1int } else { 0 }),
        {
            let event = self.batch[i];
            if self.buffer.push(event) {
                assert(ring + batch.take(i + 1) =~= (ring + batch.take(i as int)).push(event));
                i += 1;
            } else {
                room = false;
            }
        }
        proof {
            assert(batch.take(batch.len() as int) =~= batch);
            assert(batch.take(0) =~= Seq::empty());
            assert(batch.take(i as int) =~= accepted(ring.len(), CAPACITY as nat, batch, down));
        }
        self.batch.clear();
    }

    /// Whether the batch is written at `now`, once it has one more event.
    pub open spec fn flush_due(&self, now: u64) -> bool {
        self.batch@.len() + 1 >= BATCH_SIZE || now - self.last_flush_ns > self.flush_interval_ns
    }

    /// Whether `after` is the writer once it has collected an event at `now`.
    pub open spec fn logged_at(&self, after: &Self, event: TradeEvent, now: u64) -> bool {
        &&& after.flush_interval_ns == self.flush_interval_ns
        &&& if self.flush_due(now) {
            &&& self.buffer.took_in(&after.buffer, self.batch@.push(event))
            &&& after.batch@.len() == 0
            &&& after.last_flush_ns == now
        } else {
            &&& after.buffer == self.buffer
            &&& after.batch@ == self.batch@.push(event)
            &&& after.last_flush_ns == self.last_flush_ns
        }
    }

    /// Collects an event at `now`, and writes the batch where it is full or old
    /// enough.
    pub fn log_event_at(&mut self, event: TradeEvent, now: u64)
        requires
            old(self).wf(),
            old(self).buffer.head <= u64::MAX - BATCH_SIZE,
        ensures
            final(self).wf(),
            old(self).logged_at(final(self), event, now),
    {
        self.batch.push(event);
        let full: bool = self.batch.len() >= BATCH_SIZE;
        if full || now.saturating_sub(self.last_flush_ns) > self.flush_interval_ns {
            self.flush();
            self.last_flush_ns = now;
        }
    }

    /// Collects an event, and writes the batch where it is full or old enough.
    pub fn log_event(&mut self, event: TradeEvent)
        requires
            old(self).wf(),
            old(self).buffer.head <= u64::MAX - BATCH_SIZE,
        ensures
            final(self).wf(),
            exists|now: u64| #[trigger] old(self).logged_at(final(self), event, now),
    {
        let now: u64 = clock::now_ns();
        self.log_event_at(event, now);
        assert(old(self).logged_at(self, event, now));
    }

    /// Writes the batch.
    pub fn force_flush(&mut self)
        requires
            old(self).wf(),
            old(self).buffer.head <= u64::MAX - BATCH_SIZE,
        ensures
            final(self).wf(),
            old(self).buffer.took_in(&final(self).buffer, old(self).batch@),
            final(self).batch@.len() == 0,
            final(self).last_flush_ns == old(self).last_flush_ns,
            final(self).flush_interval_ns == old(self).flush_interval_ns,
    {
        self.flush();
    }

    /// Sets how old a batch can get.
    pub fn set_flush_interval(&mut self, interval_ns: u64)
        ensures
            *final(self) == (JournalWriter { flush_interval_ns: interval_ns, ..*old(self) }),
    {
        self.flush_interval_ns = interval_ns;
    }
}

/// Tracks the stages of one order.
#[derive(Debug, Clone, Copy, PartialEq, Eq, Structural)]
pub struct OrderTracker {
    pub order_id: u64,
    pub first_timestamp_ns: u64,
    pub last_timestamp_ns: u64,
    /// One bit for each stage.
    pub stage_history: u32,
    pub fill_count: u8,
}

impl OrderTracker {
    /// Whether a stage was reached.
    pub open spec fn reached(&self, stage: OrderStage) -> bool {
        self.stage_history & (1u32 << stage.number()) != 0
    }

    /// A tracker of an order of which nothing is known yet.
    pub fn new(order_id: u64) -> (t: Self)
        ensures
            t.order_id == order_id,
            t.first_timestamp_ns == 0,
            t.last_timestamp_ns == 0,
            t.fill_count == 0,
            forall|s: OrderStage| !#[trigger] t.reached(s),
    {
        let t = OrderTracker {
            order_id,
            first_timestamp_ns: 0,
            last_timestamp_ns: 0,
            stage_history: 0,
            fill_count: 0,
        };
        assert forall|s: OrderStage| !#[trigger] t.reached(s) by {
            let n = s.number();
            assert(0u32 & (1u32 << n) == 0) by (bit_vector);
        }
        t
    }

    /// Whether this is what the tracker becomes with an event.
    pub open spec fn follows(&self, before: Self, event: TradeEvent) -> bool {
        &&& self.order_id == before.order_id
        &&& self.first_timestamp_ns == (if before.first_timestamp_ns == 0 {
            event.timestamp_ns
        } else {
            before.first_timestamp_ns
        })
        &&& self.last_timestamp_ns == event.timestamp_ns
        &&& forall|s: OrderStage| #[trigger]
            self.reached(s) <==> before.reached(s) || s == event.stage
        &&& self.fill_count == before.fill_count + (if event.stage == OrderStage::Partial
            || event.stage == OrderStage::Filled {
            1int
        } else {
            0
        })
    }

    /// The time from the first event to the last.
    pub open spec fn latency(&self) -> int {
        if self.last_timestamp_ns >= self.first_timestamp_ns {
            self.last_timestamp_ns - self.first_timestamp_ns
        } else {
            0
        }
    }

    /// Takes in an event of the order.
    pub fn record_event(&mut self, event: &TradeEvent)
        requires
            event.stage == OrderStage::Partial || event.stage == OrderStage::Filled ==> old(
                self,
            ).fill_count < u8::MAX,
        ensures
            final(self).follows(*old(self), *event),
    {
        if self.first_timestamp_ns == 0 {
            self.first_timestamp_ns = event.timestamp_ns;
        }
        self.last_timestamp_ns = event.timestamp_ns;
        let n: u32 = event.stage.to_number();
        let h: u32 = self.stage_history;
        self.stage_history = h | (1u32 << n);
        if event.stage == OrderStage::Partial || event.stage == OrderStage::Filled {
            self.fill_count = self.fill_count + 1;
        }
        assert forall|s: OrderStage| #[trigger]
            self.reached(s) <==> old(self).reached(s) || s == event.stage by {
            let m = s.number();
            assert((h | (1u32 << n)) & (1u32 << m) != 0 <==> (h & (1u32 << m) != 0 || n == m))
                by (bit_vector)
                requires
                    n < 8,
                    m < 8,
            ;
            assert(n == m <==> s == event.stage);
        }
    }

    /// The time between the first event and the last.
    pub fn get_total_latency_ns(&self) -> (r: u64)
        ensures
            r == self.latency(),
    {
        self.last_timestamp_ns.saturating_sub(self.first_timestamp_ns)
    }

    /// Whether a stage was reached.
    pub fn has_reached_stage(&self, stage: OrderStage) -> (r: bool)
        ensures
            r == self.reached(stage),
    {
        self.stage_history & (1u32 << stage.to_number()) != 0
    }

    /// How many fills there were.
    pub fn get_fill_count(&self) -> (n: u8)
        ensures
            n == self.fill_count,
    {
        self.fill_count
    }
}

} // verus!
