//! What the journal keeps of an order.

use vstd::prelude::*;
use crate::base::amount::Amount;
use crate::base::numbers::truncated_div;
use crate::base::rounding::{law_division_cuts_off, law_ratio};
use crate::journal::event_logger::{
    accepted, place, scaled, time_span, times_of, unscaled, EventRingBuffer, JournalWriter,
    OrderStage, OrderTracker, TradeEvent,
};

verus! {

/// Stages are numbered in the order in which an order passes them.
pub proof fn law_stage_numbers()
    ensures
        OrderStage::Signal.number() == 0,
        OrderStage::PreRisk.number() == 1,
        OrderStage::Routing.number() == 2,
        OrderStage::Ack.number() == 3,
        OrderStage::Partial.number() == 4,
        OrderStage::Filled.number() == 5,
        OrderStage::Cancelled.number() == 6,
        OrderStage::Settlement.number() == 7,
{
}

/// An amount is kept as its number of parts at the scale, and read back by the
/// scale.
pub proof fn law_amounts_scaled(amount: Amount, scale: Amount, parts: i64)
    requires
        amount.units >= 0,
        scale.units > 0,
        parts >= 0,
        scaled(amount, scale) < 0x7fff_ffff_ffff_ffff,
        parts * 100_000_000 * 100_000_000 <= 0x7fff_ffff_ffff_ffff * scale.units,
    ensures
        scaled(amount, scale) * 10_000_000_000_000_000 <= amount.units * scale.units < (scaled(
            amount,
            scale,
        ) + 1) * 10_000_000_000_000_000,
        unscaled(parts, scale) * scale.units <= parts * 10_000_000_000_000_000 < unscaled(
            parts,
            scale,
        ) * scale.units + scale.units,
{
    let x = amount.units * scale.units;
    assert(x >= 0) by (nonlinear_arith)
        requires
            x == amount.units * scale.units,
            amount.units >= 0,
            scale.units > 0,
    ;
    law_division_cuts_off(x, 10_000_000_000_000_000);
    let s = scale.units as int;
    assert(-0x8000_0000_0000_0000 * s <= 0) by (nonlinear_arith)
        requires
            s > 0,
    ;
    law_ratio(parts * 100_000_000, s);
}

/// The times of an order are those of its own events, in order, and the span is
/// from the first to the last.
pub proof fn law_times_of_order(s: Seq<TradeEvent>, e: TradeEvent, id: u64, times: Seq<u64>)
    ensures
        times_of(Seq::empty(), id).len() == 0,
        e.order_id == id ==> times_of(s.push(e), id) == times_of(s, id).push(e.timestamp_ns),
        e.order_id != id ==> times_of(s.push(e), id) == times_of(s, id),
        times.len() == 0 ==> time_span(times) == 0,
        times.len() > 0 && times.last() >= times[0] ==> times[0] + time_span(times) == times.last(),
        times.len() > 0 && times.last() < times[0] ==> time_span(times) == 0,
{
    assert(s.push(e).drop_last() =~= s);
}

/// Events of a batch are taken in order as far as there is room, and none once
/// the ring is shut.
pub proof fn law_batch_taken_as_far_as_it_fits<const N: usize>(
    before: EventRingBuffer<N>,
    after: EventRingBuffer<N>,
    batch: Seq<TradeEvent>,
)
    requires
        before.wf(),
        before.took_in(&after, batch),
    ensures
        before.shutdown ==> after@ == before@,
        !before.shutdown && before@.len() + batch.len() <= N ==> after@ == before@ + batch,
        !before.shutdown && before@.len() + batch.len() > N ==> after@.len() == N && after@
            == before@ + batch.take(N - before@.len()),
        after@.len() <= N,
{
    let taken = accepted(before@.len(), N as nat, batch, before.shutdown);
    if before.shutdown {
        assert(before@ + taken =~= before@);
    }
    if !before.shutdown && before@.len() >= N {
        assert(batch.take(N - before@.len()) =~= Seq::<TradeEvent>::empty());
        if batch.len() == 0 {
            assert(batch =~= Seq::<TradeEvent>::empty());
        }
    }
}

/// An event waits in the batch until sixty-four wait or the interval passed;
/// then all of them go to the ring, this one last.
pub proof fn law_batch_is_flushed<const N: usize>(
    before: JournalWriter<N>,
    after: JournalWriter<N>,
    e: TradeEvent,
    now: u64,
)
    requires
        before.logged_at(&after, e, now),
    ensures
        before.batch@.len() < 63 && now <= before.last_flush_ns + before.flush_interval_ns
            ==> after.batch@ == before.batch@.push(e) && after.buffer == before.buffer
            && after.last_flush_ns == before.last_flush_ns,
        before.batch@.len() >= 63 || now > before.last_flush_ns + before.flush_interval_ns
            ==> after.batch@.len() == 0 && after.last_flush_ns == now && before.buffer.took_in(
            &after.buffer,
            before.batch@.push(e),
        ),
{
}

/// A tracker keeps the time of its first event and of its last, every stage it
/// reached, and how often it was filled, in part or whole.
pub proof fn law_tracker_follows_order(
    before: OrderTracker,
    after: OrderTracker,
    e: TradeEvent,
    stage: OrderStage,
)
    requires
        after.follows(before, e),
    ensures
        after.reached(e.stage),
        before.reached(stage) ==> after.reached(stage),
        after.reached(stage) && stage != e.stage ==> before.reached(stage),
        after.last_timestamp_ns == e.timestamp_ns,
        before.first_timestamp_ns == 0 ==> after.first_timestamp_ns == e.timestamp_ns,
        before.first_timestamp_ns != 0 ==> after.first_timestamp_ns == before.first_timestamp_ns,
        e.stage == OrderStage::Partial || e.stage == OrderStage::Filled ==> after.fill_count
            == before.fill_count + 1,
        e.stage != OrderStage::Partial && e.stage != OrderStage::Filled ==> after.fill_count
            == before.fill_count,
        after.last_timestamp_ns >= after.first_timestamp_ns ==> after.first_timestamp_ns
            + after.latency() == after.last_timestamp_ns,
        after.last_timestamp_ns < after.first_timestamp_ns ==> after.latency() == 0,
{
}

/// Places of a ring follow one another and start again at its end.
pub proof fn law_ring_places(n: int, capacity: int)
    requires
        capacity > 0,
        n >= 0,
    ensures
        0 <= place(n, capacity) < capacity,
        n < capacity ==> place(n, capacity) == n,
        place(n + capacity, capacity) == place(n, capacity),
{
    assert(0 <= n % capacity < capacity) by (nonlinear_arith)
        requires
            capacity > 0,
    ;
    assert((n + capacity) % capacity == n % capacity) by {
        vstd::arithmetic::div_mod::lemma_mod_add_multiples_vanish(n, capacity);
    }
    if n < capacity {
        vstd::arithmetic::div_mod::lemma_small_mod(n as nat, capacity as nat);
    }
}

} // verus!
