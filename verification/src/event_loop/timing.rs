//! What times, counts and latencies of the loop mean.

use vstd::prelude::*;
use crate::base::amount_text::law_numeral_reads_back;
use crate::base::numbers::truncated_div;
use crate::base::rounding::law_division_cuts_off;
use crate::base::sorting::{ascending, lemma_ascending};
use crate::base::text::{decimal, has_prefix, is_space, views, words};
use crate::base::wording::{law_prefix, law_spaces, law_words};
use crate::event_loop::clock_sync::{
    mean, median, offset_sum, offsets, rtt_sum, shows, square_sum, ClockSyncConfig,
    ClockSyncResult, ClockSynchronizer,
};
use crate::event_loop::main_loop::{
    EventLoopState, EventTurn, EventType, LoopPass, MainEventLoop, RiskCheckResult,
};
use crate::event_loop::telemetry_injector::{
    latencies, latency_sum, resident_kb, resident_mb, summarises, MetricSample, TelemetryInjector,
    TelemetryStats,
};

verus! {

/// The median stands in the middle: in ascending order, the first half lies at
/// or below it and the second half at or above it.
pub proof fn law_median_in_the_middle(s: Seq<i64>, i: int, j: int)
    requires
        s.len() > 0,
        0 <= i < s.len() as int - s.len() as int / 2,
        s.len() as int / 2 <= j < s.len(),
    ensures
        s.len() % 2 == 1 ==> ascending(s)[i] <= median(s) <= ascending(s)[j],
        s.len() % 2 == 0 && i < s.len() as int / 2 ==> ascending(s)[i] <= median(s) <= ascending(
            s,
        )[j],
        s.len() % 2 == 1 ==> s.contains(median(s) as i64),
        s.len() % 2 == 0 ==> -1 <= ascending(s)[s.len() as int / 2 - 1] + ascending(s)[s.len() as int
            / 2] - 2 * median(s) <= 1,
{
    lemma_ascending(s);
    let a = ascending(s);
    let m = s.len() as int / 2;
    if s.len() % 2 == 1 {
        assert(i == m || a[i] <= a[m]);
        assert(j == m || a[m] <= a[j]);
    } else {
        law_division_cuts_off(a[m - 1] + a[m], 2);
        assert(a[m - 1] <= a[m]);
        assert(j == m || a[m] <= a[j]);
        if i < m {
            assert(i == m - 1 || a[i] <= a[m - 1]);
        }
    }
}

/// Offsets add up, and so do the squares of their distances from a mean and the
/// round trips; a mean times their number is their sum but for what is cut off.
pub proof fn law_samples_add_up(s: Seq<i64>, x: i64, m: int, t: Seq<(i64, u64)>, y: (i64, u64))
    ensures
        offset_sum(Seq::empty()) == 0,
        offset_sum(s.push(x)) == offset_sum(s) + x,
        square_sum(Seq::empty(), m) == 0,
        square_sum(s.push(x), m) == square_sum(s, m) + (x - m) * (x - m),
        rtt_sum(Seq::empty()) == 0,
        rtt_sum(t.push(y)) == rtt_sum(t) + y.1,
        s.len() > 0 && offset_sum(s) >= 0 ==> mean(s) * s.len() <= offset_sum(s) < mean(s) * s.len()
            + s.len(),
{
    assert(s.push(x).drop_last() =~= s);
    assert(t.push(y).drop_last() =~= t);
    if s.len() > 0 {
        law_division_cuts_off(offset_sum(s), s.len() as int);
    }
}

/// A synchronisation shows the median offset, the mean round trip and how many
/// samples there were, and takes the offset over.
pub proof fn law_synchronisation(
    before: ClockSynchronizer,
    after: ClockSynchronizer,
    samples: Seq<(i64, u64)>,
    now: u64,
    r: ClockSyncResult,
)
    requires
        samples.len() > 0,
        samples.len() <= u32::MAX,
        shows(samples, now, r),
        before.synchronised(&after, r),
        before.sync_count < u64::MAX,
    ensures
        r.offset_ns == median(offsets(samples)),
        r.rtt_ns * samples.len() <= rtt_sum(samples) < (r.rtt_ns + 1) * samples.len(),
        r.sample_count == samples.len(),
        after.current_offset_ns == r.offset_ns,
        after.last_sync_timestamp_ns == now,
        after.sync_count == before.sync_count + 1,
{
    let n = samples.len() as int;
    let x = rtt_sum(samples);
    let q = x / n;
    assert(q * n <= x < (q + 1) * n) by (nonlinear_arith)
        requires
            n > 0,
            q == x / n,
    ;
}

/// A clock that runs ahead by an offset is set back by it, one that runs behind
/// is set forward, and one without offset is left.
pub proof fn law_offset_taken_off(c: ClockSynchronizer, local: u64)
    ensures
        0 <= local - c.current_offset_ns <= 0xffff_ffff_ffff_ffff ==> c.synced(local)
            + c.current_offset_ns == local,
        c.current_offset_ns == 0 ==> c.synced(local) == local,
        c.current_offset_ns >= 0 ==> c.synced(local) <= local,
        c.current_offset_ns <= 0 ==> c.synced(local) >= local,
{
}

/// Every kind of event has its own code.
pub proof fn law_event_codes()
    ensures
        EventType::Tick.code() == 0,
        EventType::Signal.code() == 1,
        EventType::OrderFill.code() == 2,
        EventType::RiskUpdate.code() == 3,
        EventType::Heartbeat.code() == 4,
{
}

/// Every event is counted as a tick; only one with a signal counts as such; an
/// order counts where the signal passed the check and was filled; the latencies
/// add up.
pub proof fn law_turn_is_counted(s: EventLoopState, turn: EventTurn)
    requires
        s.tick_count < u64::MAX,
        s.signal_count < u64::MAX,
        s.order_count < u64::MAX,
        s.total_latency_ns + turn.order_latency_ns + turn.event_latency_ns <= u64::MAX,
    ensures
        ({
            let n = s.after_turn(turn);
            let sent = turn.signal is Some && turn.risk == RiskCheckResult::Pass;
            &&& n.tick_count == s.tick_count + 1
            &&& turn.signal is Some ==> n.signal_count == s.signal_count + 1
            &&& turn.signal is None ==> n.signal_count == s.signal_count
            &&& sent && turn.dispatch.filled ==> n.order_count == s.order_count + 1
            &&& !sent || !turn.dispatch.filled ==> n.order_count == s.order_count
            &&& sent ==> n.total_latency_ns == s.total_latency_ns + turn.order_latency_ns
                + turn.event_latency_ns
            &&& !sent ==> n.total_latency_ns == s.total_latency_ns + turn.event_latency_ns
            &&& n.is_running == s.is_running
            &&& n.last_heartbeat == s.last_heartbeat
        }),
{
}

/// A heartbeat comes with every pass that completes the interval, and then the
/// passes are counted anew.
pub proof fn law_heartbeat_comes(l: MainEventLoop, now_us: u64)
    requires
        l.heartbeat_counter < u64::MAX,
    ensures
        l.heartbeat_counter + 1 >= l.config.heartbeat_interval_ms ==> l.pass_ended(
            now_us,
        ).state.last_heartbeat == now_us && l.pass_ended(now_us).heartbeat_counter == 0,
        l.heartbeat_counter + 1 < l.config.heartbeat_interval_ms ==> l.pass_ended(now_us).state
            == l.state && l.pass_ended(now_us).heartbeat_counter == l.heartbeat_counter + 1,
        l.started().state.is_running,
        l.started().heartbeat_counter == 0,
        !l.stopped().state.is_running,
        l.stopped().state.tick_count == l.state.tick_count,
{
}

/// A pass without an event changes no count; passes follow one another.
pub proof fn law_passes_follow(l: MainEventLoop, passes: Seq<LoopPass>, pass: LoopPass)
    ensures
        l.after_passes(Seq::empty()) == l,
        l.after_passes(passes.push(pass)) == l.after_passes(passes).after_pass(pass),
        pass.event is None ==> l.after_pass(pass).state.tick_count == l.state.tick_count
            && l.after_pass(pass).state.signal_count == l.state.signal_count && l.after_pass(
            pass,
        ).state.order_count == l.state.order_count,
{
    assert(passes.push(pass).drop_last() =~= passes);
}

/// No sample is faster than the least latency or slower than the greatest, half
/// of the samples lie at or below the median, and the sum counts each once.
pub proof fn law_summary_covers_samples(
    samples: Seq<MetricSample>,
    x: MetricSample,
    ticks: u64,
    start_ns: u64,
    now: u64,
    r: TelemetryStats,
    i: int,
)
    requires
        samples.len() > 0,
        summarises(samples, ticks, start_ns, now, r),
        0 <= i < samples.len(),
    ensures
        r.sample_count == samples.len(),
        r.latency_sum_ns == latency_sum(samples),
        latency_sum(samples.push(x)) == latency_sum(samples) + x.latency_ns,
        r.min_latency_ns <= ascending(latencies(samples))[i] <= r.max_latency_ns,
        latencies(samples)[i] == samples[i].latency_ns,
        i <= samples.len() as int / 2 ==> ascending(latencies(samples))[i] <= r.p50_latency_ns,
        100 * i <= 95 * samples.len() - 100 ==> ascending(latencies(samples))[i]
            <= r.p95_latency_ns,
        100 * i <= 99 * samples.len() - 100 ==> ascending(latencies(samples))[i]
            <= r.p99_latency_ns,
        100 * i > 95 * samples.len() ==> ascending(latencies(samples))[i] >= r.p95_latency_ns,
        100 * i > 99 * samples.len() ==> ascending(latencies(samples))[i] >= r.p99_latency_ns,
        r.last_update_ns == now,
        now >= start_ns ==> r.elapsed_ns == now - start_ns,
{
    let l = latencies(samples);
    lemma_ascending(l);
    let a = ascending(l);
    let n = samples.len() as int;
    assert(samples.push(x).drop_last() =~= samples);
    assert(i == 0 || a[0] <= a[i]);
    assert(i == n - 1 || a[i] <= a[n - 1]);
    assert(i == n / 2 || i > n / 2 || a[i] <= a[n / 2]);
    let p = n * 95 / 100;
    let q = n * 99 / 100;
    assert(0 <= p < n && 0 <= q < n);
    assert(i == p || i > p || a[i] <= a[p]);
    assert(i == q || i > q || a[i] <= a[q]);
    assert(i == p || i < p || a[p] <= a[i]);
    assert(i == q || i < q || a[q] <= a[i]);
}

/// A tick is sampled once in each interval, with its own figures.
pub proof fn law_ticks_sampled(
    t: TelemetryInjector,
    latency: u32,
    depth: u16,
    strategy: u8,
    memory: u64,
    now: u64,
)
    requires
        t.config.sample_interval_ticks > 0,
    ensures
        t.tick_counter == 0 ==> t.due(),
        0 < t.tick_counter < t.config.sample_interval_ticks ==> !t.due(),
        t.tick_counter == t.config.sample_interval_ticks ==> t.due(),
        ({
            let s = t.sample(latency, depth, strategy, memory, now);
            &&& s.tick_id == t.tick_counter
            &&& s.timestamp_ns == now
            &&& s.latency_ns == latency
            &&& s.queue_depth == depth
            &&& s.strategy_id == strategy
            &&& t.config.enable_memory_tracking && memory <= 0xffff ==> s.memory_used_mb == memory
            &&& !t.config.enable_memory_tracking ==> s.memory_used_mb == 0
        }),
{
    let n = t.config.sample_interval_ticks as int;
    assert(n % n == 0 && 0int % n == 0) by (nonlinear_arith)
        requires
            n > 0,
    ;
    if 0 < t.tick_counter < n {
        let k = t.tick_counter as int;
        assert(k % n == k) by (nonlinear_arith)
            requires
                0 < k < n,
        ;
    }
}

/// A clock is accurate where its offset, on either side, is within the limit and
/// its jitter below a thousandth of a second.
pub proof fn law_accurate_clock(r: ClockSyncResult, limit: i64)
    ensures
        r.accurate(limit) <==> -limit <= r.offset_ns <= limit && r.jitter_ns < 1_000_000,
{
}

/// The line of the resident set tells its kilobytes behind its name.
pub proof fn law_resident_line(kb: nat, unit: Seq<char>, line: Seq<char>)
    requires
        kb <= u64::MAX,
    ensures
        resident_kb("VmRSS:"@ + seq![' '] + (decimal(kb) + seq![' '] + unit)) == Some(kb),
        line.len() > 0 && line[0] != 'V' ==> resident_kb(line) is None,
{
    reveal_strlit("VmRSS:");
    assert("VmRSS:"@.len() == 6);
    let name = "VmRSS:"@;
    let number = decimal(kb);
    law_numeral_reads_back(kb);
    assert forall|i: int| 0 <= i < name.len() implies !is_space(#[trigger] name[i]) by {
        law_spaces(name[i]);
    }
    assert forall|i: int| 0 <= i < number.len() implies !is_space(#[trigger] number[i]) by {
        assert('0' <= number[i] <= '9');
        law_spaces(number[i]);
    }
    law_words(name, ' ', number + seq![' '] + unit);
    law_words(number, ' ', unit);
    let s = name + seq![' '] + (number + seq![' '] + unit);
    law_prefix(name, seq![' '] + (number + seq![' '] + unit), s);
    assert(s =~= name + (seq![' '] + (number + seq![' '] + unit)));
    assert(words(s)[1] == number);
    assert(number[0] != '+');
    if has_prefix(line, name) {
        law_prefix(name, Seq::empty(), line);
        assert(line.take(6)[0] == name[0]);
    }
}

/// The resident memory is told by the first line that tells it, in whole
/// megabytes, and is zero where none does.
pub proof fn law_resident_memory(line: Seq<char>, rest: Seq<Seq<char>>)
    ensures
        resident_mb(Seq::empty()) == 0,
        resident_kb(line) is None ==> resident_mb(seq![line] + rest) == resident_mb(rest),
        resident_kb(line) is Some ==> resident_mb(seq![line] + rest) * 1024 <= resident_kb(line)->0
            < resident_mb(seq![line] + rest) * 1024 + 1024,
{
    assert((seq![line] + rest).skip(1) =~= rest);
}

/// The usual synchronisation asks three servers eight times each minute and
/// takes a tenth of a millisecond as accurate.
pub proof fn law_usual_synchronisation(c: ClockSyncConfig)
    requires
        c.is_usual(),
    ensures
        views(c.ntp_servers@) == seq![
            "pool.ntp.org"@,
            "time.google.com"@,
            "time.cloudflare.com"@,
        ],
        c.sync_interval_sec == 60,
        10 * c.max_offset_ns == 1_000_000,
        c.samples_per_sync == 8,
        c.exchange_time_endpoint is None,
        !c.enable_ptp,
{
}

} // verus!
