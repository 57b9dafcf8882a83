//! When trading halts around an event.

use vstd::prelude::*;
use crate::macro_events::event_calendar::{
    halt_after, halt_after_all, is_next_critical, is_plain_event, upcoming_events, with_processed,
    EventCalendar, EventType, ImpactLevel, MacroEvent,
};

verus! {

/// The greater the impact, the longer the halt: none, five seconds, half a
/// minute and two minutes.
pub proof fn law_halt_by_impact()
    ensures
        ImpactLevel::Low.halt_ms() == 0,
        ImpactLevel::Medium.halt_ms() == 5 * 1000,
        ImpactLevel::High.halt_ms() == 30 * 1000,
        ImpactLevel::Critical.halt_ms() == 2 * 60 * 1000,
{
}

/// Payrolls, rate decisions of the Fed and consumer prices are critical; its
/// press conferences, producer prices, output and decisions in Frankfurt are
/// high; auctions and others are low; everything else is in between.
pub proof fn law_usual_impacts()
    ensures
        EventType::NonFarmPayrolls.usual_impact() == ImpactLevel::Critical,
        EventType::FOMCDecision.usual_impact() == ImpactLevel::Critical,
        EventType::CPIRelease.usual_impact() == ImpactLevel::Critical,
        EventType::FOMCPressConference.usual_impact() == ImpactLevel::High,
        EventType::PPIRelease.usual_impact() == ImpactLevel::High,
        EventType::GDPRelease.usual_impact() == ImpactLevel::High,
        EventType::ECBDecision.usual_impact() == ImpactLevel::High,
        EventType::RetailSales.usual_impact() == ImpactLevel::Medium,
        EventType::ISMManufacturing.usual_impact() == ImpactLevel::Medium,
        EventType::ISMServices.usual_impact() == ImpactLevel::Medium,
        EventType::UnemploymentClaims.usual_impact() == ImpactLevel::Medium,
        EventType::FedSpeaker.usual_impact() == ImpactLevel::Medium,
        EventType::BOEDecision.usual_impact() == ImpactLevel::Medium,
        EventType::BOJDecision.usual_impact() == ImpactLevel::Medium,
        EventType::TreasuryAuction.usual_impact() == ImpactLevel::Low,
        EventType::Other.usual_impact() == ImpactLevel::Low,
{
}

/// A halt starts its whole length before the event and lasts half of it beyond;
/// an event of low impact halts nothing.
pub proof fn law_halt_around_event<F>(e: MacroEvent<F>)
    ensures
        e.halts() <==> e.impact == ImpactLevel::Medium || e.impact == ImpactLevel::High || e.impact
            == ImpactLevel::Critical,
        e.timestamp_ms >= e.impact.halt_ms() ==> e.timestamp_ms - e.halt_start()
            == e.impact.halt_ms(),
        2 * (e.halt_end() - e.timestamp_ms) == e.impact.halt_ms(),
        e.halt_start() <= e.timestamp_ms <= e.halt_end(),
{
}

/// An event whose halt has begun halts trading until the end of its halt; one
/// whose halt is still to come, or that halts nothing, leaves it.
pub proof fn law_event_halts<F>(halt: (bool, u64), e: MacroEvent<F>, now: u64)
    requires
        e.halt_end() <= u64::MAX,
    ensures
        e.impact != ImpactLevel::Low && now + e.impact.halt_ms() >= e.timestamp_ms ==> halt_after(
            halt,
            e,
            now,
        ).0 && halt_after(halt, e, now).1 == e.timestamp_ms + e.impact.halt_ms() / 2,
        e.impact == ImpactLevel::Low || now + e.impact.halt_ms() < e.timestamp_ms ==> halt_after(
            halt,
            e,
            now,
        ) == halt,
{
}

/// Events halt in turn, each at its own time.
pub proof fn law_events_halt_in_turn<F>(
    halt: (bool, u64),
    s: Seq<MacroEvent<F>>,
    e: MacroEvent<F>,
    times: Seq<u64>,
)
    requires
        times.len() == s.len() + 1,
    ensures
        halt_after_all(halt, Seq::<MacroEvent<F>>::empty(), times) == halt,
        halt_after_all(halt, s.push(e), times) == halt_after(
            halt_after_all(halt, s, times),
            e,
            times[s.len() as int],
        ),
{
    assert(s.push(e).drop_last() =~= s);
}

/// An event is upcoming where it lies at most the window ahead, is not past and
/// was not processed; the upcoming ones are found in order.
pub proof fn law_upcoming<F>(s: Seq<MacroEvent<F>>, e: MacroEvent<F>, now: u64, window: u64)
    ensures
        e.upcoming(now, window) <==> !e.processed && e.timestamp_ms >= now && e.timestamp_ms - now
            <= window,
        e.upcoming(now, window) ==> upcoming_events(s.push(e), now, window) == upcoming_events(
            s,
            now,
            window,
        ).push(e),
        !e.upcoming(now, window) ==> upcoming_events(s.push(e), now, window) == upcoming_events(
            s,
            now,
            window,
        ),
{
    assert(s.push(e).drop_last() =~= s);
}

/// The next critical event is critical, ahead and not processed, and no other
/// such event comes sooner.
pub proof fn law_next_critical<F>(s: Seq<MacroEvent<F>>, now: u64, i: int, j: int)
    requires
        is_next_critical(s, now, i),
        0 <= j < s.len(),
    ensures
        s[i].impact == ImpactLevel::Critical,
        s[i].timestamp_ms > now,
        !s[i].processed,
        s[j].impact == ImpactLevel::Critical && s[j].timestamp_ms > now && !s[j].processed
            ==> s[i].timestamp_ms <= s[j].timestamp_ms,
{
    assert(s[j].critical_after(now) || !s[j].critical_after(now));
}

/// An event that was processed is marked, and no other is changed.
pub proof fn law_processed_marks<F>(s: Seq<MacroEvent<F>>, t: EventType, at: u64, i: int)
    requires
        0 <= i < s.len(),
    ensures
        with_processed(s, t, at).len() == s.len(),
        s[i].event_type == t && s[i].timestamp_ms == at ==> with_processed(s, t, at)[i].processed,
        s[i].event_type != t || s[i].timestamp_ms != at ==> with_processed(s, t, at)[i] == s[i],
        with_processed(s, t, at)[i].timestamp_ms == s[i].timestamp_ms,
        with_processed(s, t, at)[i].impact == s[i].impact,
        with_processed(s, t, at)[i].event_type == s[i].event_type,
{
}

/// Risk is off from the start of a halt to its end, and the wait is told in
/// whole seconds.
pub proof fn law_status_tells_wait<F>(c: EventCalendar<F>, now: u64)
    requires
        c.current_halt_end_ms - now <= 4_000_000_000_000,
    ensures
        c.status_at(now).is_risk_off <==> c.risk_off_active && (now < c.current_halt_end_ms
            || c.current_halt_end_ms == 0),
        c.current_halt_end_ms > now ==> c.status_at(now).seconds_until_resume * 1000
            <= c.current_halt_end_ms - now < (c.status_at(now).seconds_until_resume + 1) * 1000,
        c.current_halt_end_ms <= now ==> c.status_at(now).seconds_until_resume == 0,
        c.status_at(now).halt_end_ms == c.current_halt_end_ms,
        c.status_at(now).volatility_spike == c.volatility_spike_pending,
{
}

/// An event put on the calendar is the last there, and a critical one announces
/// a spike.
pub proof fn law_event_on_calendar<F>(
    before: EventCalendar<F>,
    after: EventCalendar<F>,
    e: MacroEvent<F>,
    now: u64,
)
    requires
        after.scheduled(before, e, now),
        before.capacity > 0,
    ensures
        after.events@.len() > 0,
        after.events@.last() == e,
        before.events@.len() < before.capacity ==> after.events@ == before.events@.push(e),
        e.impact == ImpactLevel::Critical ==> after.volatility_spike_pending,
        e.impact != ImpactLevel::Critical ==> after.volatility_spike_pending
            == before.volatility_spike_pending,
{
    let s = before.events@.push(e);
    let n = before.capacity as int;
    if s.len() > n {
        assert(s.skip(s.len() - n).last() == s.last());
    }
}

/// A plain event has the usual impact of its kind and no figures yet.
pub proof fn law_plain_event<F>(
    e: MacroEvent<F>,
    t: EventType,
    at: u64,
    description: Seq<char>,
    currency: Seq<char>,
)
    requires
        is_plain_event(e, t, at, description, currency),
    ensures
        e.event_type == t,
        e.timestamp_ms == at,
        e.impact == t.usual_impact(),
        e.description@ == description,
        e.currency@ == currency,
        e.actual is None && e.forecast is None && e.previous is None,
        !e.processed,
{
}

/// The greater the impact, the more volatility is expected: as much as ever,
/// half as much again, three times and eight times as much.
pub proof fn law_expected_volatility()
    ensures
        ImpactLevel::Low.multiplier() == 100_000_000,
        2 * ImpactLevel::Medium.multiplier() == 3 * ImpactLevel::Low.multiplier(),
        ImpactLevel::High.multiplier() == 3 * ImpactLevel::Low.multiplier(),
        ImpactLevel::Critical.multiplier() == 8 * ImpactLevel::Low.multiplier(),
{
}

} // verus!
