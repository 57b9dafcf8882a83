//! Calendar of high-impact releases: when trading halts, and until when.

use vstd::prelude::*;
use crate::base::amount::Amount;
use crate::base::clock::now_ms;
use crate::base::sequences::{lemma_newest_push, newest};
use crate::base::text::{same, views};

verus! {

/// How strongly an event moves the market.
#[derive(Debug, Clone, Copy, PartialEq, Eq, PartialOrd, Ord, Structural)]
pub enum ImpactLevel {
    Low,
    Medium,
    High,
    Critical,
}

impl ImpactLevel {
    /// How long before an event trading halts, in milliseconds.
    pub open spec fn halt_ms(self) -> u64 {
        match self {
            ImpactLevel::Low => 0,
            ImpactLevel::Medium => 5000,
            ImpactLevel::High => 30000,
            ImpactLevel::Critical => 120000,
        }
    }

    /// How long before an event trading halts, in milliseconds.
    pub fn halt_duration_ms(&self) -> (ms: u64)
        ensures
            ms == self.halt_ms(),
    {
        match self {
            ImpactLevel::Low => 0,
            ImpactLevel::Medium => 5000,
            ImpactLevel::High => 30000,
            ImpactLevel::Critical => 120000,
        }
    }

    /// By how much volatility is expected to grow.
    pub open spec fn multiplier(self) -> int {
        match self {
            ImpactLevel::Low => 100_000_000,
            ImpactLevel::Medium => 150_000_000,
            ImpactLevel::High => 300_000_000,
            ImpactLevel::Critical => 800_000_000,
        }
    }

    /// By how much volatility is expected to grow.
    pub fn expected_volatility_multiplier(&self) -> (r: Amount)
        ensures
            r.units == self.multiplier(),
    {
        match self {
            ImpactLevel::Low => Amount { units: 100_000_000 },
            ImpactLevel::Medium => Amount { units: 150_000_000 },
            ImpactLevel::High => Amount { units: 300_000_000 },
            ImpactLevel::Critical => Amount { units: 800_000_000 },
        }
    }
}

/// Kinds of macroeconomic events.
#[derive(Debug, Clone, Copy, PartialEq, Eq, Hash, Structural)]
pub enum EventType {
    NonFarmPayrolls,
    FOMCDecision,
    FOMCPressConference,
    CPIRelease,
    PPIRelease,
    GDPRelease,
    RetailSales,
    ISMManufacturing,
    ISMServices,
    UnemploymentClaims,
    FedSpeaker,
    TreasuryAuction,
    ECBDecision,
    BOEDecision,
    BOJDecision,
    Other,
}

impl EventType {
    /// The impact of an event of this kind.
    pub open spec fn usual_impact(self) -> ImpactLevel {
        match self {
            EventType::NonFarmPayrolls | EventType::FOMCDecision | EventType::CPIRelease =>
                ImpactLevel::Critical,
            EventType::FOMCPressConference | EventType::PPIRelease | EventType::GDPRelease
            | EventType::ECBDecision => ImpactLevel::High,
            EventType::TreasuryAuction | EventType::Other => ImpactLevel::Low,
            _ => ImpactLevel::Medium,
        }
    }

    /// The impact of an event of this kind.
    pub fn default_impact(&self) -> (r: ImpactLevel)
        ensures
            r == self.usual_impact(),
    {
        match self {
            EventType::NonFarmPayrolls => ImpactLevel::Critical,
            EventType::FOMCDecision => ImpactLevel::Critical,
            EventType::FOMCPressConference => ImpactLevel::High,
            EventType::CPIRelease => ImpactLevel::Critical,
            EventType::PPIRelease => ImpactLevel::High,
            EventType::GDPRelease => ImpactLevel::High,
            EventType::RetailSales => ImpactLevel::Medium,
            EventType::ISMManufacturing => ImpactLevel::Medium,
            EventType::ISMServices => ImpactLevel::Medium,
            EventType::UnemploymentClaims => ImpactLevel::Medium,
            EventType::FedSpeaker => ImpactLevel::Medium,
            EventType::TreasuryAuction => ImpactLevel::Low,
            EventType::ECBDecision => ImpactLevel::High,
            EventType::BOEDecision => ImpactLevel::Medium,
            EventType::BOJDecision => ImpactLevel::Medium,
            EventType::Other => ImpactLevel::Low,
        }
    }
}

/// A scheduled event. Its figures are of the caller's number type.
#[derive(Debug, Clone)]
pub struct MacroEvent<F> {
    pub event_type: EventType,
    pub timestamp_ms: u64,
    pub impact: ImpactLevel,
    pub description: String,
    pub currency: String,
    pub actual: Option<F>,
    pub forecast: Option<F>,
    pub previous: Option<F>,
    pub processed: bool,
}

impl<F> MacroEvent<F> {
    /// Whether trading halts around the event.
    pub open spec fn halts(self) -> bool {
        self.impact != ImpactLevel::Low
    }

    /// When the halt begins: not before zero.
    pub open spec fn halt_start(self) -> int {
        if self.timestamp_ms >= self.impact.halt_ms() {
            self.timestamp_ms - self.impact.halt_ms()
        } else {
            0
        }
    }

    /// When the halt ends.
    pub open spec fn halt_end(self) -> int {
        self.timestamp_ms + self.impact.halt_ms() / 2
    }

    /// Whether the event is still to come within `window` of `now`.
    pub open spec fn upcoming(self, now: u64, window: u64) -> bool {
        now <= self.timestamp_ms <= now + window && !self.processed
    }

    /// Whether the event is critical and still to come after `now`.
    pub open spec fn critical_after(self, now: u64) -> bool {
        self.timestamp_ms > now && self.impact == ImpactLevel::Critical && !self.processed
    }

    /// An event with the impact of its kind and without figures.
    pub fn new(
        event_type: EventType,
        timestamp_ms: u64,
        description: String,
        currency: String,
    ) -> (e: Self)
        ensures
            e == (MacroEvent::<F> {
                event_type,
                timestamp_ms,
                impact: event_type.usual_impact(),
                description,
                currency,
                actual: None,
                forecast: None,
                previous: None,
                processed: false,
            }),
    {
        let impact = event_type.default_impact();
        MacroEvent {
            event_type,
            timestamp_ms,
            impact,
            description,
            currency,
            actual: None,
            forecast: None,
            previous: None,
            processed: false,
        }
    }

    /// Whether trading halts around the event.
    pub fn requires_halt(&self) -> (r: bool)
        ensures
            r == self.halts(),
    {
        match self.impact {
            ImpactLevel::Low => false,
            _ => true,
        }
    }

    /// When the halt begins.
    pub fn halt_start_ms(&self) -> (ms: u64)
        ensures
            ms == self.halt_start(),
    {
        self.timestamp_ms.saturating_sub(self.impact.halt_duration_ms())
    }

    /// When the halt ends.
    pub fn halt_end_ms(&self) -> (ms: u64)
        requires
            self.halt_end() <= u64::MAX,
        ensures
            ms == self.halt_end(),
    {
        self.timestamp_ms + self.impact.halt_duration_ms() / 2
    }
}

/// Events with those of one kind and time marked as processed.
pub open spec fn with_processed<F>(
    s: Seq<MacroEvent<F>>,
    event_type: EventType,
    timestamp_ms: u64,
) -> Seq<MacroEvent<F>> {
    Seq::new(
        s.len(),
        |i: int|
            if s[i].event_type == event_type && s[i].timestamp_ms == timestamp_ms {
                MacroEvent { processed: true, ..s[i] }
            } else {
                s[i]
            },
    )
}

/// A halt, and its end, once an event was scheduled at `now`.
pub open spec fn halt_after<F>(halt: (bool, u64), e: MacroEvent<F>, now: u64) -> (bool, u64) {
    if e.halts() && e.halt_start() <= now {
        (true, e.halt_end() as u64)
    } else {
        halt
    }
}

/// A halt, and its end, once events were scheduled at `times`.
pub open spec fn halt_after_all<F>(
    halt: (bool, u64),
    s: Seq<MacroEvent<F>>,
    times: Seq<u64>,
) -> (bool, u64)
    decreases s.len(),
{
    if s.len() == 0 {
        halt
    } else {
        halt_after(
            halt_after_all(halt, s.drop_last(), times),
            s.last(),
            times[s.len() - 1],
        )
    }
}

proof fn lemma_halt_after_push<F>(
    halt: (bool, u64),
    s: Seq<MacroEvent<F>>,
    times: Seq<u64>,
    now: u64,
)
    requires
        s.len() <= times.len(),
    ensures
        halt_after_all(halt, s, times.push(now)) == halt_after_all(halt, s, times),
    decreases s.len(),
{
    if s.len() > 0 {
        lemma_halt_after_push(halt, s.drop_last(), times, now);
    }
}

/// Whether an event is critical.
pub open spec fn is_critical<F>(e: MacroEvent<F>) -> bool {
    e.impact == ImpactLevel::Critical
}

/// Whether the event at `i` is the first of the earliest critical events after
/// `now`.
pub open spec fn is_next_critical<F>(s: Seq<MacroEvent<F>>, now: u64, i: int) -> bool {
    &&& 0 <= i < s.len()
    &&& s[i].critical_after(now)
    &&& forall|j: int|
        0 <= j < s.len() && (#[trigger] s[j]).critical_after(now) ==> s[i].timestamp_ms
            <= s[j].timestamp_ms && (j < i ==> s[i].timestamp_ms < s[j].timestamp_ms)
}

/// Whether `r` is the first of the earliest critical events after `now`, or
/// nothing where there is none.
pub open spec fn next_critical_found<F>(
    s: Seq<MacroEvent<F>>,
    now: u64,
    r: Option<MacroEvent<F>>,
) -> bool {
    match r {
        Some(e) => exists|i: int| #[trigger] is_next_critical(s, now, i) && e == s[i],
        None => forall|i: int| 0 <= i < s.len() ==> !(#[trigger] s[i]).critical_after(now),
    }
}

/// A reference's target.
pub open spec fn pointee<T>(r: Option<&T>) -> Option<T> {
    match r {
        Some(x) => Some(*x),
        None => None,
    }
}

/// The events in `s` still to come within `window` of `now`.
pub open spec fn upcoming_events<F>(s: Seq<MacroEvent<F>>, now: u64, window: u64) -> Seq<
    MacroEvent<F>,
>
    decreases s.len(),
{
    if s.len() == 0 {
        Seq::empty()
    } else if s.last().upcoming(now, window) {
        upcoming_events(s.drop_last(), now, window).push(s.last())
    } else {
        upcoming_events(s.drop_last(), now, window)
    }
}

/// What risk management sees at one time.
#[derive(Debug, Clone, Copy, PartialEq, Eq, Structural)]
pub struct RiskStatus {
    pub is_risk_off: bool,
    pub halt_end_ms: u64,
    pub volatility_spike: bool,
    pub seconds_until_resume: u32,
}

impl RiskStatus {
    /// Whether trading has to stop.
    pub fn should_halt_trading(&self) -> (r: bool)
        ensures
            r == (self.is_risk_off || self.volatility_spike),
    {
        self.is_risk_off || self.volatility_spike
    }
}

/// Calendar of the newest events, with the halt in force.
#[derive(Debug, Clone)]
pub struct EventCalendar<F> {
    pub events: Vec<MacroEvent<F>>,
    pub capacity: usize,
    pub risk_off_active: bool,
    pub current_halt_end_ms: u64,
    pub volatility_spike_pending: bool,
    pub subscribed_currencies: Vec<String>,
}

impl<F> EventCalendar<F> {
    /// No more events than the capacity are held.
    pub open spec fn wf(&self) -> bool {
        self.events@.len() <= self.capacity
    }

    /// Whether the halt in force is over at `now`.
    pub open spec fn halt_over(&self, now: u64) -> bool {
        now >= self.current_halt_end_ms && self.current_halt_end_ms > 0
    }

    /// What risk management sees at `now`.
    pub open spec fn status_at(&self, now: u64) -> RiskStatus {
        RiskStatus {
            is_risk_off: self.risk_off_active && !self.halt_over(now),
            halt_end_ms: self.current_halt_end_ms,
            volatility_spike: self.volatility_spike_pending,
            seconds_until_resume: if self.current_halt_end_ms > now {
                ((self.current_halt_end_ms - now) / 1000) as u32
            } else {
                0
            },
        }
    }

    /// Whether `self` is `before` once `event` was scheduled at `now`.
    pub open spec fn scheduled(&self, before: Self, event: MacroEvent<F>, now: u64) -> bool {
        &&& self.events@ == newest(before.events@.push(event), before.capacity as nat)
        &&& (self.risk_off_active, self.current_halt_end_ms) == halt_after(
            (before.risk_off_active, before.current_halt_end_ms),
            event,
            now,
        )
        &&& self.volatility_spike_pending == (before.volatility_spike_pending || is_critical(event))
        &&& self.capacity == before.capacity
        &&& self.subscribed_currencies == before.subscribed_currencies
    }

    /// An empty calendar for `capacity` events, following the dollar and the euro.
    pub fn new(capacity: usize) -> (c: Self)
        ensures
            c.wf(),
            c.events@.len() == 0,
            c.capacity == capacity,
            !c.risk_off_active,
            c.current_halt_end_ms == 0,
            !c.volatility_spike_pending,
            views(c.subscribed_currencies@) == seq!["USD"@, "EUR"@],
    {
        let mut subscribed_currencies: Vec<String> = Vec::new();
        subscribed_currencies.push("USD".to_string());
        subscribed_currencies.push("EUR".to_string());
        assert(views(subscribed_currencies@) =~= seq!["USD"@, "EUR"@]);
        EventCalendar {
            events: Vec::new(),
            capacity,
            risk_off_active: false,
            current_halt_end_ms: 0,
            volatility_spike_pending: false,
            subscribed_currencies,
        }
    }

    /// Schedules an event at `now`; the oldest makes room for it. Trading halts
    /// at once where the event's halt has begun, and a critical event announces
    /// a volatility spike.
    pub fn schedule_event_at(&mut self, event: MacroEvent<F>, now: u64)
        requires
            old(self).wf(),
            old(self).capacity > 0,
            event.halts() && event.halt_start() <= now ==> event.halt_end() <= u64::MAX,
        ensures
            final(self).wf(),
            final(self).scheduled(*old(self), event, now),
    {
        if event.requires_halt() {
            if event.halt_start_ms() <= now {
                let end: u64 = event.halt_end_ms();
                self.activate_risk_off(end);
            }
        }
        if event.impact == ImpactLevel::Critical {
            self.volatility_spike_pending = true;
        }
        let ghost all = self.events@.push(event);
        if self.events.len() == self.capacity {
            self.events.remove(0);
        }
        self.events.push(event);
        assert(self.events@ =~= newest(all, self.capacity as nat));
    }

    /// Schedules an event; the oldest makes room for it.
    pub fn schedule_event(&mut self, event: MacroEvent<F>)
        requires
            old(self).wf(),
            old(self).capacity > 0,
            event.halt_end() <= u64::MAX,
        ensures
            final(self).wf(),
            exists|now: u64| #[trigger] final(self).scheduled(*old(self), event, now),
    {
        let now: u64 = now_ms();
        self.schedule_event_at(event, now);
        assert(self.scheduled(*old(self), event, now));
    }

    /// Ends the halt where it is over at `now`, and tells what risk management
    /// sees.
    pub fn update_risk_status_at(&mut self, now: u64) -> (r: RiskStatus)
        ensures
            r == old(self).status_at(now),
            *final(self) == (EventCalendar {
                risk_off_active: old(self).risk_off_active && !old(self).halt_over(now),
                ..*old(self)
            }),
    {
        let halt_end: u64 = self.current_halt_end_ms;
        if now >= halt_end && halt_end > 0 {
            self.risk_off_active = false;
        }
        RiskStatus {
            is_risk_off: self.risk_off_active,
            halt_end_ms: halt_end,
            volatility_spike: self.volatility_spike_pending,
            seconds_until_resume: if halt_end > now {
                ((halt_end - now) / 1000) as u32
            } else {
                0
            },
        }
    }

    /// Ends the halt where it is over, and tells what risk management sees.
    pub fn update_risk_status(&mut self) -> (r: RiskStatus)
        ensures
            exists|now: u64| r == #[trigger] old(self).status_at(now),
            *final(self) == (EventCalendar { risk_off_active: r.is_risk_off, ..*old(self) }),
    {
        let now: u64 = now_ms();
        self.update_risk_status_at(now)
    }

    fn activate_risk_off(&mut self, end_ms: u64)
        ensures
            *final(self) == (EventCalendar {
                current_halt_end_ms: end_ms,
                risk_off_active: true,
                ..*old(self)
            }),
    {
        self.current_halt_end_ms = end_ms;
        self.risk_off_active = true;
    }

    /// The events still to come within `window_ms` of `now`, oldest entry first.
    pub fn get_upcoming_events_at(&self, window_ms: u64, now: u64) -> (r: Vec<&MacroEvent<F>>)
        ensures
            r@.unref() == upcoming_events(self.events@, now, window_ms),
    {
        let cutoff: u64 = now.saturating_add(window_ms);
        let mut r: Vec<&MacroEvent<F>> = Vec::new();
        let ghost all = self.events@;
        let mut i: usize = 0;
        assert(r@.unref() =~= Seq::empty());
        while i < self.events.len()
            invariant
                i <= self.events@.len(),
                all == self.events@,
                cutoff == (if now + window_ms <= u64::MAX {
                    now + window_ms
                } else {
                    u64::MAX as int
                }),
                r@.unref() == upcoming_events(all.take(i as int), now, window_ms),
            decreases self.events@.len() - i,
        {
            let ghost before = r@.unref();
            let e = &self.events[i];
            assert(all.take(i + 1).drop_last() =~= all.take(i as int));
            if e.timestamp_ms >= now && e.timestamp_ms <= cutoff && !e.processed {
                r.push(e);
                assert(r@.unref() =~= before.push(all[i as int]));
            }
            i += 1;
        }
        assert(all.take(all.len() as int) =~= all);
        r
    }

    /// The events still to come within `window_ms`, oldest entry first.
    pub fn get_upcoming_events(&self, window_ms: u64) -> (r: Vec<&MacroEvent<F>>)
        ensures
            exists|now: u64|
                r@.unref() == #[trigger] upcoming_events(self.events@, now, window_ms),
    {
        let now: u64 = now_ms();
        self.get_upcoming_events_at(window_ms, now)
    }

    /// The earliest critical event after `now`, and of equals the first entry.
    pub fn get_next_critical_event_at(&self, now: u64) -> (r: Option<&MacroEvent<F>>)
        ensures
            next_critical_found(self.events@, now, pointee(r)),
    {
        let mut found: Option<usize> = None;
        let ghost all = self.events@;
        let mut i: usize = 0;
        while i < self.events.len()
            invariant
                i <= self.events@.len(),
                all == self.events@,
                found is None ==> forall|j: int|
                    0 <= j < i ==> !(#[trigger] all[j]).critical_after(now),
                found is Some ==> found->0 < i && is_next_critical(
                    all.take(i as int),
                    now,
                    found->0 as int,
                ),
            decreases self.events@.len() - i,
        {
            let e = &self.events[i];
            if e.timestamp_ms > now && e.impact == ImpactLevel::Critical && !e.processed {
                let better = match found {
                    Some(k) => e.timestamp_ms < self.events[k].timestamp_ms,
                    None => true,
                };
                if better {
                    found = Some(i);
                }
            }
            proof {
                let s = all.take(i + 1);
                if found is Some {
                    let k = found->0 as int;
                    assert(s[k] == all[k]);
                    assert forall|j: int|
                        0 <= j < s.len() && (#[trigger] s[j]).critical_after(
                            now,
                        ) implies s[k].timestamp_ms <= s[j].timestamp_ms && (j < k
                        ==> s[k].timestamp_ms < s[j].timestamp_ms) by {
                        assert(s[j] == all[j]);
                        if j < i {
                            assert(all.take(i as int)[j] == all[j]);
                        }
                    }
                }
            }
            i += 1;
        }
        assert(all.take(all.len() as int) =~= all);
        match found {
            Some(k) => {
                assert(is_next_critical(self.events@, now, k as int));
                Some(&self.events[k])
            },
            None => None,
        }
    }

    /// The earliest critical event still to come.
    pub fn get_next_critical_event(&self) -> (r: Option<&MacroEvent<F>>)
        ensures
            exists|now: u64| #[trigger] next_critical_found(self.events@, now, pointee(r)),
    {
        let now: u64 = now_ms();
        self.get_next_critical_event_at(now)
    }

    /// Marks the events of a kind and time as processed; a critical kind ends
    /// the volatility spike.
    pub fn mark_processed(&mut self, event_type: EventType, timestamp_ms: u64)
        requires
            old(self).wf(),
        ensures
            final(self).wf(),
            final(self).events@ == with_processed(old(self).events@, event_type, timestamp_ms),
            final(self).volatility_spike_pending == (old(self).volatility_spike_pending
                && event_type.usual_impact() != ImpactLevel::Critical),
            final(self).capacity == old(self).capacity,
            final(self).risk_off_active == old(self).risk_off_active,
            final(self).current_halt_end_ms == old(self).current_halt_end_ms,
            final(self).subscribed_currencies == old(self).subscribed_currencies,
    {
        if event_type.default_impact() == ImpactLevel::Critical {
            self.volatility_spike_pending = false;
        }
        let ghost marked = with_processed(self.events@, event_type, timestamp_ms);
        let ghost flag = self.volatility_spike_pending;
        let mut i: usize = 0;
        while i < self.events.len()
            invariant
                i <= self.events@.len(),
                self.events@.len() == old(self).events@.len(),
                marked == with_processed(old(self).events@, event_type, timestamp_ms),
                forall|k: int| 0 <= k < i ==> self.events@[k] == marked[k],
                forall|k: int|
                    i <= k < self.events@.len() ==> self.events@[k] == old(self).events@[k],
                self.volatility_spike_pending == flag,
                self.capacity == old(self).capacity,
                self.risk_off_active == old(self).risk_off_active,
                self.current_halt_end_ms == old(self).current_halt_end_ms,
                self.subscribed_currencies == old(self).subscribed_currencies,
            decreases self.events@.len() - i,
        {
            if self.events[i].event_type == event_type && self.events[i].timestamp_ms
                == timestamp_ms {
                let e = &mut self.events[i];
                e.processed = true;
            }
            i += 1;
        }
        assert(self.events@ =~= marked);
    }

    /// Ends the volatility spike.
    pub fn clear_volatility_spike(&mut self)
        ensures
            *final(self) == (EventCalendar { volatility_spike_pending: false, ..*old(self) }),
    {
        self.volatility_spike_pending = false;
    }

    /// Follows a currency, once.
    pub fn subscribe_currency(&mut self, currency: String)
        ensures
            views(final(self).subscribed_currencies@) == (if views(
                old(self).subscribed_currencies@,
            ).contains(currency@) {
                views(old(self).subscribed_currencies@)
            } else {
                views(old(self).subscribed_currencies@).push(currency@)
            }),
            final(self).events == old(self).events,
            final(self).capacity == old(self).capacity,
            final(self).risk_off_active == old(self).risk_off_active,
            final(self).current_halt_end_ms == old(self).current_halt_end_ms,
            final(self).volatility_spike_pending == old(self).volatility_spike_pending,
    {
        let mut i: usize = 0;
        while i < self.subscribed_currencies.len()
            invariant
                i <= self.subscribed_currencies@.len(),
                *self == *old(self),
                forall|k: int|
                    0 <= k < i ==> views(self.subscribed_currencies@)[k] != currency@,
            decreases self.subscribed_currencies@.len() - i,
        {
            if same(self.subscribed_currencies[i].as_str(), currency.as_str()) {
                assert(views(self.subscribed_currencies@)[i as int] == currency@);
                return;
            }
            i += 1;
        }
        let ghost before = views(self.subscribed_currencies@);
        self.subscribed_currencies.push(currency);
        assert(views(self.subscribed_currencies@) =~= before.push(currency@));
    }
}

/// A halt never outlasts its end, and it does not end before.
pub proof fn law_halt_lasts_until_end<F>(c: EventCalendar<F>, now: u64)
    requires
        c.risk_off_active,
        c.current_halt_end_ms > 0,
    ensures
        c.status_at(now).is_risk_off <==> now < c.current_halt_end_ms,
{
}

/// An event scheduled while its halt runs stops trading until the halt's end.
pub proof fn law_late_event_halts<F>(
    before: EventCalendar<F>,
    after: EventCalendar<F>,
    event: MacroEvent<F>,
    now: u64,
)
    requires
        after.scheduled(before, event, now),
        event.halts(),
        event.halt_start() <= now < event.halt_end() <= u64::MAX,
    ensures
        after.status_at(now).is_risk_off,
        after.status_at(now).halt_end_ms == event.halt_end(),
{
}

/// A processed event is no longer upcoming.
pub proof fn law_processed_not_upcoming<F>(
    s: Seq<MacroEvent<F>>,
    event_type: EventType,
    timestamp_ms: u64,
    now: u64,
    window: u64,
    i: int,
)
    requires
        0 <= i < s.len(),
        s[i].event_type == event_type,
        s[i].timestamp_ms == timestamp_ms,
    ensures
        !with_processed(s, event_type, timestamp_ms)[i].upcoming(now, window),
        !with_processed(s, event_type, timestamp_ms)[i].critical_after(now),
{
}

/// Collects events for a calendar.
#[derive(Debug, Clone)]
pub struct CalendarBuilder<F> {
    pub events: Vec<MacroEvent<F>>,
}

/// Whether `e` is an event of a kind at a time, with the given texts and no
/// figures.
pub open spec fn is_plain_event<F>(
    e: MacroEvent<F>,
    event_type: EventType,
    timestamp_ms: u64,
    description: Seq<char>,
    currency: Seq<char>,
) -> bool {
    &&& e.event_type == event_type
    &&& e.timestamp_ms == timestamp_ms
    &&& e.impact == event_type.usual_impact()
    &&& e.description@ == description
    &&& e.currency@ == currency
    &&& e.actual is None
    &&& e.forecast is None
    &&& e.previous is None
    &&& !e.processed
}

impl<F> CalendarBuilder<F> {
    /// A builder without events.
    pub fn new() -> (b: Self)
        ensures
            b.events@.len() == 0,
    {
        CalendarBuilder { events: Vec::new() }
    }

    /// Adds a payrolls release.
    pub fn add_nfp(&mut self, date_ms: u64) -> (r: &mut Self)
        ensures
            r.events@.len() == old(self).events@.len() + 1,
            r.events@.drop_last() == old(self).events@,
            is_plain_event(
                r.events@.last(),
                EventType::NonFarmPayrolls,
                date_ms,
                "Non-Farm Payrolls"@,
                "USD"@,
            ),
            *final(self) == *final(r),
    {
        self.events.push(
            MacroEvent::new(
                EventType::NonFarmPayrolls,
                date_ms,
                "Non-Farm Payrolls".to_string(),
                "USD".to_string(),
            ),
        );
        assert(self.events@.drop_last() =~= old(self).events@);
        self
    }

    /// Adds a rate decision.
    pub fn add_fomc(&mut self, date_ms: u64) -> (r: &mut Self)
        ensures
            r.events@.len() == old(self).events@.len() + 1,
            r.events@.drop_last() == old(self).events@,
            is_plain_event(
                r.events@.last(),
                EventType::FOMCDecision,
                date_ms,
                "FOMC Rate Decision"@,
                "USD"@,
            ),
            *final(self) == *final(r),
    {
        self.events.push(
            MacroEvent::new(
                EventType::FOMCDecision,
                date_ms,
                "FOMC Rate Decision".to_string(),
                "USD".to_string(),
            ),
        );
        assert(self.events@.drop_last() =~= old(self).events@);
        self
    }

    /// Adds a consumer price release.
    pub fn add_cpi(&mut self, date_ms: u64) -> (r: &mut Self)
        ensures
            r.events@.len() == old(self).events@.len() + 1,
            r.events@.drop_last() == old(self).events@,
            is_plain_event(
                r.events@.last(),
                EventType::CPIRelease,
                date_ms,
                "Consumer Price Index"@,
                "USD"@,
            ),
            *final(self) == *final(r),
    {
        self.events.push(
            MacroEvent::new(
                EventType::CPIRelease,
                date_ms,
                "Consumer Price Index".to_string(),
                "USD".to_string(),
            ),
        );
        assert(self.events@.drop_last() =~= old(self).events@);
        self
    }

    /// Schedules the events, first added first.
    pub fn build(self, calendar: &mut EventCalendar<F>)
        requires
            old(calendar).wf(),
            old(calendar).capacity > 0,
            forall|i: int|
                0 <= i < self.events@.len() ==> (#[trigger] self.events@[i]).halt_end() <= u64::MAX,
        ensures
            final(calendar).wf(),
            final(calendar).events@ == newest(
                old(calendar).events@ + self.events@,
                old(calendar).capacity as nat,
            ),
            final(calendar).volatility_spike_pending <==> old(calendar).volatility_spike_pending
                || exists|i: int|
                0 <= i < self.events@.len() && #[trigger] is_critical(self.events@[i]),
            exists|times: Seq<u64>|
                times.len() == self.events@.len() && (
                final(calendar).risk_off_active,
                final(calendar).current_halt_end_ms,
                ) == #[trigger] halt_after_all(
                    (old(calendar).risk_off_active, old(calendar).current_halt_end_ms),
                    self.events@,
                    times,
                ),
            final(calendar).capacity == old(calendar).capacity,
            final(calendar).subscribed_currencies == old(calendar).subscribed_currencies,
    {
        let ghost all = self.events@;
        let ghost start = *calendar;
        let ghost halt = (start.risk_off_active, start.current_halt_end_ms);
        let ghost mut times: Seq<u64> = Seq::empty();
        let mut rest = self.events;
        let ghost mut done: int = 0;
        assert(rest@ =~= all.skip(0));
        assert(all.take(0) =~= Seq::empty());
        assert(newest(start.events@ + all.take(0), start.capacity as nat) =~= start.events@);
        while rest.len() > 0
            invariant
                0 <= done <= all.len(),
                rest@ == all.skip(done),
                times.len() == done,
                calendar.wf(),
                calendar.capacity > 0,
                calendar.capacity == start.capacity,
                calendar.subscribed_currencies == start.subscribed_currencies,
                calendar.events@ == newest(start.events@ + all.take(done), start.capacity as nat),
                calendar.volatility_spike_pending <==> start.volatility_spike_pending
                    || exists|i: int| 0 <= i < done && #[trigger] is_critical(all[i]),
                (calendar.risk_off_active, calendar.current_halt_end_ms) == halt_after_all(
                    halt,
                    all.take(done),
                    times,
                ),
                forall|i: int|
                    0 <= i < all.len() ==> (#[trigger] all[i]).halt_end() <= u64::MAX,
            decreases rest@.len(),
        {
            let event = rest.remove(0);
            assert(event == all[done]);
            let ghost before = *calendar;
            calendar.schedule_event(event);
            proof {
                let now = choose|now: u64| #[trigger] calendar.scheduled(before, event, now);
                assert(all.take(done + 1).drop_last() =~= all.take(done));
                assert(all.take(done + 1).last() == event);
                lemma_halt_after_push(halt, all.take(done), times, now);
                assert(start.events@ + all.take(done + 1) =~= (start.events@ + all.take(
                    done,
                )).push(event));
                lemma_newest_push(
                    start.events@ + all.take(done),
                    start.capacity as nat,
                    event,
                );
                assert(is_critical(all[done]) == is_critical(event));
                times = times.push(now);
                assert(rest@ =~= all.skip(done + 1));
                done = done + 1;
            }
        }
        assert(all.take(done) =~= all);
    }
}

} // verus!
