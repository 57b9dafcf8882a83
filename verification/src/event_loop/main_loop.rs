//! The main event loop: what happens to an event, to a signal and to an order,
//! step by step. Polling, strategies, risk checks and dispatching are done by
//! the loop's owner, who reports their outcomes.

use vstd::prelude::*;

verus! {

/// What an event is about.
#[derive(Debug, Clone, Copy, PartialEq, Eq, Structural)]
pub enum EventType {
    Tick,
    Signal,
    OrderFill,
    RiskUpdate,
    Heartbeat,
}

impl EventType {
    /// The number that stands for an event type.
    pub open spec fn code(self) -> u8 {
        match self {
            EventType::Tick => 0,
            EventType::Signal => 1,
            EventType::OrderFill => 2,
            EventType::RiskUpdate => 3,
            EventType::Heartbeat => 4,
        }
    }

    /// The number that stands for this event type.
    pub fn to_code(self) -> (c: u8)
        ensures
            c == self.code(),
    {
        match self {
            EventType::Tick => 0,
            EventType::Signal => 1,
            EventType::OrderFill => 2,
            EventType::RiskUpdate => 3,
            EventType::Heartbeat => 4,
        }
    }
}

/// An event.
#[derive(Debug, Clone, Copy, PartialEq, Eq, Structural)]
pub struct Event {
    pub event_type: u8,
    pub symbol_id: u32,
    pub timestamp_ns: u64,
    pub price_ticks: i64,
    pub quantity: i64,
    pub flags: u32,
}

impl Event {
    /// An event without price and quantity.
    pub fn new(event_type: EventType, symbol_id: u32, timestamp_ns: u64) -> (e: Self)
        ensures
            e == (Event {
                event_type: event_type.code(),
                symbol_id,
                timestamp_ns,
                price_ticks: 0,
                quantity: 0,
                flags: 0,
            }),
    {
        Event {
            event_type: event_type.to_code(),
            symbol_id,
            timestamp_ns,
            price_ticks: 0,
            quantity: 0,
            flags: 0,
        }
    }
}

/// The outcome of a risk check.
#[derive(Debug, Clone, Copy, PartialEq, Eq, Structural)]
pub enum RiskCheckResult {
    Pass,
    FailExposureLimit,
    FailPositionLimit,
    FailRateLimit,
    FailMarginRequirement,
}

/// What a strategy asks for.
#[derive(Debug, Clone, Copy, PartialEq, Eq, Structural)]
pub struct StrategySignal {
    pub symbol_id: u32,
    /// One to buy, minus one to sell, zero to stay flat.
    pub side: i8,
    pub quantity: i64,
    /// In basis points.
    pub confidence: u16,
    pub timestamp_ns: u64,
}

/// The outcome of an order.
#[derive(Debug, Clone, Copy, PartialEq, Eq, Structural)]
pub struct OrderDispatch {
    pub order_id: u64,
    pub symbol_id: u32,
    pub filled: bool,
    pub fill_price_ticks: i64,
    pub fill_quantity: i64,
    pub latency_ns: u64,
}

/// Counters of the loop.
#[derive(Debug, Clone, Copy, PartialEq, Eq, Structural)]
pub struct EventLoopState {
    pub tick_count: u64,
    pub signal_count: u64,
    pub order_count: u64,
    /// When the last heartbeat was, in microseconds.
    pub last_heartbeat: u64,
    pub is_running: bool,
    pub total_latency_ns: u64,
}

impl EventLoopState {
    /// Counters at zero.
    pub fn new() -> (s: Self)
        ensures
            s == (EventLoopState {
                tick_count: 0,
                signal_count: 0,
                order_count: 0,
                last_heartbeat: 0,
                is_running: false,
                total_latency_ns: 0,
            }),
    {
        EventLoopState {
            tick_count: 0,
            signal_count: 0,
            order_count: 0,
            last_heartbeat: 0,
            is_running: false,
            total_latency_ns: 0,
        }
    }

    /// Counts a tick.
    pub fn record_tick(&mut self)
        ensures
            *final(self) == (EventLoopState {
                tick_count: old(self).tick_count.wrapping_add(1),
                ..*old(self)
            }),
    {
        self.tick_count = self.tick_count.wrapping_add(1);
    }

    /// Counts a signal.
    pub fn record_signal(&mut self)
        ensures
            *final(self) == (EventLoopState {
                signal_count: old(self).signal_count.wrapping_add(1),
                ..*old(self)
            }),
    {
        self.signal_count = self.signal_count.wrapping_add(1);
    }

    /// Counts an order.
    pub fn record_order(&mut self)
        ensures
            *final(self) == (EventLoopState {
                order_count: old(self).order_count.wrapping_add(1),
                ..*old(self)
            }),
    {
        self.order_count = self.order_count.wrapping_add(1);
    }

    /// Adds a latency.
    pub fn record_latency(&mut self, latency_ns: u64)
        ensures
            *final(self) == (EventLoopState {
                total_latency_ns: old(self).total_latency_ns.wrapping_add(latency_ns),
                ..*old(self)
            }),
    {
        self.total_latency_ns = self.total_latency_ns.wrapping_add(latency_ns);
    }
}

impl Default for EventLoopState {
    fn default() -> (s: Self)
        ensures
            s.tick_count == 0,
            s.signal_count == 0,
            s.order_count == 0,
            s.last_heartbeat == 0,
            !s.is_running,
            s.total_latency_ns == 0,
    {
        EventLoopState::new()
    }
}

/// Settings of the loop.
#[derive(Debug, Clone, Copy, PartialEq, Eq, Structural)]
pub struct EventLoopConfig {
    pub max_ticks_per_batch: usize,
    pub risk_check_interval_ticks: u64,
    pub heartbeat_interval_ms: u64,
    pub max_order_latency_ns: u64,
}

impl Default for EventLoopConfig {
    fn default() -> (c: Self)
        ensures
            c.max_ticks_per_batch == 1024,
            c.risk_check_interval_ticks == 100,
            c.heartbeat_interval_ms == 1000,
            c.max_order_latency_ns == 1_000_000,
    {
        EventLoopConfig {
            max_ticks_per_batch: 1024,
            risk_check_interval_ticks: 100,
            heartbeat_interval_ms: 1000,
            max_order_latency_ns: 1_000_000,
        }
    }
}

/// What the loop's owner is to do with a signal.
#[derive(Debug, Clone, Copy, PartialEq, Eq, Structural)]
pub enum SignalAction {
    /// There is no signal.
    Nothing,
    /// Ask for a risk check of the signal, and report its outcome.
    CheckRisk,
}

/// The main event loop.
pub struct MainEventLoop {
    pub config: EventLoopConfig,
    pub state: EventLoopState,
    pub event_buffer: Vec<Event>,
    /// Turns of the loop since the last heartbeat.
    pub heartbeat_counter: u64,
}

impl EventLoopState {
    /// The counters once an event has come, with a signal or without.
    pub open spec fn after_event(self, signal: bool) -> Self {
        EventLoopState {
            tick_count: self.tick_count.wrapping_add(1),
            signal_count: if signal {
                self.signal_count.wrapping_add(1)
            } else {
                self.signal_count
            },
            ..self
        }
    }

    /// The counters once an order has come back.
    pub open spec fn after_dispatch(self, filled: bool, latency_ns: u64) -> Self {
        EventLoopState {
            order_count: if filled {
                self.order_count.wrapping_add(1)
            } else {
                self.order_count
            },
            total_latency_ns: self.total_latency_ns.wrapping_add(latency_ns),
            ..self
        }
    }

    /// The counters once a whole event has been worked off. An order goes out
    /// only for a signal that passed its risk check.
    pub open spec fn after_turn(self, turn: EventTurn) -> Self {
        let come = self.after_event(turn.signal is Some);
        let dispatched = if turn.signal is Some && turn.risk == RiskCheckResult::Pass {
            come.after_dispatch(turn.dispatch.filled, turn.order_latency_ns)
        } else {
            come
        };
        EventLoopState {
            total_latency_ns: dispatched.total_latency_ns.wrapping_add(turn.event_latency_ns),
            ..dispatched
        }
    }
}

/// Everything that came back for one event. The risk result counts only where
/// there is a signal, the dispatch only where the order was sent.
#[derive(Debug, Clone, Copy, PartialEq, Eq, Structural)]
pub struct EventTurn {
    pub signal: Option<StrategySignal>,
    pub risk: RiskCheckResult,
    pub dispatch: OrderDispatch,
    pub order_latency_ns: u64,
    pub event_latency_ns: u64,
}

/// One pass through the loop: the event that was polled, if any, and the time
/// at its end.
#[derive(Debug, Clone, Copy, PartialEq, Eq, Structural)]
pub struct LoopPass {
    pub event: Option<EventTurn>,
    /// In microseconds.
    pub now_us: u64,
}

impl MainEventLoop {
    /// The loop at the end of a pass: a heartbeat is noted every so many passes.
    pub open spec fn pass_ended(self, now_us: u64) -> Self {
        if self.heartbeat_counter + 1 >= self.config.heartbeat_interval_ms {
            MainEventLoop {
                state: (EventLoopState { last_heartbeat: now_us, ..self.state }),
                heartbeat_counter: 0,
                ..self
            }
        } else {
            MainEventLoop { heartbeat_counter: (self.heartbeat_counter + 1) as u64, ..self }
        }
    }

    /// The loop after one pass.
    pub open spec fn after_pass(self, pass: LoopPass) -> Self {
        match pass.event {
            Some(turn) => MainEventLoop { state: self.state.after_turn(turn), ..self },
            None => self,
        }.pass_ended(pass.now_us)
    }

    /// The loop after passes one after the other.
    pub open spec fn after_passes(self, passes: Seq<LoopPass>) -> Self
        decreases passes.len(),
    {
        if passes.len() == 0 {
            self
        } else {
            self.after_passes(passes.drop_last()).after_pass(passes.last())
        }
    }

    /// The loop once it has started.
    pub open spec fn started(self) -> Self {
        MainEventLoop {
            state: (EventLoopState { is_running: true, ..self.state }),
            heartbeat_counter: 0,
            ..self
        }
    }

    /// The loop once it has stopped.
    pub open spec fn stopped(self) -> Self {
        MainEventLoop { state: (EventLoopState { is_running: false, ..self.state }), ..self }
    }

    /// A loop that has not started.
    pub fn new(config: EventLoopConfig) -> (l: Self)
        ensures
            l.config == config,
            l.state.tick_count == 0,
            l.state.signal_count == 0,
            l.state.order_count == 0,
            l.state.last_heartbeat == 0,
            !l.state.is_running,
            l.state.total_latency_ns == 0,
            l.event_buffer@.len() == 0,
            l.heartbeat_counter == 0,
    {
        MainEventLoop {
            config,
            state: EventLoopState::new(),
            event_buffer: Vec::with_capacity(config.max_ticks_per_batch),
            heartbeat_counter: 0,
        }
    }

    /// Starts the loop.
    pub fn start(&mut self)
        ensures
            *final(self) == old(self).started(),
    {
        self.state.is_running = true;
        self.heartbeat_counter = 0;
    }

    /// Takes in an event and the signal that the strategy made of it. Every
    /// signal has to pass a risk check before an order goes out for it.
    pub fn on_event(&mut self, signal: Option<StrategySignal>) -> (a: SignalAction)
        ensures
            *final(self) == (MainEventLoop {
                state: old(self).state.after_event(signal is Some),
                ..*old(self)
            }),
            a == (if signal is None {
                SignalAction::Nothing
            } else {
                SignalAction::CheckRisk
            }),
    {
        self.state.record_tick();
        if signal.is_none() {
            return SignalAction::Nothing;
        }
        self.state.record_signal();
        SignalAction::CheckRisk
    }

    /// Whether an order goes out after a risk check.
    pub fn on_risk(&self, risk: RiskCheckResult) -> (dispatch: bool)
        ensures
            dispatch == (risk == RiskCheckResult::Pass),
    {
        risk == RiskCheckResult::Pass
    }

    /// Takes in the outcome of an order. Tells whether a filled one took too
    /// long.
    pub fn on_dispatch(&mut self, dispatch: &OrderDispatch, latency_ns: u64) -> (slow: bool)
        ensures
            *final(self) == (MainEventLoop {
                state: old(self).state.after_dispatch(dispatch.filled, latency_ns),
                ..*old(self)
            }),
            slow == (dispatch.filled && latency_ns > old(self).config.max_order_latency_ns),
    {
        let mut slow = false;
        if dispatch.filled {
            self.state.record_order();
            slow = latency_ns > self.config.max_order_latency_ns;
        }
        self.state.record_latency(latency_ns);
        slow
    }

    /// Works off an event, given everything that comes back for it.
    pub fn process_turn(&mut self, turn: &EventTurn)
        ensures
            *final(self) == (MainEventLoop {
                state: old(self).state.after_turn(*turn),
                ..*old(self)
            }),
    {
        let go = match self.on_event(turn.signal) {
            SignalAction::Nothing => false,
            SignalAction::CheckRisk => self.on_risk(turn.risk),
        };
        if go {
            let _ = self.on_dispatch(&turn.dispatch, turn.order_latency_ns);
        }
        self.state.record_latency(turn.event_latency_ns);
    }

    /// Ends a pass of the loop at `now_us`. A heartbeat is noted every so many
    /// passes. Tells whether it was.
    pub fn end_turn(&mut self, now_us: u64) -> (beat: bool)
        requires
            old(self).heartbeat_counter < u64::MAX,
        ensures
            beat == (old(self).heartbeat_counter + 1 >= old(self).config.heartbeat_interval_ms),
            *final(self) == old(self).pass_ended(now_us),
    {
        self.heartbeat_counter = self.heartbeat_counter + 1;
        if self.heartbeat_counter >= self.config.heartbeat_interval_ms {
            self.state.last_heartbeat = now_us;
            self.heartbeat_counter = 0;
            true
        } else {
            false
        }
    }

    /// Starts, goes through passes one after the other, and stops.
    pub fn run(&mut self, passes: &Vec<LoopPass>)
        ensures
            *final(self) == old(self).started().after_passes(passes@).stopped(),
    {
        self.start();
        let ghost begun = *self;
        let mut i: usize = 0;
        assert(passes@.take(0) =~= Seq::<LoopPass>::empty());
        while i < passes.len()
            invariant
                i <= passes@.len(),
                *self == begun.after_passes(passes@.take(i as int)),
                self.heartbeat_counter == 0 || self.heartbeat_counter
                    < self.config.heartbeat_interval_ms,
            decreases passes@.len() - i,
        {
            assert(passes@.take(i + 1).drop_last() =~= passes@.take(i as int));
            if let Some(turn) = &passes[i].event {
                self.process_turn(turn);
            }
            let _ = self.end_turn(passes[i].now_us);
            i += 1;
        }
        assert(passes@.take(passes@.len() as int) =~= passes@);
        self.stop();
    }

    /// Ends the loop.
    pub fn stop(&mut self)
        ensures
            *final(self) == old(self).stopped(),
    {
        self.state.is_running = false;
    }
}

/// The events of passes, in order.
pub open spec fn events_of(passes: Seq<LoopPass>) -> Seq<EventTurn>
    decreases passes.len(),
{
    if passes.len() == 0 {
        Seq::empty()
    } else {
        match passes.last().event {
            Some(turn) => events_of(passes.drop_last()).push(turn),
            None => events_of(passes.drop_last()),
        }
    }
}

/// How many of the events brought a signal.
pub open spec fn signals_in(turns: Seq<EventTurn>) -> nat
    decreases turns.len(),
{
    if turns.len() == 0 {
        0
    } else {
        signals_in(turns.drop_last()) + if turns.last().signal is Some {
            1nat
        } else {
            0
        }
    }
}

/// How many of the events brought a signal that passed its check and whose
/// order filled.
pub open spec fn passed_fills(turns: Seq<EventTurn>) -> nat
    decreases turns.len(),
{
    if turns.len() == 0 {
        0
    } else {
        passed_fills(turns.drop_last()) + if turns.last().signal is Some && turns.last().risk
            == RiskCheckResult::Pass && turns.last().dispatch.filled {
            1nat
        } else {
            0
        }
    }
}

proof fn lemma_event_counts(passes: Seq<LoopPass>)
    ensures
        passed_fills(events_of(passes)) <= signals_in(events_of(passes)) <= events_of(passes).len()
            <= passes.len(),
    decreases passes.len(),
{
    if passes.len() > 0 {
        lemma_event_counts(passes.drop_last());
        if let Some(turn) = passes.last().event {
            let before = events_of(passes.drop_last());
            assert(before.push(turn).drop_last() =~= before);
        }
    }
}

/// Over passes through the loop, ticks grow by the number of events, signals by
/// those that brought one, and orders by those whose signal passed its risk
/// check and whose order filled.
pub proof fn law_counts(l: MainEventLoop, passes: Seq<LoopPass>)
    requires
        l.state.tick_count + passes.len() <= u64::MAX,
        l.state.signal_count + passes.len() <= u64::MAX,
        l.state.order_count + passes.len() <= u64::MAX,
    ensures
        l.after_passes(passes).state.tick_count == l.state.tick_count + events_of(passes).len(),
        l.after_passes(passes).state.signal_count == l.state.signal_count + signals_in(
            events_of(passes),
        ),
        l.after_passes(passes).state.order_count == l.state.order_count + passed_fills(
            events_of(passes),
        ),
    decreases passes.len(),
{
    if passes.len() > 0 {
        law_counts(l, passes.drop_last());
        lemma_event_counts(passes.drop_last());
        if let Some(turn) = passes.last().event {
            let before = events_of(passes.drop_last());
            assert(before.push(turn).drop_last() =~= before);
        }
    }
}

/// Where every event brings a signal, every check passes and every order
/// fills, there are as many signals and orders as events.
pub proof fn law_every_signal_filled(turns: Seq<EventTurn>)
    requires
        forall|i: int| 0 <= i < turns.len() ==> (#[trigger] turns[i]).signal is Some
            && turns[i].risk == RiskCheckResult::Pass && turns[i].dispatch.filled,
    ensures
        signals_in(turns) == turns.len(),
        passed_fills(turns) == turns.len(),
    decreases turns.len(),
{
    if turns.len() > 0 {
        assert forall|i: int| 0 <= i < turns.drop_last().len() implies (
        #[trigger] turns.drop_last()[i]).signal is Some && turns.drop_last()[i].risk
            == RiskCheckResult::Pass && turns.drop_last()[i].dispatch.filled by {
            assert(turns.drop_last()[i] == turns[i]);
        }
        law_every_signal_filled(turns.drop_last());
        assert(turns[turns.len() - 1].signal is Some);
    }
}

/// A failed risk check lets no order out.
pub proof fn law_failed_check_stops_order(s: EventLoopState, turn: EventTurn)
    requires
        turn.risk != RiskCheckResult::Pass,
    ensures
        s.after_turn(turn).order_count == s.order_count,
{
}

} // verus!
