//! The router above the venues: symbols, order formats and the choice of a
//! venue.

use vstd::prelude::*;
use crate::base::amount::{plain_text, Amount};
use crate::base::clock::now_ns;
use crate::base::table::Table;
use crate::base::text::{
    contains, contains_part, decimal, push_decimal, replace_char, uppercase, uppercase_text,
    with_replaced,
};

verus! {

/// Side of an order.
#[derive(Debug, Clone, Copy, PartialEq, Eq, Hash, Structural)]
pub enum UnifiedSide {
    Buy,
    Sell,
}

/// Type of an order.
#[derive(Debug, Clone, Copy, PartialEq, Eq, Hash, Structural)]
pub enum UnifiedOrderType {
    Market,
    Limit,
    StopLimit,
    StopMarket,
}

/// How long an order stays in force.
#[derive(Debug, Clone, Copy, PartialEq, Eq, Hash, Structural)]
pub enum UnifiedTimeInForce {
    /// Good till cancelled.
    GTC,
    /// Immediate or cancel.
    IOC,
    /// Fill or kill.
    FOK,
    /// Good till a date.
    GTD,
    Day,
}

/// An exchange.
#[derive(Debug, Clone, Copy, PartialEq, Eq, Hash, Structural)]
pub enum Venue {
    Binance,
    Bybit,
    OKX,
}

impl Venue {
    /// The name of a venue.
    pub open spec fn name(self) -> Seq<char> {
        match self {
            Venue::Binance => "binance"@,
            Venue::Bybit => "bybit"@,
            Venue::OKX => "okx"@,
        }
    }

    /// The name of this venue.
    pub fn as_str(&self) -> (s: &'static str)
        ensures
            s@ == self.name(),
    {
        match self {
            Venue::Binance => "binance",
            Venue::Bybit => "bybit",
            Venue::OKX => "okx",
        }
    }
}

/// An order for any venue.
#[derive(Debug, Clone)]
pub struct UnifiedOrder {
    pub client_order_id: String,
    pub symbol: String,
    pub venue: Venue,
    pub side: UnifiedSide,
    pub order_type: UnifiedOrderType,
    pub quantity: Amount,
    pub price: Option<Amount>,
    pub stop_price: Option<Amount>,
    pub time_in_force: UnifiedTimeInForce,
    pub reduce_only: bool,
    /// When the order was made, in nanoseconds.
    pub timestamp_ns: u64,
}

/// A venue's answer to an order.
#[derive(Debug, Clone)]
pub struct UnifiedOrderResponse {
    pub client_order_id: String,
    pub venue_order_id: String,
    pub venue: Venue,
    pub status: UnifiedOrderStatus,
    pub filled_quantity: Amount,
    pub average_price: Option<Amount>,
    pub timestamp_ns: u64,
}

/// Status of an order.
#[derive(Debug, Clone, Copy, PartialEq, Eq, Structural)]
pub enum UnifiedOrderStatus {
    PendingNew,
    New,
    PartiallyFilled,
    Filled,
    Rejected,
    Canceled,
    Expired,
}

/// An order in a venue's own format.
#[derive(Debug, Clone)]
pub enum VenueOrder {
    Binance(BinanceOrder),
    Bybit(BybitOrder),
    OKX(OKXOrder),
}

/// An order in Binance's format.
#[derive(Debug, Clone)]
pub struct BinanceOrder {
    pub symbol: String,
    pub side: String,
    pub order_type: String,
    pub time_in_force: Option<String>,
    pub quantity: String,
    pub price: Option<String>,
    pub new_client_order_id: String,
    pub reduce_only: Option<bool>,
}

/// An order in Bybit's format.
#[derive(Debug, Clone)]
pub struct BybitOrder {
    pub category: String,
    pub symbol: String,
    pub side: String,
    pub order_type: String,
    pub qty: String,
    pub price: Option<String>,
    pub time_in_force: String,
    pub order_id: Option<String>,
    pub reduce_only: Option<bool>,
}

/// An order in OKX's format.
#[derive(Debug, Clone)]
pub struct OKXOrder {
    pub inst_id: String,
    pub td_mode: String,
    pub side: String,
    pub ord_type: String,
    pub sz: String,
    pub px: Option<String>,
    pub cl_ord_id: Option<String>,
}

/// Settings of the router.
#[derive(Debug, Clone, Copy, PartialEq, Eq, Structural)]
pub struct RouterConfig {
    pub default_venue: Venue,
    pub smart_routing_enabled: bool,
    pub latency_threshold_us: u64,
    pub fee_optimization_enabled: bool,
}

impl Default for RouterConfig {
    fn default() -> (c: Self)
        ensures
            c.default_venue == Venue::Binance,
            c.smart_routing_enabled,
            c.latency_threshold_us == 100,
            !c.fee_optimization_enabled,
    {
        RouterConfig {
            default_venue: Venue::Binance,
            smart_routing_enabled: true,
            latency_threshold_us: 100,
            fee_optimization_enabled: false,
        }
    }
}

/// What is known of a venue.
#[derive(Debug, Clone, Copy, PartialEq, Eq, Structural)]
pub struct VenueStats {
    pub latency_us: u64,
    /// Between zero and one.
    pub success_rate: Amount,
    pub maker_fee: Amount,
    pub taker_fee: Amount,
    pub last_update_ns: u64,
}

impl VenueStats {
    /// Those of a venue of which nothing is known.
    pub open spec fn unknown() -> Self {
        VenueStats {
            latency_us: 0,
            success_rate: Amount { units: 0 },
            maker_fee: Amount { units: 0 },
            taker_fee: Amount { units: 0 },
            last_update_ns: 0,
        }
    }
}

impl Default for VenueStats {
    fn default() -> (s: Self)
        ensures
            s == VenueStats::unknown(),
    {
        VenueStats {
            latency_us: 0,
            success_rate: Amount::zero(),
            maker_fee: Amount::zero(),
            taker_fee: Amount::zero(),
            last_update_ns: 0,
        }
    }
}

impl VenueStats {
    /// What speaks against a venue, in hundred-millionths: its latency and,
    /// where fees count, a thousand times its fee.
    pub open spec fn score(self, fees_count: bool) -> int {
        self.latency_us * 100_000_000 + (if fees_count {
            self.taker_fee.units * 1000
        } else {
            0
        })
    }

    fn score_of(&self, fees_count: bool) -> (s: i128)
        ensures
            s == self.score(fees_count),
    {
        let fee: i128 = if fees_count {
            self.taker_fee.units as i128 * 1000
        } else {
            0
        };
        self.latency_us as i128 * 100_000_000 + fee
    }

    /// What is known once a request took `latency_us`: each figure keeps nine
    /// tenths of what it was.
    pub open spec fn updated(self, latency_us: u64, success: bool, now: u64) -> Self {
        VenueStats {
            latency_us: ((self.latency_us * 9 + latency_us) / 10) as u64,
            success_rate: Amount {
                units: ((self.success_rate.units * 9 + (if success {
                    100_000_000int
                } else {
                    0
                })) / 10) as i64,
            },
            last_update_ns: now,
            ..self
        }
    }
}

/// A venue's own symbols for one symbol.
#[derive(Debug, Clone)]
pub struct VenueSymbols {
    pub binance: Option<String>,
    pub bybit: Option<String>,
    pub okx: Option<String>,
}

impl VenueSymbols {
    /// The symbol at a venue, where one is registered.
    pub open spec fn at(self, venue: Venue) -> Option<Seq<char>> {
        let s = match venue {
            Venue::Binance => self.binance,
            Venue::Bybit => self.bybit,
            Venue::OKX => self.okx,
        };
        match s {
            Some(t) => Some(t@),
            None => None,
        }
    }

    fn set(&mut self, venue: Venue, symbol: String)
        ensures
            final(self).at(venue) == Some(symbol@),
            forall|v: Venue| v != venue ==> #[trigger] final(self).at(v) == old(self).at(v),
    {
        match venue {
            Venue::Binance => {
                self.binance = Some(symbol);
            },
            Venue::Bybit => {
                self.bybit = Some(symbol);
            },
            Venue::OKX => {
                self.okx = Some(symbol);
            },
        }
    }

    fn get(&self, venue: Venue) -> (r: Option<String>)
        ensures
            r is Some <==> self.at(venue) is Some,
            r matches Some(s) ==> self.at(venue) == Some(s@),
    {
        match venue {
            Venue::Binance => match &self.binance {
                Some(s) => Some(s.clone()),
                None => None,
            },
            Venue::Bybit => match &self.bybit {
                Some(s) => Some(s.clone()),
                None => None,
            },
            Venue::OKX => match &self.okx {
                Some(s) => Some(s.clone()),
                None => None,
            },
        }
    }
}

/// The symbol registered for a venue, where there is one.
pub open spec fn registered_symbol(
    m: Map<Seq<char>, VenueSymbols>,
    symbol: Seq<char>,
    venue: Venue,
) -> Option<Seq<char>> {
    if m.contains_key(symbol) {
        m[symbol].at(venue)
    } else {
        None
    }
}

/// The symbol at a venue where none is registered.
pub open spec fn default_symbol(symbol: Seq<char>, venue: Venue) -> Seq<char> {
    match venue {
        Venue::OKX => with_replaced(symbol, '/', '-'),
        _ => uppercase_text(symbol),
    }
}

/// Bybit's category of a symbol.
pub open spec fn bybit_category(symbol: Seq<char>) -> Seq<char> {
    if contains_part(symbol, "USDT"@) && !contains_part(symbol, "PERP"@) {
        "linear"@
    } else if contains_part(symbol, "2"@) {
        "option"@
    } else {
        "spot"@
    }
}

/// The notation of an optional price.
pub open spec fn price_text(p: Option<Amount>) -> Option<Seq<char>> {
    match p {
        Some(a) => Some(plain_text(a.units as int)),
        None => None,
    }
}

/// The view of an optional text.
pub open spec fn optional_view(s: Option<String>) -> Option<Seq<char>> {
    match s {
        Some(t) => Some(t@),
        None => None,
    }
}

/// A reduce-only flag is sent only where it is set.
pub open spec fn flag(b: bool) -> Option<bool> {
    if b {
        Some(true)
    } else {
        None
    }
}

/// Binance's order type and time in force.
pub open spec fn binance_type(o: UnifiedOrder) -> (Seq<char>, Option<Seq<char>>) {
    match o.order_type {
        UnifiedOrderType::Market => ("MARKET"@, None),
        UnifiedOrderType::Limit => (
            "LIMIT"@,
            Some(
                match o.time_in_force {
                    UnifiedTimeInForce::GTC => "GTC"@,
                    UnifiedTimeInForce::IOC => "IOC"@,
                    UnifiedTimeInForce::FOK => "FOK"@,
                    UnifiedTimeInForce::Day => "DAY"@,
                    UnifiedTimeInForce::GTD => "GTC"@,
                },
            ),
        ),
        UnifiedOrderType::StopLimit => ("STOP_LOSS_LIMIT"@, Some("GTC"@)),
        UnifiedOrderType::StopMarket => ("STOP_LOSS"@, Some("GTC"@)),
    }
}

/// Whether an order in Binance's format says what an order for any venue says.
pub open spec fn is_binance_order(o: UnifiedOrder, symbol: Seq<char>, b: BinanceOrder) -> bool {
    &&& b.symbol@ == symbol
    &&& b.side@ == (if o.side == UnifiedSide::Buy {
        "BUY"@
    } else {
        "SELL"@
    })
    &&& b.order_type@ == binance_type(o).0
    &&& optional_view(b.time_in_force) == binance_type(o).1
    &&& b.quantity@ == plain_text(o.quantity.units as int)
    &&& optional_view(b.price) == price_text(o.price)
    &&& b.new_client_order_id@ == o.client_order_id@
    &&& b.reduce_only == flag(o.reduce_only)
}

/// Whether an order in Bybit's format says what an order for any venue says.
pub open spec fn is_bybit_order(o: UnifiedOrder, symbol: Seq<char>, b: BybitOrder) -> bool {
    &&& b.category@ == bybit_category(symbol)
    &&& b.symbol@ == symbol
    &&& b.side@ == (if o.side == UnifiedSide::Buy {
        "Buy"@
    } else {
        "Sell"@
    })
    &&& b.order_type@ == (if o.order_type == UnifiedOrderType::Market {
        "Market"@
    } else {
        "Limit"@
    })
    &&& b.qty@ == plain_text(o.quantity.units as int)
    &&& optional_view(b.price) == price_text(o.price)
    &&& b.time_in_force@ == (match o.time_in_force {
        UnifiedTimeInForce::IOC => "ImmediateOrCancel"@,
        UnifiedTimeInForce::FOK => "FillOrKill"@,
        _ => "GoodTillCancel"@,
    })
    &&& optional_view(b.order_id) == Some(o.client_order_id@)
    &&& b.reduce_only == flag(o.reduce_only)
}

/// Whether an order in OKX's format says what an order for any venue says.
pub open spec fn is_okx_order(o: UnifiedOrder, symbol: Seq<char>, b: OKXOrder) -> bool {
    &&& b.inst_id@ == symbol
    &&& b.td_mode@ == (if o.reduce_only {
        "isolated_margin"@
    } else {
        "cash"@
    })
    &&& b.side@ == (if o.side == UnifiedSide::Buy {
        "buy"@
    } else {
        "sell"@
    })
    &&& b.ord_type@ == (match o.order_type {
        UnifiedOrderType::Market => "market"@,
        UnifiedOrderType::Limit => "limit"@,
        UnifiedOrderType::StopLimit => "limit"@,
        UnifiedOrderType::StopMarket => "market"@,
    })
    &&& b.sz@ == plain_text(o.quantity.units as int)
    &&& optional_view(b.px) == price_text(o.price)
    &&& optional_view(b.cl_ord_id) == Some(o.client_order_id@)
}

fn price_string(p: Option<Amount>) -> (r: Option<String>)
    ensures
        optional_view(r) == price_text(p),
{
    match p {
        Some(a) => Some(a.to_plain_text()),
        None => None,
    }
}

fn flag_of(b: bool) -> (r: Option<bool>)
    ensures
        r == flag(b),
{
    if b {
        Some(true)
    } else {
        None
    }
}

/// Routes orders to venues.
pub struct UnifiedRouter {
    pub config: RouterConfig,
    pub binance_stats: VenueStats,
    pub bybit_stats: VenueStats,
    pub okx_stats: VenueStats,
    pub symbol_mappings: Table<VenueSymbols>,
    pub sequence_counter: u64,
}

impl UnifiedRouter {
    /// No symbol is mapped twice.
    pub open spec fn wf(&self) -> bool {
        self.symbol_mappings.wf()
    }

    /// What is known of a venue.
    pub open spec fn stats(&self, venue: Venue) -> VenueStats {
        match venue {
            Venue::Binance => self.binance_stats,
            Venue::Bybit => self.bybit_stats,
            Venue::OKX => self.okx_stats,
        }
    }

    /// A router that knows nothing of the venues yet.
    pub fn new(config: RouterConfig) -> (r: Self)
        ensures
            r.wf(),
            r.config == config,
            forall|v: Venue| #[trigger] r.stats(v) == VenueStats::unknown(),
            r.symbol_mappings@ == Map::<Seq<char>, VenueSymbols>::empty(),
            r.sequence_counter == 0,
    {
        UnifiedRouter {
            config,
            binance_stats: VenueStats::default(),
            bybit_stats: VenueStats::default(),
            okx_stats: VenueStats::default(),
            symbol_mappings: Table::new(),
            sequence_counter: 0,
        }
    }

    /// A new identifier: a prefix and the next number.
    pub fn generate_client_order_id(&mut self, prefix: &str) -> (id: String)
        requires
            old(self).sequence_counter < u64::MAX,
        ensures
            id@ == prefix@ + decimal((old(self).sequence_counter + 1) as nat),
            *final(self) == (UnifiedRouter {
                sequence_counter: (old(self).sequence_counter + 1) as u64,
                ..*old(self)
            }),
    {
        self.sequence_counter = self.sequence_counter + 1;
        let mut id = prefix.to_owned();
        push_decimal(&mut id, self.sequence_counter);
        id
    }

    /// Registers a venue's own symbol.
    pub fn register_symbol_mapping(&mut self, base_symbol: &str, venue: Venue, venue_symbol: &str)
        requires
            old(self).wf(),
        ensures
            final(self).wf(),
            forall|s: Seq<char>, v: Venue| #[trigger]
                registered_symbol(final(self).symbol_mappings@, s, v) == (if s == base_symbol@ && v
                    == venue {
                    Some(venue_symbol@)
                } else {
                    registered_symbol(old(self).symbol_mappings@, s, v)
                }),
            *final(self) == (UnifiedRouter {
                symbol_mappings: final(self).symbol_mappings,
                ..*old(self)
            }),
    {
        let mut entry = match self.symbol_mappings.remove(base_symbol) {
            Some(e) => e,
            None => VenueSymbols { binance: None, bybit: None, okx: None },
        };
        entry.set(venue, venue_symbol.to_owned());
        let _ = self.symbol_mappings.insert(base_symbol.to_owned(), entry);
    }

    /// The symbol at a venue: the registered one, or the default.
    pub open spec fn venue_symbol(&self, symbol: Seq<char>, venue: Venue) -> Seq<char> {
        match registered_symbol(self.symbol_mappings@, symbol, venue) {
            Some(s) => s,
            None => default_symbol(symbol, venue),
        }
    }

    /// The symbol at a venue.
    pub fn get_venue_symbol(&self, base_symbol: &str, venue: Venue) -> (r: String)
        requires
            self.wf(),
        ensures
            r@ == self.venue_symbol(base_symbol@, venue),
    {
        if let Some(entry) = self.symbol_mappings.get(base_symbol) {
            if let Some(s) = entry.get(venue) {
                return s;
            }
        }
        match venue {
            Venue::Binance => uppercase(base_symbol),
            Venue::Bybit => uppercase(base_symbol),
            Venue::OKX => replace_char(base_symbol, '/', '-'),
        }
    }

    /// Whether an order is another in the words of its venue.
    pub open spec fn translates(&self, order: UnifiedOrder, r: VenueOrder) -> bool {
        let symbol = self.venue_symbol(order.symbol@, order.venue);
        match order.venue {
            Venue::Binance => r matches VenueOrder::Binance(b) && is_binance_order(
                order,
                symbol,
                b,
            ),
            Venue::Bybit => r matches VenueOrder::Bybit(b) && is_bybit_order(order, symbol, b),
            Venue::OKX => r matches VenueOrder::OKX(b) && is_okx_order(order, symbol, b),
        }
    }

    /// An order in the format of its venue.
    pub fn translate_order(&self, order: &UnifiedOrder) -> (r: VenueOrder)
        requires
            self.wf(),
        ensures
            self.translates(*order, r),
    {
        let symbol = self.get_venue_symbol(order.symbol.as_str(), order.venue);
        match order.venue {
            Venue::Binance => VenueOrder::Binance(
                Self::translate_to_binance(order, symbol.as_str()),
            ),
            Venue::Bybit => VenueOrder::Bybit(Self::translate_to_bybit(order, symbol.as_str())),
            Venue::OKX => VenueOrder::OKX(Self::translate_to_okx(order, symbol.as_str())),
        }
    }

    fn translate_to_binance(order: &UnifiedOrder, symbol: &str) -> (r: BinanceOrder)
        ensures
            is_binance_order(*order, symbol@, r),
    {
        let (order_type, time_in_force) = match order.order_type {
            UnifiedOrderType::Market => ("MARKET".to_owned(), None),
            UnifiedOrderType::Limit => (
                "LIMIT".to_owned(),
                Some(
                    match order.time_in_force {
                        UnifiedTimeInForce::GTC => "GTC".to_owned(),
                        UnifiedTimeInForce::IOC => "IOC".to_owned(),
                        UnifiedTimeInForce::FOK => "FOK".to_owned(),
                        UnifiedTimeInForce::Day => "DAY".to_owned(),
                        UnifiedTimeInForce::GTD => "GTC".to_owned(),
                    },
                ),
            ),
            UnifiedOrderType::StopLimit => ("STOP_LOSS_LIMIT".to_owned(), Some("GTC".to_owned())),
            UnifiedOrderType::StopMarket => ("STOP_LOSS".to_owned(), Some("GTC".to_owned())),
        };
        BinanceOrder {
            symbol: symbol.to_owned(),
            side: match order.side {
                UnifiedSide::Buy => "BUY".to_owned(),
                UnifiedSide::Sell => "SELL".to_owned(),
            },
            order_type,
            time_in_force,
            quantity: order.quantity.to_plain_text(),
            price: price_string(order.price),
            new_client_order_id: order.client_order_id.clone(),
            reduce_only: flag_of(order.reduce_only),
        }
    }

    fn translate_to_bybit(order: &UnifiedOrder, symbol: &str) -> (r: BybitOrder)
        ensures
            is_bybit_order(*order, symbol@, r),
    {
        let category = if contains(symbol, "USDT") && !contains(symbol, "PERP") {
            "linear"
        } else if contains(symbol, "2") {
            "option"
        } else {
            "spot"
        };
        BybitOrder {
            category: category.to_owned(),
            symbol: symbol.to_owned(),
            side: match order.side {
                UnifiedSide::Buy => "Buy".to_owned(),
                UnifiedSide::Sell => "Sell".to_owned(),
            },
            order_type: match order.order_type {
                UnifiedOrderType::Market => "Market".to_owned(),
                _ => "Limit".to_owned(),
            },
            qty: order.quantity.to_plain_text(),
            price: price_string(order.price),
            time_in_force: match order.time_in_force {
                UnifiedTimeInForce::GTC => "GoodTillCancel".to_owned(),
                UnifiedTimeInForce::IOC => "ImmediateOrCancel".to_owned(),
                UnifiedTimeInForce::FOK => "FillOrKill".to_owned(),
                _ => "GoodTillCancel".to_owned(),
            },
            order_id: Some(order.client_order_id.clone()),
            reduce_only: flag_of(order.reduce_only),
        }
    }

    fn translate_to_okx(order: &UnifiedOrder, symbol: &str) -> (r: OKXOrder)
        ensures
            is_okx_order(*order, symbol@, r),
    {
        OKXOrder {
            inst_id: symbol.to_owned(),
            td_mode: if order.reduce_only {
                "isolated_margin".to_owned()
            } else {
                "cash".to_owned()
            },
            side: match order.side {
                UnifiedSide::Buy => "buy".to_owned(),
                UnifiedSide::Sell => "sell".to_owned(),
            },
            ord_type: match order.order_type {
                UnifiedOrderType::Market => "market".to_owned(),
                UnifiedOrderType::Limit => "limit".to_owned(),
                UnifiedOrderType::StopLimit => "limit".to_owned(),
                UnifiedOrderType::StopMarket => "market".to_owned(),
            },
            sz: order.quantity.to_plain_text(),
            px: price_string(order.price),
            cl_ord_id: Some(order.client_order_id.clone()),
        }
    }

    /// A venue's score.
    pub open spec fn score(&self, venue: Venue) -> int {
        self.stats(venue).score(self.config.fee_optimization_enabled)
    }

    /// Whether a venue is the one to send an order to: the default one where
    /// venues are not compared, and otherwise the one with the lowest score, the
    /// first where several have it.
    pub open spec fn picks(&self, r: Venue) -> bool {
        &&& !self.config.smart_routing_enabled ==> r == self.config.default_venue
        &&& self.config.smart_routing_enabled ==> {
            &&& forall|v: Venue| self.score(r) <= #[trigger] self.score(v)
            &&& r == Venue::Bybit ==> self.score(r) < self.score(Venue::Binance)
            &&& r == Venue::OKX ==> self.score(r) < self.score(Venue::Binance) && self.score(r)
                < self.score(Venue::Bybit)
        }
    }

    /// The venue with the lowest score, where venues are compared: among equals
    /// the first of Binance, Bybit and OKX. Else the default venue.
    pub fn select_best_venue(&self, symbol: &str) -> (r: Venue)
        ensures
            self.picks(r),
    {
        if !self.config.smart_routing_enabled {
            return self.config.default_venue;
        }
        let fees: bool = self.config.fee_optimization_enabled;
        let mut best = Venue::Binance;
        let mut score: i128 = self.binance_stats.score_of(fees);
        let bybit: i128 = self.bybit_stats.score_of(fees);
        if bybit < score {
            best = Venue::Bybit;
            score = bybit;
        }
        let okx: i128 = self.okx_stats.score_of(fees);
        if okx < score {
            best = Venue::OKX;
        }
        best
    }

    /// Takes in how a request went at `now`.
    pub fn update_venue_stats_at(&mut self, venue: Venue, latency_us: u64, success: bool, now: u64)
        ensures
            final(self).stats(venue) == old(self).stats(venue).updated(latency_us, success, now),
            forall|v: Venue| v != venue ==> #[trigger] final(self).stats(v) == old(self).stats(v),
            final(self).config == old(self).config,
            final(self).symbol_mappings == old(self).symbol_mappings,
            final(self).sequence_counter == old(self).sequence_counter,
    {
        let before = match venue {
            Venue::Binance => self.binance_stats,
            Venue::Bybit => self.bybit_stats,
            Venue::OKX => self.okx_stats,
        };
        let latency: u64 = ((before.latency_us as u128 * 9 + latency_us as u128) / 10) as u64;
        let hit: i128 = if success { 100_000_000 } else { 0 };
        let sum: i128 = before.success_rate.units as i128 * 9 + hit;
        let units: i64 = if sum >= 0 {
            (sum / 10) as i64
        } else {
            (-((-sum + 9) / 10)) as i64
        };
        let after = VenueStats {
            latency_us: latency,
            success_rate: Amount { units },
            last_update_ns: now,
            ..before
        };
        match venue {
            Venue::Binance => {
                self.binance_stats = after;
            },
            Venue::Bybit => {
                self.bybit_stats = after;
            },
            Venue::OKX => {
                self.okx_stats = after;
            },
        }
    }

    /// Takes in how a request went.
    pub fn update_venue_stats(&mut self, venue: Venue, latency_us: u64, success: bool)
        ensures
            exists|now: u64|
                final(self).stats(venue) == #[trigger] old(self).stats(venue).updated(
                    latency_us,
                    success,
                    now,
                ),
            forall|v: Venue| v != venue ==> #[trigger] final(self).stats(v) == old(self).stats(v),
            final(self).config == old(self).config,
            final(self).symbol_mappings == old(self).symbol_mappings,
            final(self).sequence_counter == old(self).sequence_counter,
    {
        let now: u64 = now_ns();
        self.update_venue_stats_at(venue, latency_us, success, now);
    }

    /// The venue of an order: the wanted one; without one Binance, or the default
    /// venue where venues are not compared.
    pub open spec fn venue_or(&self, venue: Option<Venue>) -> Venue {
        match venue {
            Some(v) => v,
            None => if self.config.smart_routing_enabled {
                Venue::Binance
            } else {
                self.config.default_venue
            },
        }
    }

    /// Makes an order. Without a venue it goes to Binance, or to the default
    /// venue where venues are not compared.
    pub fn create_order(
        &mut self,
        symbol: &str,
        side: UnifiedSide,
        order_type: UnifiedOrderType,
        quantity: Amount,
        price: Option<Amount>,
        venue: Option<Venue>,
    ) -> (o: UnifiedOrder)
        requires
            old(self).sequence_counter < u64::MAX,
        ensures
            o.client_order_id@ == "ORD"@ + decimal((old(self).sequence_counter + 1) as nat),
            o.symbol@ == symbol@,
            o.venue == old(self).venue_or(venue),
            o.side == side,
            o.order_type == order_type,
            o.quantity == quantity,
            o.price == price,
            o.stop_price is None,
            o.time_in_force == UnifiedTimeInForce::GTC,
            !o.reduce_only,
            *final(self) == (UnifiedRouter {
                sequence_counter: (old(self).sequence_counter + 1) as u64,
                ..*old(self)
            }),
    {
        let selected = match venue {
            Some(v) => v,
            None => {
                if self.config.smart_routing_enabled {
                    Venue::Binance
                } else {
                    self.config.default_venue
                }
            },
        };
        UnifiedOrder {
            client_order_id: self.generate_client_order_id("ORD"),
            symbol: symbol.to_owned(),
            venue: selected,
            side,
            order_type,
            quantity,
            price,
            stop_price: None,
            time_in_force: UnifiedTimeInForce::GTC,
            reduce_only: false,
            timestamp_ns: now_ns(),
        }
    }
}

} // verus!
