//! The lifecycle of orders at the exchange: what was sent, what the exchange
//! reports of it, and where the two differ.

use vstd::prelude::*;
use crate::base::amount::{distance, Amount};
use crate::base::clock::{now_ms, now_ns};
use crate::base::table::{
    distinct_keys, entry_map, index_of, lemma_entry, lemma_index_of, lemma_remove, lemma_update,
    Table,
};
use crate::base::text::{same, views};

verus! {

/// Status of an order at the exchange.
#[derive(Debug, Clone, Copy, PartialEq, Eq, Structural)]
pub enum BinanceOrderStatus {
    New,
    PartiallyFilled,
    Filled,
    Canceled,
    PendingCancel,
    Rejected,
    Expired,
}

/// Side of an order.
#[derive(Debug, Clone, Copy, PartialEq, Eq, Structural)]
pub enum BinanceOrderSide {
    Buy,
    Sell,
}

/// Type of an order.
#[derive(Debug, Clone, Copy, PartialEq, Eq, Structural)]
pub enum BinanceOrderType {
    Limit,
    Market,
    StopLoss,
    StopLossLimit,
    TakeProfit,
    TakeProfitLimit,
}

/// How long an order stays in force.
#[derive(Debug, Clone, Copy, PartialEq, Eq, Structural)]
pub enum BinanceTimeInForce {
    /// Good till cancelled.
    GTC,
    /// Immediate or cancel.
    IOC,
    /// Fill or kill.
    FOK,
    /// Post only.
    GTX,
}

/// Why the exchange reports on an order.
#[derive(Debug, Clone, Copy, PartialEq, Eq, Structural)]
pub enum OrderUpdateReason {
    PlacementNew,
    Canceled,
    Replaced,
    Triggered,
    Expired,
    Trade,
}

/// A report of the exchange on an order.
#[derive(Debug, Clone)]
pub struct BinanceOrderUpdate {
    pub symbol: String,
    pub order_id: u64,
    pub client_order_id: String,
    pub side: BinanceOrderSide,
    pub order_type: BinanceOrderType,
    pub time_in_force: BinanceTimeInForce,
    pub quantity: Amount,
    pub price: Amount,
    pub stop_price: Option<Amount>,
    pub executed_qty: Amount,
    pub cummulative_quote_qty: Amount,
    pub average_price: Amount,
    pub status: BinanceOrderStatus,
    pub update_reason: OrderUpdateReason,
    pub timestamp_ms: u64,
    pub last_executed_qty: Amount,
    pub last_executed_price: Amount,
}

/// What is known locally of an order.
#[derive(Debug, Clone)]
pub struct LocalOrderState {
    pub client_order_id: String,
    pub symbol: String,
    pub side: BinanceOrderSide,
    pub quantity: Amount,
    pub filled_quantity: Amount,
    pub average_price: Amount,
    pub status: BinanceOrderStatus,
    pub created_at_ns: u64,
    pub updated_at_ns: u64,
    pub fill_count: u32,
}

/// What the state of an order holds.
pub struct OrderModel {
    pub client_order_id: Seq<char>,
    pub symbol: Seq<char>,
    pub side: BinanceOrderSide,
    pub quantity: Amount,
    pub filled_quantity: Amount,
    pub average_price: Amount,
    pub status: BinanceOrderStatus,
    pub created_at_ns: u64,
    pub updated_at_ns: u64,
    pub fill_count: u32,
}

impl View for LocalOrderState {
    type V = OrderModel;

    open spec fn view(&self) -> OrderModel {
        OrderModel {
            client_order_id: self.client_order_id@,
            symbol: self.symbol@,
            side: self.side,
            quantity: self.quantity,
            filled_quantity: self.filled_quantity,
            average_price: self.average_price,
            status: self.status,
            created_at_ns: self.created_at_ns,
            updated_at_ns: self.updated_at_ns,
            fill_count: self.fill_count,
        }
    }
}

/// The outcome of comparing an order's two states.
#[derive(Debug, Clone)]
pub struct ReconciliationResult {
    pub matched: bool,
    pub discrepancy_type: Option<DiscrepancyType>,
    pub local_state: Option<LocalOrderState>,
    pub exchange_state: Option<BinanceOrderUpdate>,
    pub action_required: ReconciliationAction,
}

/// In what the two states of an order differ.
#[derive(Debug, Clone, Copy, PartialEq, Eq, Structural)]
pub enum DiscrepancyType {
    QuantityMismatch,
    StatusMismatch,
    PriceMismatch,
    MissingLocal,
    MissingExchange,
}

/// What a difference asks for.
#[derive(Debug, Clone, Copy, PartialEq, Eq, Structural)]
pub enum ReconciliationAction {
    NoAction,
    UpdateLocal,
    CancelOrphan,
    Resubmit,
    Alert,
}

/// The outcome of processing a report.
#[derive(Debug, Clone)]
pub struct OrderProcessingResult {
    pub success: bool,
    pub error: Option<String>,
    pub discrepancy: Option<DiscrepancyType>,
}

/// Counters of the day.
#[derive(Debug, Clone, Copy, PartialEq, Eq, Structural)]
pub struct DailyOrderStats {
    pub orders_placed: u64,
    pub fills_received: u64,
    pub pending_orders: u64,
    pub active_orders: u64,
}

/// Filled quantities this many units apart still count as equal.
pub const FILL_TOLERANCE: i64 = 10_000;

/// An order of which nothing is filled yet.
pub open spec fn new_order(
    client_order_id: Seq<char>,
    symbol: Seq<char>,
    side: BinanceOrderSide,
    quantity: Amount,
    now: u64,
) -> OrderModel {
    OrderModel {
        client_order_id,
        symbol,
        side,
        quantity,
        filled_quantity: Amount { units: 0 },
        average_price: Amount { units: 0 },
        status: BinanceOrderStatus::New,
        created_at_ns: now,
        updated_at_ns: now,
        fill_count: 0,
    }
}

/// In what a report differs from the local state.
pub open spec fn discrepancy_of(
    local: OrderModel,
    exchange: BinanceOrderUpdate,
) -> Option<DiscrepancyType> {
    if distance(local.filled_quantity.units as int, exchange.executed_qty.units as int)
        > FILL_TOLERANCE {
        Some(DiscrepancyType::QuantityMismatch)
    } else if local.status == BinanceOrderStatus::Filled && exchange.status
        != BinanceOrderStatus::Filled {
        Some(DiscrepancyType::StatusMismatch)
    } else if local.status == BinanceOrderStatus::New && exchange.status
        == BinanceOrderStatus::Canceled {
        Some(DiscrepancyType::StatusMismatch)
    } else {
        None
    }
}

/// Whether an order in this status is done.
pub open spec fn is_final(status: BinanceOrderStatus) -> bool {
    status == BinanceOrderStatus::Filled || status == BinanceOrderStatus::Canceled || status
        == BinanceOrderStatus::Expired || status == BinanceOrderStatus::Rejected
}

/// Whether an order in this status can still be filled.
pub open spec fn is_open(status: BinanceOrderStatus) -> bool {
    status == BinanceOrderStatus::New || status == BinanceOrderStatus::PartiallyFilled
}

/// An order once a report has been taken in.
pub open spec fn updated_order(local: OrderModel, update: BinanceOrderUpdate, now: u64) -> OrderModel {
    OrderModel {
        filled_quantity: update.executed_qty,
        average_price: update.average_price,
        status: update.status,
        updated_at_ns: now,
        fill_count: if update.last_executed_qty.units > 0 {
            (local.fill_count + 1) as u32
        } else {
            local.fill_count
        },
        ..local
    }
}

/// What a map of orders holds.
pub open spec fn order_models(m: Map<Seq<char>, LocalOrderState>) -> Map<Seq<char>, OrderModel> {
    m.map_values(|o: LocalOrderState| o@)
}

/// The identifiers of the orders that are listed for a symbol.
pub open spec fn ids_for(m: Map<Seq<char>, Vec<String>>, symbol: Seq<char>) -> Seq<Seq<char>> {
    if m.contains_key(symbol) {
        views(m[symbol]@)
    } else {
        Seq::empty()
    }
}

/// A list with an identifier in it: at the end, unless it is listed already.
pub open spec fn with_id(ids: Seq<Seq<char>>, id: Seq<char>) -> Seq<Seq<char>> {
    if ids.contains(id) {
        ids
    } else {
        ids.push(id)
    }
}

/// Whether two indexes differ only in that the second one lists an identifier
/// for a symbol.
pub open spec fn listed(
    before: Map<Seq<char>, Vec<String>>,
    after: Map<Seq<char>, Vec<String>>,
    symbol: Seq<char>,
    id: Seq<char>,
) -> bool {
    forall|s: Seq<char>| #[trigger]
        ids_for(after, s) == (if s == symbol {
            with_id(ids_for(before, s), id)
        } else {
            ids_for(before, s)
        })
}

/// How many of the entries are orders that can still be filled.
pub open spec fn open_count(s: Seq<(String, LocalOrderState)>) -> nat
    decreases s.len(),
{
    if s.len() == 0 {
        0
    } else {
        open_count(s.drop_last()) + (if is_open(s.last().1.status) {
            1nat
        } else {
            0
        })
    }
}

/// The keys whose value lies further back than `max_age`; a time in the
/// future wraps around.
pub open spec fn stale_keys(s: Seq<(String, u64)>, now: u64, max_age: u64) -> Seq<Seq<char>>
    decreases s.len(),
{
    if s.len() == 0 {
        Seq::empty()
    } else {
        let before = stale_keys(s.drop_last(), now, max_age);
        if now.wrapping_sub(s.last().1) > max_age {
            before.push(s.last().0@)
        } else {
            before
        }
    }
}

/// Whether an identifier stands for an order of a symbol that can still be
/// filled.
pub open spec fn open_for(
    orders: Map<Seq<char>, LocalOrderState>,
    id: Seq<char>,
    symbol: Seq<char>,
) -> bool {
    orders.contains_key(id) && is_open(orders[id].status) && orders[id].symbol@ == symbol
}

/// Of `ids`, the orders of a symbol that can still be filled.
pub open spec fn open_orders(
    ids: Seq<Seq<char>>,
    orders: Map<Seq<char>, LocalOrderState>,
    symbol: Seq<char>,
) -> Seq<LocalOrderState>
    decreases ids.len(),
{
    if ids.len() == 0 {
        Seq::empty()
    } else {
        let before = open_orders(ids.drop_last(), orders, symbol);
        if open_for(orders, ids.last(), symbol) {
            before.push(orders[ids.last()])
        } else {
            before
        }
    }
}

/// How many orders the lists of all symbols give together.
pub open spec fn open_total(
    index: Seq<(String, Vec<String>)>,
    orders: Map<Seq<char>, LocalOrderState>,
) -> nat
    decreases index.len(),
{
    if index.len() == 0 {
        0
    } else {
        open_total(index.drop_last(), orders) + open_orders(
            views(index.last().1@),
            orders,
            index.last().0@,
        ).len()
    }
}

fn lists(ids: &Vec<String>, id: &str) -> (r: bool)
    ensures
        r == views(ids@).contains(id@),
{
    let mut i: usize = 0;
    while i < ids.len()
        invariant
            i <= ids@.len(),
            forall|j: int| 0 <= j < i ==> (#[trigger] ids@[j])@ != id@,
        decreases ids@.len() - i,
    {
        if same(ids[i].as_str(), id) {
            assert(views(ids@)[i as int] == id@);
            return true;
        }
        i += 1;
    }
    assert forall|j: int| 0 <= j < views(ids@).len() implies views(ids@)[j] != id@ by {
        assert(ids@[j]@ != id@);
    }
    false
}

/// Whether an order was filled before `cutoff`.
pub open spec fn filled_before(o: LocalOrderState, cutoff: u64) -> bool {
    o.status == BinanceOrderStatus::Filled && o.updated_at_ns < cutoff
}

/// Tracks the orders sent to the exchange.
pub struct BinanceOrderManager {
    /// Local state by client order identifier.
    pub local_orders: Table<LocalOrderState>,
    /// Client order identifiers by symbol, in the order in which they first came.
    pub orders_by_symbol: Table<Vec<String>>,
    /// Orders not confirmed yet, with the time they were sent, in milliseconds.
    pub pending_orders: Table<u64>,
    /// The last report on each order that is done.
    pub filled_orders: Table<BinanceOrderUpdate>,
    pub max_pending_age_ms: u64,
    pub orders_today: u64,
    pub fills_today: u64,
    pub is_active: bool,
}

impl BinanceOrderManager {
    /// No key occurs twice in any of the maps, and every known order is listed
    /// for its symbol, once.
    pub open spec fn wf(&self) -> bool {
        &&& self.local_orders.wf()
        &&& self.orders_by_symbol.wf()
        &&& self.pending_orders.wf()
        &&& self.filled_orders.wf()
        &&& forall|symbol: Seq<char>|
            (#[trigger] ids_for(self.orders_by_symbol@, symbol)).no_duplicates()
        &&& forall|id: Seq<char>| #[trigger]
            self.local_orders@.contains_key(id) ==> ids_for(
                self.orders_by_symbol@,
                self.local_orders@[id].symbol@,
            ).contains(id)
    }

    /// What is known locally of each order.
    pub open spec fn orders(&self) -> Map<Seq<char>, OrderModel> {
        order_models(self.local_orders@)
    }

    /// The state from which a report on an order starts: what is known of it,
    /// or a new order where nothing is known.
    pub open spec fn known_or_new(&self, update: BinanceOrderUpdate, now: u64) -> OrderModel {
        let id = update.client_order_id@;
        if self.orders().contains_key(id) {
            self.orders()[id]
        } else {
            new_order(id, update.symbol@, update.side, update.quantity, now)
        }
    }

    /// What an order sent at `now` makes of the manager.
    pub open spec fn registered(
        &self,
        after: &Self,
        id: Seq<char>,
        symbol: Seq<char>,
        side: BinanceOrderSide,
        quantity: Amount,
        now: u64,
    ) -> bool {
        &&& after.wf()
        &&& after.orders() == self.orders().insert(id, new_order(id, symbol, side, quantity, now))
        &&& after.pending_orders@ == self.pending_orders@.insert(id, now / 1_000_000)
        &&& listed(self.orders_by_symbol@, after.orders_by_symbol@, symbol, id)
        &&& after.filled_orders == self.filled_orders
        &&& after.max_pending_age_ms == self.max_pending_age_ms
        &&& after.orders_today == self.orders_today.wrapping_add(1)
        &&& after.fills_today == self.fills_today
        &&& after.is_active == self.is_active
    }

    /// What a report taken in at `now` makes of the manager.
    pub open spec fn reported(&self, after: &Self, update: BinanceOrderUpdate, now: u64) -> bool {
        let id = update.client_order_id@;
        &&& after.wf()
        &&& after.orders() == self.orders().insert(
            id,
            updated_order(self.known_or_new(update, now), update, now),
        )
        &&& after.pending_orders@ == self.pending_orders@.remove(id)
        &&& if self.orders().contains_key(id) {
            after.orders_by_symbol == self.orders_by_symbol
        } else {
            listed(self.orders_by_symbol@, after.orders_by_symbol@, update.symbol@, id)
        }
        &&& after.filled_orders@ == (if is_final(update.status) {
            self.filled_orders@.insert(id, update)
        } else {
            self.filled_orders@
        })
        &&& after.max_pending_age_ms == self.max_pending_age_ms
        &&& after.orders_today == self.orders_today
        &&& after.fills_today == (if update.last_executed_qty.units > 0 {
            self.fills_today.wrapping_add(1)
        } else {
            self.fills_today
        })
        &&& after.is_active == self.is_active
    }

    /// A manager without orders.
    pub fn new() -> (m: Self)
        ensures
            m.wf(),
            m.orders() == Map::<Seq<char>, OrderModel>::empty(),
            m.local_orders.entries@.len() == 0,
            m.pending_orders.entries@.len() == 0,
            m.orders_by_symbol@ == Map::<Seq<char>, Vec<String>>::empty(),
            m.pending_orders@ == Map::<Seq<char>, u64>::empty(),
            m.filled_orders@ == Map::<Seq<char>, BinanceOrderUpdate>::empty(),
            m.max_pending_age_ms == 10_000,
            m.orders_today == 0,
            m.fills_today == 0,
            m.is_active,
    {
        let m = BinanceOrderManager {
            local_orders: Table::new(),
            orders_by_symbol: Table::new(),
            pending_orders: Table::new(),
            filled_orders: Table::new(),
            max_pending_age_ms: 10_000,
            orders_today: 0,
            fills_today: 0,
            is_active: true,
        };
        assert(m.orders() =~= Map::<Seq<char>, OrderModel>::empty());
        m
    }

    /// Lists an order for its symbol, unless it is listed already.
    fn index_by_symbol(&mut self, symbol: &str, id: &str)
        requires
            old(self).orders_by_symbol.wf(),
            forall|s: Seq<char>|
                (#[trigger] ids_for(old(self).orders_by_symbol@, s)).no_duplicates(),
        ensures
            final(self).orders_by_symbol.wf(),
            forall|s: Seq<char>|
                (#[trigger] ids_for(final(self).orders_by_symbol@, s)).no_duplicates(),
            *final(self) == (BinanceOrderManager {
                orders_by_symbol: final(self).orders_by_symbol,
                ..*old(self)
            }),
            listed(old(self).orders_by_symbol@, final(self).orders_by_symbol@, symbol@, id@),
    {
        let ghost before = self.orders_by_symbol.entries@;
        match self.orders_by_symbol.find(symbol) {
            Some(i) => {
                if lists(&self.orders_by_symbol.entries[i].1, id) {
                    return ;
                }
                let entry = &mut self.orders_by_symbol.entries[i];
                entry.1.push(id.to_owned());
                proof {
                    let after = self.orders_by_symbol.entries@;
                    assert(after =~= before.update(i as int, after[i as int]));
                    lemma_update(before, i as int, after[i as int]);
                    assert(views(after[i as int].1@) =~= views(before[i as int].1@).push(id@));
                }
            },
            None => {
                let mut ids: Vec<String> = Vec::new();
                ids.push(id.to_owned());
                assert(views(ids@) =~= Seq::empty().push(id@));
                let _ = self.orders_by_symbol.insert(symbol.to_owned(), ids);
            },
        }
        assert(listed(old(self).orders_by_symbol@, self.orders_by_symbol@, symbol@, id@));
        assert forall|s: Seq<char>|
            (#[trigger] ids_for(self.orders_by_symbol@, s)).no_duplicates() by {
            assert(ids_for(old(self).orders_by_symbol@, s).no_duplicates());
        }
    }

    /// Takes note of an order sent at `now`, given in nanoseconds.
    pub fn register_outgoing_order_at(
        &mut self,
        client_order_id: &str,
        symbol: &str,
        side: BinanceOrderSide,
        quantity: Amount,
        price: Amount,
        now: u64,
    )
        requires
            old(self).wf(),
        ensures
            old(self).registered(final(self), client_order_id@, symbol@, side, quantity, now),
    {
        let order = LocalOrderState {
            client_order_id: client_order_id.to_owned(),
            symbol: symbol.to_owned(),
            side,
            quantity,
            filled_quantity: Amount::zero(),
            average_price: Amount::zero(),
            status: BinanceOrderStatus::New,
            created_at_ns: now,
            updated_at_ns: now,
            fill_count: 0,
        };
        let ghost model = order@;
        let _ = self.local_orders.insert(client_order_id.to_owned(), order);
        let _ = self.pending_orders.insert(client_order_id.to_owned(), now / 1_000_000);
        self.index_by_symbol(symbol, client_order_id);
        self.orders_today = self.orders_today.wrapping_add(1);
        proof {
            assert(self.orders() =~= old(self).orders().insert(client_order_id@, model));
            lemma_all_listed(*old(self), *self, symbol@, client_order_id@);
        }
    }

    /// Takes note of an order that is sent now.
    pub fn register_outgoing_order(
        &mut self,
        client_order_id: &str,
        symbol: &str,
        side: BinanceOrderSide,
        quantity: Amount,
        price: Amount,
    )
        requires
            old(self).wf(),
        ensures
            exists|now: u64| #[trigger]
                old(self).registered(final(self), client_order_id@, symbol@, side, quantity, now),
    {
        let now: u64 = now_ns();
        self.register_outgoing_order_at(client_order_id, symbol, side, quantity, price, now);
        assert(old(self).registered(self, client_order_id@, symbol@, side, quantity, now));
    }

    /// In what a report differs from the local state.
    fn check_discrepancy(
        local: &LocalOrderState,
        exchange: &BinanceOrderUpdate,
    ) -> (r: Option<DiscrepancyType>)
        ensures
            r == discrepancy_of(local@, *exchange),
    {
        if local.filled_quantity.further_apart(exchange.executed_qty, FILL_TOLERANCE) {
            return Some(DiscrepancyType::QuantityMismatch);
        }
        if local.status != exchange.status {
            match (local.status, exchange.status) {
                (BinanceOrderStatus::New, BinanceOrderStatus::Canceled) => {
                    return Some(DiscrepancyType::StatusMismatch);
                },
                (BinanceOrderStatus::Filled, _) => {
                    return Some(DiscrepancyType::StatusMismatch);
                },
                _ => {},
            }
        }
        None
    }

    /// Takes in a report at `now`, given in nanoseconds.
    pub fn process_execution_report_at(
        &mut self,
        update: BinanceOrderUpdate,
        now: u64,
    ) -> (r: OrderProcessingResult)
        requires
            old(self).wf(),
            old(self).orders().contains_key(update.client_order_id@) ==> old(
                self,
            ).orders()[update.client_order_id@].fill_count < u32::MAX,
        ensures
            !old(self).is_active ==> {
                &&& *final(self) == *old(self)
                &&& !r.success
                &&& r.error is Some
                &&& r.error->0@ == "Order manager inactive"@
                &&& r.discrepancy is None
            },
            old(self).is_active ==> {
                &&& old(self).reported(final(self), update, now)
                &&& r.success
                &&& r.error is None
                &&& r.discrepancy == discrepancy_of(old(self).known_or_new(update, now), update)
            },
    {
        if !self.is_active {
            return OrderProcessingResult {
                success: false,
                error: Some("Order manager inactive".to_owned()),
                discrepancy: None,
            };
        }
        let id = update.client_order_id.clone();
        let _ = self.pending_orders.remove(id.as_str());
        let mut local = match self.local_orders.remove(id.as_str()) {
            Some(o) => o,
            None => {
                self.index_by_symbol(update.symbol.as_str(), id.as_str());
                LocalOrderState {
                    client_order_id: id.clone(),
                    symbol: update.symbol.clone(),
                    side: update.side,
                    quantity: update.quantity,
                    filled_quantity: Amount::zero(),
                    average_price: Amount::zero(),
                    status: BinanceOrderStatus::New,
                    created_at_ns: now,
                    updated_at_ns: now,
                    fill_count: 0,
                }
            },
        };
        assert(local@ == old(self).known_or_new(update, now));
        let discrepancy = Self::check_discrepancy(&local, &update);
        local.filled_quantity = update.executed_qty;
        local.average_price = update.average_price;
        local.status = update.status;
        local.updated_at_ns = now;
        if update.last_executed_qty.units > 0 {
            local.fill_count = local.fill_count + 1;
            self.fills_today = self.fills_today.wrapping_add(1);
        }
        let ghost model = local@;
        let _ = self.local_orders.insert(id.clone(), local);
        proof {
            assert(model == updated_order(old(self).known_or_new(update, now), update, now));
            assert(self.orders() =~= old(self).orders().insert(id@, model));
            assert(self.local_orders@ =~= old(self).local_orders@.insert(
                id@,
                self.local_orders@[id@],
            ));
            if old(self).orders().contains_key(id@) {
                lemma_still_listed(*old(self), *self, id@);
            } else {
                lemma_all_listed(*old(self), *self, update.symbol@, id@);
            }
        }
        match update.status {
            BinanceOrderStatus::Filled | BinanceOrderStatus::Canceled | BinanceOrderStatus::Expired
            | BinanceOrderStatus::Rejected => {
                let _ = self.filled_orders.insert(id, update);
            },
            _ => {},
        }
        OrderProcessingResult { success: true, error: None, discrepancy }
    }

    /// Takes in a report.
    pub fn process_execution_report(&mut self, update: BinanceOrderUpdate) -> (r:
        OrderProcessingResult)
        requires
            old(self).wf(),
            old(self).orders().contains_key(update.client_order_id@) ==> old(
                self,
            ).orders()[update.client_order_id@].fill_count < u32::MAX,
        ensures
            !old(self).is_active ==> {
                &&& *final(self) == *old(self)
                &&& !r.success
                &&& r.error is Some
                &&& r.error->0@ == "Order manager inactive"@
                &&& r.discrepancy is None
            },
            old(self).is_active ==> {
                &&& r.success
                &&& r.error is None
                &&& exists|now: u64| #[trigger]
                    old(self).reported(final(self), update, now) && r.discrepancy
                        == discrepancy_of(old(self).known_or_new(update, now), update)
            },
    {
        let now: u64 = now_ns();
        self.process_execution_report_at(update, now)
    }

    /// What is known of an order.
    pub fn get_order_status(&self, client_order_id: &str) -> (r: Option<&LocalOrderState>)
        requires
            self.wf(),
        ensures
            r is Some <==> self.local_orders@.contains_key(client_order_id@),
            r matches Some(o) ==> *o == self.local_orders@[client_order_id@],
    {
        self.local_orders.get(client_order_id)
    }

    /// All orders of a symbol that can still be filled, in the order in which
    /// they first came.
    pub fn get_active_orders(&self, symbol: &str) -> (r: Vec<&LocalOrderState>)
        requires
            self.wf(),
        ensures
            r@.unref() == open_orders(
                ids_for(self.orders_by_symbol@, symbol@),
                self.local_orders@,
                symbol@,
            ),
    {
        let mut active: Vec<&LocalOrderState> = Vec::new();
        let ghost all = ids_for(self.orders_by_symbol@, symbol@);
        assert(active@.unref() =~= Seq::empty());
        if let Some(ids) = self.orders_by_symbol.get(symbol) {
            let mut i: usize = 0;
            assert(all.take(0) =~= Seq::empty());
            while i < ids.len()
                invariant
                    i <= ids@.len(),
                    self.wf(),
                    all == views(ids@),
                    active@.unref() == open_orders(
                        all.take(i as int),
                        self.local_orders@,
                        symbol@,
                    ),
                decreases ids@.len() - i,
            {
                let ghost before = active@.unref();
                assert(all.take(i + 1).drop_last() =~= all.take(i as int));
                if let Some(state) = self.local_orders.get(ids[i].as_str()) {
                    let open = match state.status {
                        BinanceOrderStatus::New | BinanceOrderStatus::PartiallyFilled => true,
                        _ => false,
                    };
                    if open && same(state.symbol.as_str(), symbol) {
                        active.push(state);
                        assert(active@.unref() =~= before.push(*state));
                    }
                }
                i += 1;
            }
            assert(all.take(all.len() as int) =~= all);
        }
        active
    }

    /// The orders not confirmed within the allowed time, as of `now`, given in
    /// milliseconds.
    pub fn check_stale_pending_orders_at(&self, now: u64) -> (r: Vec<String>)
        ensures
            views(r@) == stale_keys(
                self.pending_orders.entries@,
                now,
                self.max_pending_age_ms,
            ),
    {
        let mut stale: Vec<String> = Vec::new();
        let ghost all = self.pending_orders.entries@;
        let mut i: usize = 0;
        assert(all.take(0) =~= Seq::empty());
        assert(views(stale@) =~= Seq::empty());
        while i < self.pending_orders.entries.len()
            invariant
                i <= all.len(),
                all == self.pending_orders.entries@,
                views(stale@) == stale_keys(all.take(i as int), now, self.max_pending_age_ms),
            decreases all.len() - i,
        {
            let ghost before = views(stale@);
            assert(all.take(i + 1).drop_last() =~= all.take(i as int));
            if now.wrapping_sub(self.pending_orders.entries[i].1) > self.max_pending_age_ms {
                stale.push(self.pending_orders.entries[i].0.clone());
                assert(views(stale@) =~= before.push(all[i as int].0@));
            }
            i += 1;
        }
        assert(all.take(all.len() as int) =~= all);
        stale
    }

    /// The orders not confirmed within the allowed time.
    pub fn check_stale_pending_orders(&self) -> (r: Vec<String>)
        ensures
            exists|now: u64|
                views(r@) == #[trigger] stale_keys(
                    self.pending_orders.entries@,
                    now,
                    self.max_pending_age_ms,
                ),
    {
        let now: u64 = now_ms();
        self.check_stale_pending_orders_at(now)
    }

    /// Forgets the orders that were filled before `cutoff`, given in
    /// nanoseconds.
    pub fn cleanup_filled_before(&mut self, cutoff: u64)
        requires
            old(self).wf(),
        ensures
            final(self).wf(),
            *final(self) == (BinanceOrderManager {
                local_orders: final(self).local_orders,
                ..*old(self)
            }),
            forall|k: Seq<char>| #[trigger]
                final(self).local_orders@.contains_key(k) <==> old(
                    self,
                ).local_orders@.contains_key(k) && !filled_before(
                    old(self).local_orders@[k],
                    cutoff,
                ),
            forall|k: Seq<char>| #[trigger]
                final(self).local_orders@.contains_key(k) ==> final(self).local_orders@[k] == old(
                    self,
                ).local_orders@[k],
    {
        let mut i: usize = 0;
        while i < self.local_orders.entries.len()
            invariant
                i <= self.local_orders.entries@.len(),
                self.wf(),
                *self == (BinanceOrderManager { local_orders: self.local_orders, ..*old(self) }),
                forall|j: int|
                    0 <= j < i ==> !filled_before(
                        (#[trigger] self.local_orders.entries@[j]).1,
                        cutoff,
                    ),
                forall|k: Seq<char>| #[trigger]
                    self.local_orders@.contains_key(k) ==> old(self).local_orders@.contains_key(k)
                        && self.local_orders@[k] == old(self).local_orders@[k],
                forall|k: Seq<char>| #[trigger]
                    old(self).local_orders@.contains_key(k) && !filled_before(
                        old(self).local_orders@[k],
                        cutoff,
                    ) ==> self.local_orders@.contains_key(k),
            decreases self.local_orders.entries@.len() - i,
        {
            let ghost entries = self.local_orders.entries@;
            let o = &self.local_orders.entries[i].1;
            let gone = o.status == BinanceOrderStatus::Filled && o.updated_at_ns < cutoff;
            if gone {
                proof {
                    lemma_remove(entries, i as int);
                    lemma_entry(entries, i as int);
                    assert(entry_map(entries) == self.local_orders@);
                    assert(self.local_orders@.contains_key(entries[i as int].0@));
                }
                let _ = self.local_orders.entries.remove(i);
                assert(self.local_orders@ == entry_map(entries).remove(entries[i as int].0@));
            } else {
                i += 1;
            }
        }
        proof {
            assert forall|k: Seq<char>| #[trigger]
                self.local_orders@.contains_key(k) implies !filled_before(
                old(self).local_orders@[k],
                cutoff,
            ) by {
                lemma_index_of(self.local_orders.entries@, k);
                let j = index_of(self.local_orders.entries@, k);
                assert(!filled_before(self.local_orders.entries@[j].1, cutoff));
            }
        }
    }

    /// The time, in nanoseconds, `hours` before `now`; zero where it lies
    /// before the epoch.
    pub open spec fn hours_before(now: u64, hours: u64) -> int {
        if hours * 3_600_000_000_000 <= now {
            now - hours * 3_600_000_000_000
        } else {
            0
        }
    }

    /// Forgets the orders that were filled more than so many hours ago.
    pub fn cleanup_filled_orders(&mut self, older_than_hours: u64)
        requires
            old(self).wf(),
        ensures
            final(self).wf(),
            *final(self) == (BinanceOrderManager {
                local_orders: final(self).local_orders,
                ..*old(self)
            }),
            exists|now: u64|
                {
                    let cutoff = #[trigger] Self::hours_before(now, older_than_hours) as u64;
                    forall|k: Seq<char>| #[trigger]
                        final(self).local_orders@.contains_key(k) <==> old(
                            self,
                        ).local_orders@.contains_key(k) && !filled_before(
                            old(self).local_orders@[k],
                            cutoff,
                        )
                },
            forall|k: Seq<char>| #[trigger]
                final(self).local_orders@.contains_key(k) ==> final(self).local_orders@[k] == old(
                    self,
                ).local_orders@[k],
    {
        let now: u64 = now_ns();
        let age: u128 = older_than_hours as u128 * 3_600_000_000_000;
        let cutoff: u64 = if age <= now as u128 {
            now - age as u64
        } else {
            0
        };
        assert(cutoff == Self::hours_before(now, older_than_hours));
        self.cleanup_filled_before(cutoff);
    }

    /// The day's counters, and how many orders wait or are open.
    pub fn get_daily_stats(&self) -> (r: DailyOrderStats)
        ensures
            r.orders_placed == self.orders_today,
            r.fills_received == self.fills_today,
            r.pending_orders == self.pending_orders.entries@.len(),
            r.active_orders == open_count(self.local_orders.entries@),
    {
        let ghost all = self.local_orders.entries@;
        let mut active: u64 = 0;
        let mut i: usize = 0;
        assert(all.take(0) =~= Seq::empty());
        while i < self.local_orders.entries.len()
            invariant
                i <= all.len(),
                all == self.local_orders.entries@,
                active == open_count(all.take(i as int)),
                active <= i,
            decreases all.len() - i,
        {
            assert(all.take(i + 1).drop_last() =~= all.take(i as int));
            match self.local_orders.entries[i].1.status {
                BinanceOrderStatus::New | BinanceOrderStatus::PartiallyFilled => {
                    active += 1;
                },
                _ => {},
            }
            i += 1;
        }
        assert(all.take(all.len() as int) =~= all);
        DailyOrderStats {
            orders_placed: self.orders_today,
            fills_received: self.fills_today,
            pending_orders: self.pending_orders.len() as u64,
            active_orders: active,
        }
    }

    /// Sets the day's counters to zero.
    pub fn reset_daily_counters(&mut self)
        ensures
            *final(self) == (BinanceOrderManager { orders_today: 0, fills_today: 0, ..*old(self) }),
    {
        self.orders_today = 0;
        self.fills_today = 0;
    }

    /// Sets the time within which an order has to be confirmed.
    pub fn set_max_pending_age_ms(&mut self, age_ms: u64)
        ensures
            *final(self) == (BinanceOrderManager { max_pending_age_ms: age_ms, ..*old(self) }),
    {
        self.max_pending_age_ms = age_ms;
    }

    /// Takes in no more reports.
    pub fn deactivate(&mut self)
        ensures
            *final(self) == (BinanceOrderManager { is_active: false, ..*old(self) }),
    {
        self.is_active = false;
    }

    /// Takes in reports again.
    pub fn activate(&mut self)
        ensures
            *final(self) == (BinanceOrderManager { is_active: true, ..*old(self) }),
    {
        self.is_active = true;
    }
}

impl Default for BinanceOrderManager {
    fn default() -> (m: Self)
        ensures
            m.wf(),
            m.orders() == Map::<Seq<char>, OrderModel>::empty(),
            m.local_orders.entries@.len() == 0,
            m.pending_orders.entries@.len() == 0,
            m.orders_by_symbol@ == Map::<Seq<char>, Vec<String>>::empty(),
            m.pending_orders@ == Map::<Seq<char>, u64>::empty(),
            m.filled_orders@ == Map::<Seq<char>, BinanceOrderUpdate>::empty(),
            m.max_pending_age_ms == 10_000,
            m.orders_today == 0,
            m.fills_today == 0,
            m.is_active,
    {
        BinanceOrderManager::new()
    }
}

/// With one more order, listed for its symbol, all orders are listed for theirs.
proof fn lemma_all_listed(
    before: BinanceOrderManager,
    after: BinanceOrderManager,
    symbol: Seq<char>,
    id: Seq<char>,
)
    requires
        before.wf(),
        listed(before.orders_by_symbol@, after.orders_by_symbol@, symbol, id),
        after.local_orders@.contains_key(id),
        after.local_orders@ == before.local_orders@.insert(id, after.local_orders@[id]),
        after.local_orders@[id].symbol@ == symbol,
    ensures
        forall|k: Seq<char>| #[trigger]
            after.local_orders@.contains_key(k) ==> ids_for(
                after.orders_by_symbol@,
                after.local_orders@[k].symbol@,
            ).contains(k),
{
    assert forall|k: Seq<char>| #[trigger] after.local_orders@.contains_key(k) implies ids_for(
        after.orders_by_symbol@,
        after.local_orders@[k].symbol@,
    ).contains(k) by {
        let s = after.local_orders@[k].symbol@;
        let old_ids = ids_for(before.orders_by_symbol@, s);
        let new_ids = ids_for(after.orders_by_symbol@, s);
        if k == id {
            if !old_ids.contains(id) {
                assert(new_ids[new_ids.len() - 1] == id);
            }
        } else {
            assert(before.local_orders@.contains_key(k));
            assert(old_ids.contains(k));
            let i = choose|i: int| 0 <= i < old_ids.len() && old_ids[i] == k;
            assert(new_ids[i] == k);
        }
    }
}

/// An order that is changed but keeps its symbol stays listed.
proof fn lemma_still_listed(before: BinanceOrderManager, after: BinanceOrderManager, id: Seq<char>)
    requires
        before.wf(),
        after.orders_by_symbol == before.orders_by_symbol,
        before.local_orders@.contains_key(id),
        after.local_orders@.contains_key(id),
        after.local_orders@ == before.local_orders@.insert(id, after.local_orders@[id]),
        after.local_orders@[id].symbol@ == before.local_orders@[id].symbol@,
    ensures
        forall|k: Seq<char>| #[trigger]
            after.local_orders@.contains_key(k) ==> ids_for(
                after.orders_by_symbol@,
                after.local_orders@[k].symbol@,
            ).contains(k),
{
    assert forall|k: Seq<char>| #[trigger] after.local_orders@.contains_key(k) implies ids_for(
        after.orders_by_symbol@,
        after.local_orders@[k].symbol@,
    ).contains(k) by {
        assert(before.local_orders@.contains_key(k));
    }
}

/// The active orders of a symbol are all the known orders of the symbol that
/// can still be filled, and no others.
pub proof fn law_active_orders_complete(m: BinanceOrderManager, symbol: Seq<char>)
    requires
        m.wf(),
    ensures
        forall|id: Seq<char>| #[trigger]
            open_for(m.local_orders@, id, symbol) ==> open_orders(
                ids_for(m.orders_by_symbol@, symbol),
                m.local_orders@,
                symbol,
            ).contains(m.local_orders@[id]),
        forall|o: LocalOrderState| #[trigger]
            open_orders(
                ids_for(m.orders_by_symbol@, symbol),
                m.local_orders@,
                symbol,
            ).contains(o) ==> exists|id: Seq<char>| #[trigger]
                open_for(m.local_orders@, id, symbol) && m.local_orders@[id] == o,
{
    let ids = ids_for(m.orders_by_symbol@, symbol);
    lemma_open_orders(ids, m.local_orders@, symbol);
    assert forall|id: Seq<char>| #[trigger] open_for(m.local_orders@, id, symbol) implies open_orders(
        ids,
        m.local_orders@,
        symbol,
    ).contains(m.local_orders@[id]) by {
        assert(m.local_orders@.contains_key(id));
        assert(ids.contains(id));
    }
}

proof fn lemma_open_orders(
    ids: Seq<Seq<char>>,
    orders: Map<Seq<char>, LocalOrderState>,
    symbol: Seq<char>,
)
    ensures
        forall|id: Seq<char>| #[trigger]
            ids.contains(id) && open_for(orders, id, symbol) ==> open_orders(
                ids,
                orders,
                symbol,
            ).contains(orders[id]),
        forall|o: LocalOrderState| #[trigger]
            open_orders(ids, orders, symbol).contains(o) ==> exists|id: Seq<char>| #[trigger]
                open_for(orders, id, symbol) && orders[id] == o,
    decreases ids.len(),
{
    let all = open_orders(ids, orders, symbol);
    if ids.len() > 0 {
        let rest = ids.drop_last();
        let before = open_orders(rest, orders, symbol);
        lemma_open_orders(rest, orders, symbol);
        assert forall|id: Seq<char>| #[trigger]
            ids.contains(id) && open_for(orders, id, symbol) implies all.contains(orders[id]) by {
            let i = choose|i: int| 0 <= i < ids.len() && ids[i] == id;
            if i == ids.len() - 1 {
                assert(all[all.len() - 1] == orders[id]);
            } else {
                assert(rest[i] == id);
                assert(rest.contains(id));
                assert(before.contains(orders[id]));
                let j = choose|j: int| 0 <= j < before.len() && before[j] == orders[id];
                assert(all[j] == orders[id]);
            }
        }
        assert forall|o: LocalOrderState| #[trigger] all.contains(o) implies exists|id: Seq<char>|
            #[trigger] open_for(orders, id, symbol) && orders[id] == o by {
            let j = choose|j: int| 0 <= j < all.len() && all[j] == o;
            if j < before.len() {
                assert(before[j] == o);
                assert(before.contains(o));
            } else {
                assert(open_for(orders, ids.last(), symbol) && orders[ids.last()] == o);
            }
        }
    }
}

/// Forgetting an order shortens the list of its symbol by one where it could
/// still be filled, and no other list.
proof fn lemma_one_less(
    ids: Seq<Seq<char>>,
    orders: Map<Seq<char>, LocalOrderState>,
    symbol: Seq<char>,
    id: Seq<char>,
)
    requires
        ids.no_duplicates(),
        orders.contains_key(id),
    ensures
        open_orders(ids, orders, symbol).len() == open_orders(ids, orders.remove(id), symbol).len()
            + (if ids.contains(id) && open_for(orders, id, symbol) {
            1int
        } else {
            0
        }),
    decreases ids.len(),
{
    if ids.len() > 0 {
        let rest = ids.drop_last();
        assert forall|i: int, j: int| 0 <= i < rest.len() && 0 <= j < rest.len() && i != j implies
            rest[i] != rest[j] by {
            assert(ids[i] != ids[j]);
        }
        lemma_one_less(rest, orders, symbol, id);
        if ids.last() == id {
            assert(ids[ids.len() - 1] == id);
            assert(!rest.contains(id)) by {
                if rest.contains(id) {
                    let i = choose|i: int| 0 <= i < rest.len() && rest[i] == id;
                    assert(ids[i] == ids[ids.len() - 1]);
                }
            }
        } else {
            assert(ids.contains(id) == rest.contains(id)) by {
                if ids.contains(id) {
                    let i = choose|i: int| 0 <= i < ids.len() && ids[i] == id;
                    assert(rest[i] == id);
                }
                if rest.contains(id) {
                    let i = choose|i: int| 0 <= i < rest.len() && rest[i] == id;
                    assert(ids[i] == id);
                }
            }
            assert(open_for(orders.remove(id), ids.last(), symbol) == open_for(
                orders,
                ids.last(),
                symbol,
            ));
        }
    }
}

/// Whether an index lists an identifier for a symbol.
spec fn lists_for(index: Seq<(String, Vec<String>)>, symbol: Seq<char>, id: Seq<char>) -> bool {
    exists|i: int|
        0 <= i < index.len() && (#[trigger] index[i]).0@ == symbol && views(
            index[i].1@,
        ).contains(id)
}

proof fn lemma_total_one_less(
    index: Seq<(String, Vec<String>)>,
    orders: Map<Seq<char>, LocalOrderState>,
    id: Seq<char>,
)
    requires
        distinct_keys(index),
        forall|i: int| 0 <= i < index.len() ==> views((#[trigger] index[i]).1@).no_duplicates(),
        orders.contains_key(id),
    ensures
        open_total(index, orders) == open_total(index, orders.remove(id)) + (if is_open(
            orders[id].status,
        ) && lists_for(index, orders[id].symbol@, id) {
            1int
        } else {
            0
        }),
    decreases index.len(),
{
    if index.len() > 0 {
        let rest = index.drop_last();
        let last = index.last();
        let symbol = orders[id].symbol@;
        assert forall|i: int| 0 <= i < rest.len() implies views(
            (#[trigger] rest[i]).1@,
        ).no_duplicates() by {
            assert(rest[i] == index[i]);
        }
        assert forall|i: int, j: int| 0 <= i < j < rest.len() implies (#[trigger] rest[i]).0@ != (
        #[trigger] rest[j]).0@ by {
            assert(index[i].0@ != index[j].0@);
        }
        lemma_total_one_less(rest, orders, id);
        assert(index[index.len() - 1] == last);
        lemma_one_less(views(last.1@), orders, last.0@, id);
        if lists_for(rest, symbol, id) {
            let i = choose|i: int|
                0 <= i < rest.len() && (#[trigger] rest[i]).0@ == symbol && views(
                    rest[i].1@,
                ).contains(id);
            assert(index[i] == rest[i]);
            assert(index[i].0@ != index[index.len() - 1].0@);
        } else if lists_for(index, symbol, id) {
            let i = choose|i: int|
                0 <= i < index.len() && (#[trigger] index[i]).0@ == symbol && views(
                    index[i].1@,
                ).contains(id);
            if i < rest.len() {
                assert(rest[i] == index[i]);
            }
        }
    }
}

proof fn lemma_total_is_count(
    index: Seq<(String, Vec<String>)>,
    orders: Seq<(String, LocalOrderState)>,
)
    requires
        distinct_keys(index),
        distinct_keys(orders),
        forall|i: int| 0 <= i < index.len() ==> views((#[trigger] index[i]).1@).no_duplicates(),
        forall|k: int|
            0 <= k < orders.len() ==> lists_for(
                index,
                (#[trigger] orders[k]).1.symbol@,
                orders[k].0@,
            ),
    ensures
        open_total(index, entry_map(orders)) == open_count(orders),
    decreases orders.len(),
{
    if orders.len() == 0 {
        lemma_nothing_open(index, entry_map(orders));
    } else {
        let n = orders.len() - 1;
        let rest = orders.drop_last();
        let id = orders[n].0@;
        assert(orders.remove(n) =~= rest);
        lemma_remove(orders, n);
        lemma_entry(orders, n);
        assert forall|k: int| 0 <= k < rest.len() implies lists_for(
            index,
            (#[trigger] rest[k]).1.symbol@,
            rest[k].0@,
        ) by {
            assert(rest[k] == orders[k]);
        }
        lemma_total_is_count(index, rest);
        lemma_total_one_less(index, entry_map(orders), id);
    }
}

proof fn lemma_nothing_open(
    index: Seq<(String, Vec<String>)>,
    orders: Map<Seq<char>, LocalOrderState>,
)
    requires
        forall|k: Seq<char>| !(#[trigger] orders.contains_key(k)),
    ensures
        open_total(index, orders) == 0,
    decreases index.len(),
{
    if index.len() > 0 {
        lemma_nothing_open(index.drop_last(), orders);
        lemma_none_open(views(index.last().1@), orders, index.last().0@);
    }
}

proof fn lemma_none_open(
    ids: Seq<Seq<char>>,
    orders: Map<Seq<char>, LocalOrderState>,
    symbol: Seq<char>,
)
    requires
        forall|k: Seq<char>| !(#[trigger] orders.contains_key(k)),
    ensures
        open_orders(ids, orders, symbol).len() == 0,
    decreases ids.len(),
{
    if ids.len() > 0 {
        lemma_none_open(ids.drop_last(), orders, symbol);
    }
}

/// The active orders of all symbols together are as many as the day's counters
/// say.
pub proof fn law_active_orders_counted(m: BinanceOrderManager)
    requires
        m.wf(),
    ensures
        open_total(m.orders_by_symbol.entries@, m.local_orders@) == open_count(
            m.local_orders.entries@,
        ),
{
    let index = m.orders_by_symbol.entries@;
    let orders = m.local_orders.entries@;
    assert forall|i: int| 0 <= i < index.len() implies views(
        (#[trigger] index[i]).1@,
    ).no_duplicates() by {
        lemma_entry(index, i);
        assert(ids_for(m.orders_by_symbol@, index[i].0@).no_duplicates());
    }
    assert forall|k: int| 0 <= k < orders.len() implies lists_for(
        index,
        (#[trigger] orders[k]).1.symbol@,
        orders[k].0@,
    ) by {
        lemma_entry(orders, k);
        let symbol = orders[k].1.symbol@;
        assert(m.local_orders@.contains_key(orders[k].0@));
        assert(ids_for(m.orders_by_symbol@, symbol).contains(orders[k].0@));
        lemma_index_of(index, symbol);
        let i = index_of(index, symbol);
        assert(m.orders_by_symbol@.contains_key(symbol));
        assert(index[i].0@ == symbol);
    }
    lemma_total_is_count(index, orders);
}

/// An order that was sent waits for confirmation, and the first report on it
/// ends the wait; the report of a first fill counts one fill.
pub proof fn law_report_confirms_order(
    m0: BinanceOrderManager,
    m1: BinanceOrderManager,
    m2: BinanceOrderManager,
    symbol: Seq<char>,
    side: BinanceOrderSide,
    quantity: Amount,
    update: BinanceOrderUpdate,
    sent: u64,
    seen: u64,
)
    requires
        m0.registered(&m1, update.client_order_id@, symbol, side, quantity, sent),
        m1.reported(&m2, update, seen),
    ensures
        m1.pending_orders@.contains_key(update.client_order_id@),
        !m2.pending_orders@.contains_key(update.client_order_id@),
        m2.orders().contains_key(update.client_order_id@),
        m2.orders()[update.client_order_id@].created_at_ns == sent,
        m2.orders()[update.client_order_id@].status == update.status,
        m2.orders()[update.client_order_id@].fill_count == (if update.last_executed_qty.units > 0 {
            1int
        } else {
            0
        }),
{
}

/// Taking in the same report a second time changes neither what is known of
/// the order but the time and the fill count, nor which orders wait, and shows
/// no discrepancy.
pub proof fn law_repeated_report(
    m0: BinanceOrderManager,
    m1: BinanceOrderManager,
    m2: BinanceOrderManager,
    update: BinanceOrderUpdate,
    first: u64,
    second: u64,
)
    requires
        m0.reported(&m1, update, first),
        m1.reported(&m2, update, second),
    ensures
        m2.pending_orders@ == m1.pending_orders@,
        m2.filled_orders@ == m1.filled_orders@,
        m2.orders()[update.client_order_id@].filled_quantity
            == m1.orders()[update.client_order_id@].filled_quantity,
        m2.orders()[update.client_order_id@].status == m1.orders()[update.client_order_id@].status,
        discrepancy_of(m1.known_or_new(update, second), update) is None,
{
    let id = update.client_order_id@;
    assert(m1.pending_orders@.remove(id) =~= m1.pending_orders@);
    if is_final(update.status) {
        assert(m1.filled_orders@.insert(id, update) =~= m1.filled_orders@);
    }
}

} // verus!
