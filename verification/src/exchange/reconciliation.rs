//! Reconciliation of the local order state with the exchange's: which orders
//! differ, what is recorded of it, and how far the two have drifted apart.

use vstd::prelude::*;
use crate::base::amount::{distance, number_text, plain_text, Amount};
use crate::base::clock::{now_ms, now_secs};
use crate::base::sequences::{lemma_newest_concat, lemma_newest_push, newest};
use crate::base::table::Table;
use crate::base::text::{
    decimal, last_index, lemma_last_index, lemma_last_index_is, push_decimal, quote, quoted_text,
    same, views,
};

verus! {

/// How far local state and exchange state have drifted apart.
#[derive(Debug, Clone, Copy, PartialEq, Eq, Structural)]
pub enum SyncStatus {
    InSync,
    MinorDrift,
    MajorDrift,
    Critical,
    Syncing,
}

/// In what two order states differ.
#[derive(Debug, Clone, Copy, PartialEq, Eq, Structural)]
pub enum DiscrepancyType {
    MissingOrder,
    StatusMismatch,
    QuantityMismatch,
    PriceMismatch,
    FillCountMismatch,
    PhantomOrder,
}

/// The outcome of one symbol's reconciliation.
#[derive(Debug, Clone)]
pub struct ReconciliationStatus {
    pub symbol: String,
    pub local_orders_count: u32,
    pub exchange_orders_count: u32,
    pub matched_orders: u32,
    pub discrepancies_found: u32,
    pub discrepancies_fixed: u32,
    pub last_sync_timestamp_ms: u64,
    pub sync_status: SyncStatus,
}

/// One difference between local state and exchange state.
#[derive(Debug, Clone)]
pub struct DiscrepancyRecord {
    pub discrepancy_id: String,
    pub symbol: String,
    pub client_order_id: Option<String>,
    pub discrepancy_type: DiscrepancyType,
    pub local_value: String,
    pub exchange_value: String,
    pub detected_at_ms: u64,
    pub resolved: bool,
    pub resolution_action: Option<String>,
}

/// What a discrepancy record holds.
pub struct RecordModel {
    pub discrepancy_id: Seq<char>,
    pub symbol: Seq<char>,
    pub client_order_id: Option<Seq<char>>,
    pub discrepancy_type: DiscrepancyType,
    pub local_value: Seq<char>,
    pub exchange_value: Seq<char>,
    pub detected_at_ms: u64,
    pub resolved: bool,
    pub resolution_action: Option<Seq<char>>,
}

/// The view of an optional text.
pub open spec fn optional_view(s: Option<String>) -> Option<Seq<char>> {
    match s {
        Some(t) => Some(t@),
        None => None,
    }
}

impl View for DiscrepancyRecord {
    type V = RecordModel;

    open spec fn view(&self) -> RecordModel {
        RecordModel {
            discrepancy_id: self.discrepancy_id@,
            symbol: self.symbol@,
            client_order_id: optional_view(self.client_order_id),
            discrepancy_type: self.discrepancy_type,
            local_value: self.local_value@,
            exchange_value: self.exchange_value@,
            detected_at_ms: self.detected_at_ms,
            resolved: self.resolved,
            resolution_action: optional_view(self.resolution_action),
        }
    }
}

/// The summary of a run over all monitored symbols.
#[derive(Debug, Clone)]
pub struct ReconciliationSummary {
    pub total_symbols_checked: u32,
    pub total_discrepancies_found: u32,
    pub total_discrepancies_fixed: u32,
    pub sync_duration_ms: u64,
    pub critical_issues: u32,
    pub recommendations: Vec<String>,
}

/// An order as the local side sees it.
#[derive(Debug, Clone)]
pub struct LocalOrderSnapshot {
    pub client_order_id: String,
    pub symbol: String,
    pub side: String,
    pub quantity: Amount,
    pub filled_qty: Amount,
    pub price: Amount,
    pub status: String,
}

/// An order as the exchange sees it.
#[derive(Debug, Clone)]
pub struct ExchangeOrderSnapshot {
    pub client_order_id: String,
    pub symbol: String,
    pub side: String,
    pub quantity: Amount,
    pub filled_qty: Amount,
    pub price: Amount,
    pub status: String,
}

/// Counters of the daemon.
#[derive(Debug, Clone)]
pub struct ReconciliationStats {
    pub is_active: bool,
    pub monitored_symbols_count: u32,
    pub total_reconciliations: u64,
    pub total_discrepancies_found: u64,
    pub total_discrepancies_fixed: u64,
    pub consecutive_failures: u64,
    pub history_size: u32,
}

/// Keeps local order state and exchange state in step.
pub struct ReconciliationDaemon {
    /// Symbols to monitor.
    pub monitored_symbols: Vec<String>,
    /// What was found, oldest first.
    pub discrepancy_history: Vec<DiscrepancyRecord>,
    /// When each symbol was last reconciled, in seconds.
    pub last_sync_per_symbol: Table<u64>,
    pub sync_interval_sec: u64,
    pub max_history_size: usize,
    pub is_active: bool,
    pub total_reconciliations: u64,
    pub total_discrepancies_found: u64,
    pub total_discrepancies_fixed: u64,
    pub consecutive_failures: u64,
}

/// Filled quantities this many units apart still count as equal.
pub const QUANTITY_TOLERANCE: i64 = 10_000;

/// The identifiers of local orders.
pub open spec fn local_ids(orders: Seq<LocalOrderSnapshot>) -> Seq<Seq<char>> {
    Seq::new(orders.len(), |i: int| orders[i].client_order_id@)
}

/// The identifiers of exchange orders.
pub open spec fn exchange_ids(orders: Seq<ExchangeOrderSnapshot>) -> Seq<Seq<char>> {
    Seq::new(orders.len(), |i: int| orders[i].client_order_id@)
}

/// Whether the order at `i` is the last with its identifier: the one that counts.
pub open spec fn counts(ids: Seq<Seq<char>>, i: int) -> bool {
    last_index(ids, ids[i]) == i
}

/// The identifier of a record: what it is about, the symbol, and the order.
pub open spec fn record_id(tag: Seq<char>, symbol: Seq<char>, id: Seq<char>) -> Seq<char> {
    tag + symbol + "_"@ + id
}

/// The fields of an order, in words.
pub open spec fn order_text(
    kind: Seq<char>,
    client_order_id: Seq<char>,
    symbol: Seq<char>,
    side: Seq<char>,
    quantity: int,
    filled_qty: int,
    price: int,
    status: Seq<char>,
) -> Seq<char> {
    kind + " { client_order_id: "@ + quoted_text(client_order_id) + ", symbol: "@ + quoted_text(
        symbol,
    ) + ", side: "@ + quoted_text(side) + ", quantity: "@ + number_text(quantity)
        + ", filled_qty: "@ + number_text(filled_qty) + ", price: "@ + number_text(price)
        + ", status: "@ + quoted_text(status) + " }"@
}

/// A local order, in words.
pub open spec fn local_text(o: LocalOrderSnapshot) -> Seq<char> {
    order_text(
        "LocalOrderSnapshot"@,
        o.client_order_id@,
        o.symbol@,
        o.side@,
        o.quantity.units as int,
        o.filled_qty.units as int,
        o.price.units as int,
        o.status@,
    )
}

/// An exchange order, in words.
pub open spec fn exchange_text(o: ExchangeOrderSnapshot) -> Seq<char> {
    order_text(
        "ExchangeOrderSnapshot"@,
        o.client_order_id@,
        o.symbol@,
        o.side@,
        o.quantity.units as int,
        o.filled_qty.units as int,
        o.price.units as int,
        o.status@,
    )
}

/// A record of something that was just found.
pub open spec fn fresh_record(
    tag: Seq<char>,
    symbol: Seq<char>,
    id: Seq<char>,
    kind: DiscrepancyType,
    local_value: Seq<char>,
    exchange_value: Seq<char>,
    now: u64,
) -> RecordModel {
    RecordModel {
        discrepancy_id: record_id(tag, symbol, id),
        symbol,
        client_order_id: Some(id),
        discrepancy_type: kind,
        local_value,
        exchange_value,
        detected_at_ms: now,
        resolved: false,
        resolution_action: None,
    }
}

/// In what two states of one order differ: first the status, then the filled
/// quantity.
pub open spec fn comparison(
    symbol: Seq<char>,
    local: LocalOrderSnapshot,
    exchange: ExchangeOrderSnapshot,
    now: u64,
) -> Option<RecordModel> {
    if local.status@ != exchange.status@ {
        Some(
            fresh_record(
                "STATUS_"@,
                symbol,
                local.client_order_id@,
                DiscrepancyType::StatusMismatch,
                local.status@,
                exchange.status@,
                now,
            ),
        )
    } else if distance(local.filled_qty.units as int, exchange.filled_qty.units as int)
        > QUANTITY_TOLERANCE {
        Some(
            fresh_record(
                "QTY_"@,
                symbol,
                local.client_order_id@,
                DiscrepancyType::QuantityMismatch,
                plain_text(local.filled_qty.units as int),
                plain_text(exchange.filled_qty.units as int),
                now,
            ),
        )
    } else {
        None
    }
}

/// What is found of a local order, given what the exchange reports.
pub open spec fn local_finding(
    symbol: Seq<char>,
    local: LocalOrderSnapshot,
    exchange: Seq<ExchangeOrderSnapshot>,
    now: u64,
) -> Option<RecordModel> {
    let at = last_index(exchange_ids(exchange), local.client_order_id@);
    if at >= 0 {
        comparison(symbol, local, exchange[at], now)
    } else if local.status@ != "FILLED"@ && local.status@ != "CANCELED"@ {
        Some(
            fresh_record(
                "PHANTOM_"@,
                symbol,
                local.client_order_id@,
                DiscrepancyType::PhantomOrder,
                local_text(local),
                "NOT_FOUND"@,
                now,
            ),
        )
    } else {
        None
    }
}

/// What is found of an exchange order, given the local orders.
pub open spec fn exchange_finding(
    symbol: Seq<char>,
    exchange: ExchangeOrderSnapshot,
    local: Seq<LocalOrderSnapshot>,
    now: u64,
) -> Option<RecordModel> {
    if last_index(local_ids(local), exchange.client_order_id@) >= 0 {
        None
    } else {
        Some(
            fresh_record(
                "MISSING_"@,
                symbol,
                exchange.client_order_id@,
                DiscrepancyType::MissingOrder,
                "NOT_FOUND"@,
                exchange_text(exchange),
                now,
            ),
        )
    }
}

/// `s` with `x` behind it, where there is one.
pub open spec fn with_optional<T>(s: Seq<T>, x: Option<T>) -> Seq<T> {
    match x {
        Some(v) => s.push(v),
        None => s,
    }
}

/// What the first `n` local orders give.
pub open spec fn local_findings(
    symbol: Seq<char>,
    local: Seq<LocalOrderSnapshot>,
    exchange: Seq<ExchangeOrderSnapshot>,
    now: u64,
    n: nat,
) -> Seq<RecordModel>
    decreases n,
{
    if n == 0 {
        Seq::empty()
    } else {
        let before = local_findings(symbol, local, exchange, now, (n - 1) as nat);
        if counts(local_ids(local), n - 1) {
            with_optional(before, local_finding(symbol, local[n - 1], exchange, now))
        } else {
            before
        }
    }
}

/// What the first `n` exchange orders give.
pub open spec fn exchange_findings(
    symbol: Seq<char>,
    local: Seq<LocalOrderSnapshot>,
    exchange: Seq<ExchangeOrderSnapshot>,
    now: u64,
    n: nat,
) -> Seq<RecordModel>
    decreases n,
{
    if n == 0 {
        Seq::empty()
    } else {
        let before = exchange_findings(symbol, local, exchange, now, (n - 1) as nat);
        if counts(exchange_ids(exchange), n - 1) {
            with_optional(before, exchange_finding(symbol, exchange[n - 1], local, now))
        } else {
            before
        }
    }
}

/// Everything that a reconciliation finds, in the order in which it records it.
pub open spec fn findings(
    symbol: Seq<char>,
    local: Seq<LocalOrderSnapshot>,
    exchange: Seq<ExchangeOrderSnapshot>,
    now: u64,
) -> Seq<RecordModel> {
    local_findings(symbol, local, exchange, now, local.len()) + exchange_findings(
        symbol,
        local,
        exchange,
        now,
        exchange.len(),
    )
}

/// How many of the first `n` local orders the exchange has in the same state.
pub open spec fn matches(
    local: Seq<LocalOrderSnapshot>,
    exchange: Seq<ExchangeOrderSnapshot>,
    n: nat,
) -> nat
    decreases n,
{
    if n == 0 {
        0
    } else {
        let o = local[n - 1];
        let at = last_index(exchange_ids(exchange), o.client_order_id@);
        let hit = counts(local_ids(local), n - 1) && at >= 0 && comparison(
            Seq::empty(),
            o,
            exchange[at],
            0,
        ) is None;
        matches(local, exchange, (n - 1) as nat) + (if hit {
            1nat
        } else {
            0
        })
    }
}

/// Whether a discrepancy of this kind is fixed without asking.
pub open spec fn fixable(kind: DiscrepancyType) -> bool {
    kind == DiscrepancyType::StatusMismatch || kind == DiscrepancyType::FillCountMismatch
}

/// How many records are of a kind that is fixed without asking.
pub open spec fn fixable_count(records: Seq<RecordModel>) -> nat
    decreases records.len(),
{
    if records.len() == 0 {
        0
    } else {
        fixable_count(records.drop_last()) + (if fixable(records.last().discrepancy_type) {
            1nat
        } else {
            0
        })
    }
}

/// The drift that a number of discrepancies stands for.
pub open spec fn drift(discrepancies: nat) -> SyncStatus {
    if discrepancies == 0 {
        SyncStatus::InSync
    } else if discrepancies <= 2 {
        SyncStatus::MinorDrift
    } else if discrepancies <= 5 {
        SyncStatus::MajorDrift
    } else {
        SyncStatus::Critical
    }
}

/// What a list of records holds.
pub open spec fn models(records: Seq<DiscrepancyRecord>) -> Seq<RecordModel> {
    Seq::new(records.len(), |i: int| records[i]@)
}

proof fn lemma_fixable_push(s: Seq<RecordModel>, x: RecordModel)
    ensures
        fixable_count(s.push(x)) == fixable_count(s) + (if fixable(x.discrepancy_type) {
            1nat
        } else {
            0
        }),
{
    assert(s.push(x).drop_last() =~= s);
}

proof fn lemma_no_fixable_missing(
    symbol: Seq<char>,
    local: Seq<LocalOrderSnapshot>,
    exchange: Seq<ExchangeOrderSnapshot>,
    now: u64,
    base: Seq<RecordModel>,
    n: nat,
)
    ensures
        fixable_count(base + exchange_findings(symbol, local, exchange, now, n)) == fixable_count(
            base,
        ),
        exchange_findings(symbol, local, exchange, now, n).len() <= n,
    decreases n,
{
    if n == 0 {
        assert(base + Seq::<RecordModel>::empty() =~= base);
    } else {
        lemma_no_fixable_missing(symbol, local, exchange, now, base, (n - 1) as nat);
        let before = exchange_findings(symbol, local, exchange, now, (n - 1) as nat);
        let after = exchange_findings(symbol, local, exchange, now, n);
        if after != before {
            let x = exchange_finding(symbol, exchange[n - 1], local, now)->0;
            assert(base + after =~= (base + before).push(x));
            lemma_fixable_push(base + before, x);
        }
    }
}

proof fn lemma_findings_bounds(
    symbol: Seq<char>,
    local: Seq<LocalOrderSnapshot>,
    exchange: Seq<ExchangeOrderSnapshot>,
    now: u64,
    n: nat,
)
    ensures
        local_findings(symbol, local, exchange, now, n).len() + matches(local, exchange, n) <= n,
        fixable_count(local_findings(symbol, local, exchange, now, n)) <= local_findings(
            symbol,
            local,
            exchange,
            now,
            n,
        ).len(),
    decreases n,
{
    if n > 0 {
        lemma_findings_bounds(symbol, local, exchange, now, (n - 1) as nat);
        let before = local_findings(symbol, local, exchange, now, (n - 1) as nat);
        let after = local_findings(symbol, local, exchange, now, n);
        let o = local[n - 1];
        let at = last_index(exchange_ids(exchange), o.client_order_id@);
        if after != before {
            let x = local_finding(symbol, o, exchange, now)->0;
            assert(after =~= before.push(x));
            lemma_fixable_push(before, x);
        }
    }
}

/// A reconciliation never finds more than there are orders, and never fixes
/// more than it finds.
pub proof fn law_findings_bounded(
    symbol: Seq<char>,
    local: Seq<LocalOrderSnapshot>,
    exchange: Seq<ExchangeOrderSnapshot>,
    now: u64,
)
    ensures
        findings(symbol, local, exchange, now).len() + matches(local, exchange, local.len())
            <= local.len() + exchange.len(),
        fixable_count(findings(symbol, local, exchange, now)) <= findings(
            symbol,
            local,
            exchange,
            now,
        ).len(),
{
    lemma_findings_bounds(symbol, local, exchange, now, local.len());
    lemma_no_fixable_missing(
        symbol,
        local,
        exchange,
        now,
        local_findings(symbol, local, exchange, now, local.len()),
        exchange.len(),
    );
}

/// Two sides that report the same orders, each once and in the same state,
/// are found in sync, with every order matched.
pub proof fn law_equal_sides_in_sync(
    symbol: Seq<char>,
    local: Seq<LocalOrderSnapshot>,
    exchange: Seq<ExchangeOrderSnapshot>,
    now: u64,
)
    requires
        local.len() == exchange.len(),
        forall|i: int| #![trigger local[i]] 0 <= i < local.len() ==> local[i].client_order_id@ == exchange[i].client_order_id@
            && local[i].status@ == exchange[i].status@ && local[i].filled_qty
            == exchange[i].filled_qty,
        forall|i: int, j: int|
            0 <= i < j < local.len() ==> (#[trigger] local[i]).client_order_id@ != (
            #[trigger] local[j]).client_order_id@,
    ensures
        findings(symbol, local, exchange, now) == Seq::<RecordModel>::empty(),
        matches(local, exchange, local.len()) == local.len(),
        drift(findings(symbol, local, exchange, now).len()) == SyncStatus::InSync,
{
    assert(local_ids(local) =~= exchange_ids(exchange)) by {
        assert forall|i: int| 0 <= i < local.len() implies local_ids(local)[i] == exchange_ids(
            exchange,
        )[i] by {
            assert(local[i].client_order_id@ == exchange[i].client_order_id@);
        }
    }
    lemma_equal_sides(symbol, local, exchange, now, local.len());
    assert(findings(symbol, local, exchange, now) =~= Seq::<RecordModel>::empty());
}

proof fn lemma_equal_sides(
    symbol: Seq<char>,
    local: Seq<LocalOrderSnapshot>,
    exchange: Seq<ExchangeOrderSnapshot>,
    now: u64,
    n: nat,
)
    requires
        n <= local.len(),
        local.len() == exchange.len(),
        local_ids(local) == exchange_ids(exchange),
        forall|i: int| #![trigger local[i]] 0 <= i < local.len() ==> local[i].client_order_id@ == exchange[i].client_order_id@
            && local[i].status@ == exchange[i].status@ && local[i].filled_qty
            == exchange[i].filled_qty,
        forall|i: int, j: int|
            0 <= i < j < local.len() ==> (#[trigger] local[i]).client_order_id@ != (
            #[trigger] local[j]).client_order_id@,
    ensures
        local_findings(symbol, local, exchange, now, n) == Seq::<RecordModel>::empty(),
        exchange_findings(symbol, local, exchange, now, n) == Seq::<RecordModel>::empty(),
        matches(local, exchange, n) == n,
    decreases n,
{
    if n > 0 {
        lemma_equal_sides(symbol, local, exchange, now, (n - 1) as nat);
        let ids = local_ids(local);
        let o = local[n - 1];
        assert(ids[n - 1] == o.client_order_id@);
        assert forall|j: int| n - 1 < j < ids.len() implies #[trigger] ids[j] != ids[n - 1] by {
            assert(local[n - 1].client_order_id@ != local[j].client_order_id@);
        }
        lemma_last_index_is(ids, o.client_order_id@, n - 1);
        assert(counts(ids, n - 1));
        assert(exchange[n - 1].client_order_id@ == o.client_order_id@);
    }
}

fn last_exchange(orders: &[ExchangeOrderSnapshot], id: &String) -> (r: Option<usize>)
    ensures
        r is Some <==> last_index(exchange_ids(orders@), id@) >= 0,
        r matches Some(i) ==> i == last_index(exchange_ids(orders@), id@) && i < orders@.len(),
{
    let ghost ids = exchange_ids(orders@);
    let mut i: usize = orders.len();
    while i > 0
        invariant
            i <= orders@.len(),
            ids == exchange_ids(orders@),
            forall|j: int| i <= j < orders@.len() ==> #[trigger] ids[j] != id@,
        decreases i,
    {
        i -= 1;
        if orders[i].client_order_id == *id {
            proof {
                assert(ids[i as int] == id@);
                lemma_last_index_is(ids, id@, i as int);
            }
            return Some(i);
        }
        assert(ids[i as int] != id@);
    }
    proof {
        lemma_last_index(ids, id@);
    }
    None
}

fn last_local(orders: &[LocalOrderSnapshot], id: &String) -> (r: Option<usize>)
    ensures
        r is Some <==> last_index(local_ids(orders@), id@) >= 0,
        r matches Some(i) ==> i == last_index(local_ids(orders@), id@) && i < orders@.len(),
{
    let ghost ids = local_ids(orders@);
    let mut i: usize = orders.len();
    while i > 0
        invariant
            i <= orders@.len(),
            ids == local_ids(orders@),
            forall|j: int| i <= j < orders@.len() ==> #[trigger] ids[j] != id@,
        decreases i,
    {
        i -= 1;
        if orders[i].client_order_id == *id {
            proof {
                assert(ids[i as int] == id@);
                lemma_last_index_is(ids, id@, i as int);
            }
            return Some(i);
        }
        assert(ids[i as int] != id@);
    }
    proof {
        lemma_last_index(ids, id@);
    }
    None
}

fn id_for(tag: &str, symbol: &str, id: &String) -> (s: String)
    ensures
        s@ == record_id(tag@, symbol@, id@),
{
    let mut s = tag.to_owned();
    s.push_str(symbol);
    s.push_str("_");
    s.push_str(id.as_str());
    s
}

fn describe(
    kind: &str,
    client_order_id: &String,
    symbol: &String,
    side: &String,
    quantity: Amount,
    filled_qty: Amount,
    price: Amount,
    status: &String,
) -> (s: String)
    ensures
        s@ == order_text(
            kind@,
            client_order_id@,
            symbol@,
            side@,
            quantity.units as int,
            filled_qty.units as int,
            price.units as int,
            status@,
        ),
{
    let mut s = kind.to_owned();
    s.push_str(" { client_order_id: ");
    s.push_str(quote(client_order_id.as_str()).as_str());
    s.push_str(", symbol: ");
    s.push_str(quote(symbol.as_str()).as_str());
    s.push_str(", side: ");
    s.push_str(quote(side.as_str()).as_str());
    s.push_str(", quantity: ");
    s.push_str(quantity.to_number_text().as_str());
    s.push_str(", filled_qty: ");
    s.push_str(filled_qty.to_number_text().as_str());
    s.push_str(", price: ");
    s.push_str(price.to_number_text().as_str());
    s.push_str(", status: ");
    s.push_str(quote(status.as_str()).as_str());
    s.push_str(" }");
    s
}

/// The orders that a map holds for a symbol; none where it holds none.
pub open spec fn orders_for<T>(m: Map<Seq<char>, Vec<T>>, symbol: Seq<char>) -> Seq<T> {
    if m.contains_key(symbol) {
        m[symbol]@
    } else {
        Seq::empty()
    }
}

/// What a run over the first `n` symbols finds.
pub open spec fn run_findings(
    symbols: Seq<Seq<char>>,
    local: Map<Seq<char>, Vec<LocalOrderSnapshot>>,
    exchange: Map<Seq<char>, Vec<ExchangeOrderSnapshot>>,
    now: u64,
    n: nat,
) -> Seq<RecordModel>
    decreases n,
{
    if n == 0 {
        Seq::empty()
    } else {
        run_findings(symbols, local, exchange, now, (n - 1) as nat) + symbol_findings(
            symbols[n - 1],
            local,
            exchange,
            now,
        )
    }
}

/// What a run finds for one symbol.
pub open spec fn symbol_findings(
    symbol: Seq<char>,
    local: Map<Seq<char>, Vec<LocalOrderSnapshot>>,
    exchange: Map<Seq<char>, Vec<ExchangeOrderSnapshot>>,
    now: u64,
) -> Seq<RecordModel> {
    findings(symbol, orders_for(local, symbol), orders_for(exchange, symbol), now)
}

/// How many orders the first `n` symbols have on both sides together.
pub open spec fn order_total(
    symbols: Seq<Seq<char>>,
    local: Map<Seq<char>, Vec<LocalOrderSnapshot>>,
    exchange: Map<Seq<char>, Vec<ExchangeOrderSnapshot>>,
    n: nat,
) -> nat
    decreases n,
{
    if n == 0 {
        0
    } else {
        order_total(symbols, local, exchange, (n - 1) as nat) + orders_for(
            local,
            symbols[n - 1],
        ).len() + orders_for(exchange, symbols[n - 1]).len()
    }
}

/// The advice on a symbol that has drifted too far.
pub open spec fn critical_text(symbol: Seq<char>, found: nat) -> Seq<char> {
    "Critical drift on "@ + symbol + ": "@ + decimal(found) + " discrepancies detected"@
}

/// The advice that a run over the first `n` symbols gives on single symbols.
pub open spec fn critical_advice(
    symbols: Seq<Seq<char>>,
    local: Map<Seq<char>, Vec<LocalOrderSnapshot>>,
    exchange: Map<Seq<char>, Vec<ExchangeOrderSnapshot>>,
    now: u64,
    n: nat,
) -> Seq<Seq<char>>
    decreases n,
{
    if n == 0 {
        Seq::empty()
    } else {
        let before = critical_advice(symbols, local, exchange, now, (n - 1) as nat);
        let found = symbol_findings(symbols[n - 1], local, exchange, now).len();
        if drift(found) == SyncStatus::Critical {
            before.push(critical_text(symbols[n - 1], found))
        } else {
            before
        }
    }
}

/// All advice of a run.
pub open spec fn advice(
    symbols: Seq<Seq<char>>,
    local: Map<Seq<char>, Vec<LocalOrderSnapshot>>,
    exchange: Map<Seq<char>, Vec<ExchangeOrderSnapshot>>,
    now: u64,
) -> Seq<Seq<char>> {
    let single = critical_advice(symbols, local, exchange, now, symbols.len());
    if run_findings(symbols, local, exchange, now, symbols.len()).len() > 10 {
        single.push("High discrepancy rate detected - check WebSocket connection stability"@)
    } else {
        single
    }
}

proof fn lemma_fixable_concat(a: Seq<RecordModel>, b: Seq<RecordModel>)
    ensures
        fixable_count(a + b) == fixable_count(a) + fixable_count(b),
    decreases b.len(),
{
    if b.len() == 0 {
        assert(a + b =~= a);
    } else {
        lemma_fixable_concat(a, b.drop_last());
        assert((a + b).drop_last() =~= a + b.drop_last());
    }
}

proof fn lemma_order_total_mono(
    symbols: Seq<Seq<char>>,
    local: Map<Seq<char>, Vec<LocalOrderSnapshot>>,
    exchange: Map<Seq<char>, Vec<ExchangeOrderSnapshot>>,
    n: nat,
    m: nat,
)
    requires
        n <= m,
    ensures
        order_total(symbols, local, exchange, n) <= order_total(symbols, local, exchange, m),
    decreases m,
{
    if n < m {
        lemma_order_total_mono(symbols, local, exchange, n, (m - 1) as nat);
    }
}

/// When each of the first `n` symbols was last reconciled, after a run at `secs`.
pub open spec fn sync_times(
    before: Map<Seq<char>, u64>,
    symbols: Seq<Seq<char>>,
    secs: u64,
    n: nat,
) -> Map<Seq<char>, u64>
    decreases n,
{
    if n == 0 {
        before
    } else {
        sync_times(before, symbols, secs, (n - 1) as nat).insert(symbols[n - 1], secs)
    }
}

impl ReconciliationDaemon {
    /// The history keeps its bound, and no symbol has two sync times.
    pub open spec fn wf(&self) -> bool {
        &&& self.discrepancy_history@.len() <= self.max_history_size
        &&& self.max_history_size > 0
        &&& self.last_sync_per_symbol.wf()
    }

    /// What the history holds.
    pub open spec fn history(&self) -> Seq<RecordModel> {
        models(self.discrepancy_history@)
    }

    /// The settings and counters are those of `other`.
    pub open spec fn differs_only_in_history(&self, other: &Self) -> bool {
        &&& self.monitored_symbols == other.monitored_symbols
        &&& self.last_sync_per_symbol == other.last_sync_per_symbol
        &&& self.sync_interval_sec == other.sync_interval_sec
        &&& self.max_history_size == other.max_history_size
        &&& self.is_active == other.is_active
        &&& self.total_reconciliations == other.total_reconciliations
        &&& self.total_discrepancies_found == other.total_discrepancies_found
        &&& self.total_discrepancies_fixed == other.total_discrepancies_fixed
        &&& self.consecutive_failures == other.consecutive_failures
    }

    /// What a reconciliation at `now` makes of the daemon.
    pub open spec fn reconciled(
        &self,
        after: &Self,
        symbol: Seq<char>,
        local: Seq<LocalOrderSnapshot>,
        exchange: Seq<ExchangeOrderSnapshot>,
        now: u64,
    ) -> bool {
        let found = findings(symbol, local, exchange, now);
        &&& after.wf()
        &&& after.history() == newest(self.history() + found, self.max_history_size as nat)
        &&& after.last_sync_per_symbol@ == self.last_sync_per_symbol@.insert(symbol, now / 1000)
        &&& after.monitored_symbols == self.monitored_symbols
        &&& after.sync_interval_sec == self.sync_interval_sec
        &&& after.max_history_size == self.max_history_size
        &&& after.is_active == self.is_active
        &&& after.total_reconciliations == self.total_reconciliations.wrapping_add(1)
        &&& after.total_discrepancies_found == self.total_discrepancies_found.wrapping_add(
            found.len() as u64,
        )
        &&& after.total_discrepancies_fixed == self.total_discrepancies_fixed.wrapping_add(
            fixable_count(found) as u64,
        )
        &&& after.consecutive_failures == 0
    }

    /// What a run over all monitored symbols at `now` finds, advises and
    /// makes of the daemon.
    pub open spec fn run_at(
        &self,
        after: &Self,
        local: Map<Seq<char>, Vec<LocalOrderSnapshot>>,
        exchange: Map<Seq<char>, Vec<ExchangeOrderSnapshot>>,
        now: u64,
        r: ReconciliationSummary,
    ) -> bool {
        let symbols = views(self.monitored_symbols@);
        let n = symbols.len();
        let found = run_findings(symbols, local, exchange, now, n);
        &&& r.total_discrepancies_found == found.len()
        &&& r.total_discrepancies_fixed == fixable_count(found)
        &&& r.critical_issues == critical_advice(symbols, local, exchange, now, n).len()
        &&& views(r.recommendations@) == advice(symbols, local, exchange, now)
        &&& after.history() == newest(self.history() + found, self.max_history_size as nat)
        &&& after.last_sync_per_symbol@ == sync_times(
            self.last_sync_per_symbol@,
            symbols,
            now / 1000,
            n,
        )
        &&& after.total_reconciliations == self.total_reconciliations.wrapping_add(n as u64)
        &&& after.total_discrepancies_found == self.total_discrepancies_found.wrapping_add(
            found.len() as u64,
        )
        &&& after.total_discrepancies_fixed == self.total_discrepancies_fixed.wrapping_add(
            fixable_count(found) as u64,
        )
        &&& after.consecutive_failures == (if n == 0 {
            self.consecutive_failures
        } else {
            0
        })
    }

    /// A daemon that monitors nothing yet.
    pub fn new(sync_interval_sec: u64) -> (d: Self)
        ensures
            d.wf(),
            d.monitored_symbols@.len() == 0,
            d.discrepancy_history@.len() == 0,
            d.last_sync_per_symbol@ == Map::<Seq<char>, u64>::empty(),
            d.sync_interval_sec == sync_interval_sec,
            d.max_history_size == 1000,
            d.is_active,
            d.total_reconciliations == 0,
            d.total_discrepancies_found == 0,
            d.total_discrepancies_fixed == 0,
            d.consecutive_failures == 0,
    {
        ReconciliationDaemon {
            monitored_symbols: Vec::new(),
            discrepancy_history: Vec::new(),
            last_sync_per_symbol: Table::new(),
            sync_interval_sec,
            max_history_size: 1000,
            is_active: true,
            total_reconciliations: 0,
            total_discrepancies_found: 0,
            total_discrepancies_fixed: 0,
            consecutive_failures: 0,
        }
    }

    /// Monitors a symbol, unless it is monitored already.
    pub fn add_symbol(&mut self, symbol: &str)
        ensures
            views(final(self).monitored_symbols@) == (if views(
                old(self).monitored_symbols@,
            ).contains(symbol@) {
                views(old(self).monitored_symbols@)
            } else {
                views(old(self).monitored_symbols@).push(symbol@)
            }),
            final(self).discrepancy_history == old(self).discrepancy_history,
            *final(self) == (ReconciliationDaemon {
                monitored_symbols: final(self).monitored_symbols,
                ..*old(self)
            }),
    {
        let wanted = symbol.to_owned();
        let mut i: usize = 0;
        while i < self.monitored_symbols.len()
            invariant
                i <= self.monitored_symbols@.len(),
                wanted@ == symbol@,
                *self == *old(self),
                forall|j: int|
                    0 <= j < i ==> (#[trigger] self.monitored_symbols@[j])@ != symbol@,
            decreases self.monitored_symbols@.len() - i,
        {
            if self.monitored_symbols[i] == wanted {
                assert(views(self.monitored_symbols@)[i as int] == symbol@);
                return;
            }
            i += 1;
        }
        let ghost before = views(self.monitored_symbols@);
        assert(!before.contains(symbol@)) by {
            assert forall|j: int| 0 <= j < before.len() implies before[j] != symbol@ by {
                assert(self.monitored_symbols@[j]@ != symbol@);
            }
        }
        self.monitored_symbols.push(wanted);
        assert(views(self.monitored_symbols@) =~= before.push(symbol@));
    }

    /// Monitors a symbol no longer.
    pub fn remove_symbol(&mut self, symbol: &str)
        ensures
            views(final(self).monitored_symbols@) == views(old(self).monitored_symbols@).filter(
                |s: Seq<char>| s != symbol@,
            ),
            *final(self) == (ReconciliationDaemon {
                monitored_symbols: final(self).monitored_symbols,
                ..*old(self)
            }),
    {
        let unwanted = symbol.to_owned();
        let ghost keep = |s: Seq<char>| s != symbol@;
        let ghost all = views(self.monitored_symbols@);
        let mut kept: Vec<String> = Vec::new();
        let mut i: usize = 0;
        assert(all.take(0).filter(keep) =~= Seq::empty());
        assert(views(kept@) =~= Seq::empty());
        while i < self.monitored_symbols.len()
            invariant
                i <= self.monitored_symbols@.len(),
                unwanted@ == symbol@,
                keep == (|s: Seq<char>| s != symbol@),
                all == views(self.monitored_symbols@),
                *self == *old(self),
                views(kept@) == all.take(i as int).filter(keep),
            decreases self.monitored_symbols@.len() - i,
        {
            let ghost before = views(kept@);
            let s = self.monitored_symbols[i].clone();
            proof {
                assert(all.take(i + 1).drop_last() =~= all.take(i as int));
                reveal(Seq::filter);
            }
            if !(s == unwanted) {
                kept.push(s);
                assert(views(kept@) =~= before.push(s@));
            }
            i += 1;
        }
        assert(all.take(all.len() as int) =~= all);
        self.monitored_symbols = kept;
    }

    /// Whether a symbol is due: the daemon is active and the interval has passed
    /// since the last time.
    pub open spec fn sync_due(&self, symbol: Seq<char>, now: u64) -> bool {
        self.is_active && now.wrapping_sub(
            if self.last_sync_per_symbol@.contains_key(symbol) {
                self.last_sync_per_symbol@[symbol]
            } else {
                0
            },
        ) >= self.sync_interval_sec
    }

    /// Whether a symbol is due at `now`, given in seconds. Time that runs
    /// backwards wraps around.
    pub fn should_sync_at(&self, symbol: &str, now: u64) -> (r: bool)
        requires
            self.last_sync_per_symbol.wf(),
        ensures
            r == self.sync_due(symbol@, now),
    {
        if !self.is_active {
            return false;
        }
        let last: u64 = match self.last_sync_per_symbol.get(symbol) {
            Some(t) => *t,
            None => 0,
        };
        now.wrapping_sub(last) >= self.sync_interval_sec
    }

    /// Whether a symbol is due now.
    pub fn should_sync(&self, symbol: &str) -> (r: bool)
        requires
            self.last_sync_per_symbol.wf(),
        ensures
            r ==> self.is_active,
            self.is_active && self.sync_interval_sec == 0 ==> r,
    {
        self.should_sync_at(symbol, now_secs())
    }

    /// In what two states of one order differ.
    fn compare_orders(
        &self,
        symbol: &str,
        local: &LocalOrderSnapshot,
        exchange: &ExchangeOrderSnapshot,
        now: u64,
    ) -> (r: Option<DiscrepancyRecord>)
        ensures
            r is Some <==> comparison(symbol@, *local, *exchange, now) is Some,
            r matches Some(d) ==> comparison(symbol@, *local, *exchange, now) == Some(d@),
    {
        if !(local.status == exchange.status) {
            return Some(
                DiscrepancyRecord {
                    discrepancy_id: id_for("STATUS_", symbol, &local.client_order_id),
                    symbol: symbol.to_owned(),
                    client_order_id: Some(local.client_order_id.clone()),
                    discrepancy_type: DiscrepancyType::StatusMismatch,
                    local_value: local.status.clone(),
                    exchange_value: exchange.status.clone(),
                    detected_at_ms: now,
                    resolved: false,
                    resolution_action: None,
                },
            );
        }
        if local.filled_qty.further_apart(exchange.filled_qty, QUANTITY_TOLERANCE) {
            return Some(
                DiscrepancyRecord {
                    discrepancy_id: id_for("QTY_", symbol, &local.client_order_id),
                    symbol: symbol.to_owned(),
                    client_order_id: Some(local.client_order_id.clone()),
                    discrepancy_type: DiscrepancyType::QuantityMismatch,
                    local_value: local.filled_qty.to_plain_text(),
                    exchange_value: exchange.filled_qty.to_plain_text(),
                    detected_at_ms: now,
                    resolved: false,
                    resolution_action: None,
                },
            );
        }
        None
    }

    /// Appends a record; the oldest one leaves where there are too many.
    fn record_discrepancy(&mut self, discrepancy: DiscrepancyRecord)
        requires
            old(self).wf(),
        ensures
            final(self).wf(),
            final(self).differs_only_in_history(old(self)),
            final(self).history() == newest(
                old(self).history().push(discrepancy@),
                old(self).max_history_size as nat,
            ),
    {
        let ghost before = self.history();
        self.discrepancy_history.push(discrepancy);
        assert(self.history() =~= before.push(discrepancy@));
        if self.discrepancy_history.len() > self.max_history_size {
            let _ = self.discrepancy_history.remove(0);
            assert(self.history() =~= newest(
                before.push(discrepancy@),
                self.max_history_size as nat,
            ));
        }
    }

    /// Whether a discrepancy is fixed without asking.
    fn can_auto_fix(&self, discrepancy: &DiscrepancyRecord) -> (r: bool)
        ensures
            r == fixable(discrepancy.discrepancy_type),
    {
        match discrepancy.discrepancy_type {
            DiscrepancyType::StatusMismatch => true,
            DiscrepancyType::FillCountMismatch => true,
            _ => false,
        }
    }

    /// Reconciles one symbol at `now`, given in milliseconds.
    pub fn reconcile_symbol_at(
        &mut self,
        symbol: &str,
        local_orders: &[LocalOrderSnapshot],
        exchange_orders: &[ExchangeOrderSnapshot],
        now: u64,
    ) -> (r: ReconciliationStatus)
        requires
            old(self).wf(),
            local_orders@.len() + exchange_orders@.len() <= u32::MAX,
        ensures
            old(self).reconciled(final(self), symbol@, local_orders@, exchange_orders@, now),
            r.symbol@ == symbol@,
            r.local_orders_count == local_orders@.len(),
            r.exchange_orders_count == exchange_orders@.len(),
            r.matched_orders == matches(local_orders@, exchange_orders@, local_orders@.len()),
            r.discrepancies_found == findings(
                symbol@,
                local_orders@,
                exchange_orders@,
                now,
            ).len(),
            r.discrepancies_fixed == fixable_count(
                findings(symbol@, local_orders@, exchange_orders@, now),
            ),
            r.last_sync_timestamp_ms == now,
            r.sync_status == drift(
                findings(symbol@, local_orders@, exchange_orders@, now).len(),
            ),
    {
        let ghost max = self.max_history_size as nat;
        let ghost h0 = self.history();
        let ghost ls = local_orders@;
        let ghost es = exchange_orders@;
        let mut matched: u32 = 0;
        let mut discrepancies: u32 = 0;
        let mut fixed: u32 = 0;
        let mut i: usize = 0;
        assert(h0 + Seq::<RecordModel>::empty() =~= h0);
        while i < local_orders.len()
            invariant
                i <= ls.len(),
                ls == local_orders@,
                es == exchange_orders@,
                ls.len() + es.len() <= u32::MAX,
                self.wf(),
                self.differs_only_in_history(old(self)),
                max == self.max_history_size,
                self.history() == newest(
                    h0 + local_findings(symbol@, ls, es, now, i as nat),
                    max,
                ),
                matched == matches(ls, es, i as nat),
                discrepancies == local_findings(symbol@, ls, es, now, i as nat).len(),
                fixed == fixable_count(local_findings(symbol@, ls, es, now, i as nat)),
            decreases ls.len() - i,
        {
            let local = &local_orders[i];
            let ghost before = local_findings(symbol@, ls, es, now, i as nat);
            proof {
                lemma_findings_bounds(symbol@, ls, es, now, i as nat);
                assert(local_ids(ls)[i as int] == local.client_order_id@);
            }
            if last_local(local_orders, &local.client_order_id) == Some(i) {
                match last_exchange(exchange_orders, &local.client_order_id) {
                    Some(at) => {
                        match self.compare_orders(symbol, local, &exchange_orders[at], now) {
                            Some(discrepancy) => {
                                discrepancies += 1;
                                if self.can_auto_fix(&discrepancy) {
                                    fixed += 1;
                                }
                                proof {
                                    lemma_newest_push(h0 + before, max, discrepancy@);
                                    lemma_fixable_push(before, discrepancy@);
                                    assert((h0 + before).push(discrepancy@) =~= h0 + before.push(
                                        discrepancy@,
                                    ));
                                }
                                self.record_discrepancy(discrepancy);
                            },
                            None => {
                                matched += 1;
                            },
                        }
                    },
                    None => {
                        if !same(local.status.as_str(), "FILLED") && !same(
                            local.status.as_str(),
                            "CANCELED",
                        ) {
                            let discrepancy = DiscrepancyRecord {
                                discrepancy_id: id_for("PHANTOM_", symbol, &local.client_order_id),
                                symbol: symbol.to_owned(),
                                client_order_id: Some(local.client_order_id.clone()),
                                discrepancy_type: DiscrepancyType::PhantomOrder,
                                local_value: describe(
                                    "LocalOrderSnapshot",
                                    &local.client_order_id,
                                    &local.symbol,
                                    &local.side,
                                    local.quantity,
                                    local.filled_qty,
                                    local.price,
                                    &local.status,
                                ),
                                exchange_value: "NOT_FOUND".to_owned(),
                                detected_at_ms: now,
                                resolved: false,
                                resolution_action: None,
                            };
                            discrepancies += 1;
                            proof {
                                lemma_newest_push(h0 + before, max, discrepancy@);
                                lemma_fixable_push(before, discrepancy@);
                                assert((h0 + before).push(discrepancy@) =~= h0 + before.push(
                                    discrepancy@,
                                ));
                            }
                            self.record_discrepancy(discrepancy);
                        }
                    },
                }
            }
            i += 1;
        }
        let ghost first = local_findings(symbol@, ls, es, now, ls.len());
        let mut k: usize = 0;
        proof {
            lemma_findings_bounds(symbol@, ls, es, now, ls.len());
            assert(first + Seq::<RecordModel>::empty() =~= first);
        }
        while k < exchange_orders.len()
            invariant
                k <= es.len(),
                ls == local_orders@,
                es == exchange_orders@,
                ls.len() + es.len() <= u32::MAX,
                first.len() <= ls.len(),
                self.wf(),
                self.differs_only_in_history(old(self)),
                max == self.max_history_size,
                self.history() == newest(
                    h0 + (first + exchange_findings(symbol@, ls, es, now, k as nat)),
                    max,
                ),
                discrepancies == first.len() + exchange_findings(
                    symbol@,
                    ls,
                    es,
                    now,
                    k as nat,
                ).len(),
            decreases es.len() - k,
        {
            let exchange = &exchange_orders[k];
            let ghost before = exchange_findings(symbol@, ls, es, now, k as nat);
            proof {
                lemma_no_fixable_missing(symbol@, ls, es, now, first, k as nat);
                assert(exchange_ids(es)[k as int] == exchange.client_order_id@);
            }
            if last_exchange(exchange_orders, &exchange.client_order_id) == Some(k) {
                if last_local(local_orders, &exchange.client_order_id).is_none() {
                    let discrepancy = DiscrepancyRecord {
                        discrepancy_id: id_for("MISSING_", symbol, &exchange.client_order_id),
                        symbol: symbol.to_owned(),
                        client_order_id: Some(exchange.client_order_id.clone()),
                        discrepancy_type: DiscrepancyType::MissingOrder,
                        local_value: "NOT_FOUND".to_owned(),
                        exchange_value: describe(
                            "ExchangeOrderSnapshot",
                            &exchange.client_order_id,
                            &exchange.symbol,
                            &exchange.side,
                            exchange.quantity,
                            exchange.filled_qty,
                            exchange.price,
                            &exchange.status,
                        ),
                        detected_at_ms: now,
                        resolved: false,
                        resolution_action: None,
                    };
                    discrepancies += 1;
                    proof {
                        lemma_newest_push(h0 + (first + before), max, discrepancy@);
                        assert((h0 + (first + before)).push(discrepancy@) =~= h0 + (first
                            + before.push(discrepancy@)));
                    }
                    self.record_discrepancy(discrepancy);
                }
            }
            k += 1;
        }
        proof {
            lemma_no_fixable_missing(symbol@, ls, es, now, first, es.len());
        }
        let sync_status = if discrepancies == 0 {
            SyncStatus::InSync
        } else if discrepancies <= 2 {
            SyncStatus::MinorDrift
        } else if discrepancies <= 5 {
            SyncStatus::MajorDrift
        } else {
            SyncStatus::Critical
        };
        self.total_reconciliations = self.total_reconciliations.wrapping_add(1);
        self.total_discrepancies_found = self.total_discrepancies_found.wrapping_add(
            discrepancies as u64,
        );
        self.total_discrepancies_fixed = self.total_discrepancies_fixed.wrapping_add(fixed as u64);
        self.consecutive_failures = 0;
        let _ = self.last_sync_per_symbol.insert(symbol.to_owned(), now / 1000);
        ReconciliationStatus {
            symbol: symbol.to_owned(),
            local_orders_count: local_orders.len() as u32,
            exchange_orders_count: exchange_orders.len() as u32,
            matched_orders: matched,
            discrepancies_found: discrepancies,
            discrepancies_fixed: fixed,
            last_sync_timestamp_ms: now,
            sync_status,
        }
    }

    /// Reconciles one symbol; the result tells at what time.
    pub fn reconcile_symbol(
        &mut self,
        symbol: &str,
        local_orders: &[LocalOrderSnapshot],
        exchange_orders: &[ExchangeOrderSnapshot],
    ) -> (r: ReconciliationStatus)
        requires
            old(self).wf(),
            local_orders@.len() + exchange_orders@.len() <= u32::MAX,
        ensures
            old(self).reconciled(
                final(self),
                symbol@,
                local_orders@,
                exchange_orders@,
                r.last_sync_timestamp_ms,
            ),
            r.symbol@ == symbol@,
            r.local_orders_count == local_orders@.len(),
            r.exchange_orders_count == exchange_orders@.len(),
            r.matched_orders == matches(local_orders@, exchange_orders@, local_orders@.len()),
            r.discrepancies_found == findings(
                symbol@,
                local_orders@,
                exchange_orders@,
                r.last_sync_timestamp_ms,
            ).len(),
            r.discrepancies_fixed == fixable_count(
                findings(symbol@, local_orders@, exchange_orders@, r.last_sync_timestamp_ms),
            ),
            r.sync_status == drift(
                findings(symbol@, local_orders@, exchange_orders@, r.last_sync_timestamp_ms).len(),
            ),
    {
        let now: u64 = now_ms();
        self.reconcile_symbol_at(symbol, local_orders, exchange_orders, now)
    }

    /// The newest `limit` records, newest first.
    pub fn get_recent_discrepancies(&self, limit: usize) -> (r: Vec<&DiscrepancyRecord>)
        ensures
            r@.len() == (if limit < self.discrepancy_history@.len() {
                limit as nat
            } else {
                self.discrepancy_history@.len()
            }),
            forall|i: int|
                0 <= i < r@.len() ==> *(#[trigger] r@[i])
                    == self.discrepancy_history@[self.discrepancy_history@.len() - 1 - i],
    {
        let n: usize = self.discrepancy_history.len();
        let mut r: Vec<&DiscrepancyRecord> = Vec::new();
        while r.len() < limit && r.len() < n
            invariant
                n == self.discrepancy_history@.len(),
                r@.len() <= limit,
                r@.len() <= n,
                forall|i: int|
                    0 <= i < r@.len() ==> *(#[trigger] r@[i]) == self.discrepancy_history@[n - 1
                        - i],
            decreases n - r@.len(),
        {
            r.push(&self.discrepancy_history[n - 1 - r.len()]);
        }
        r
    }

    /// The records that are not resolved, oldest first.
    pub fn get_unresolved_discrepancies(&self) -> (r: Vec<&DiscrepancyRecord>)
        ensures
            r@.unref() == self.discrepancy_history@.filter(|d: DiscrepancyRecord| !d.resolved),
    {
        let ghost open = |d: DiscrepancyRecord| !d.resolved;
        let ghost all = self.discrepancy_history@;
        let mut r: Vec<&DiscrepancyRecord> = Vec::new();
        let mut i: usize = 0;
        assert(r@.unref() =~= all.take(0).filter(open));
        while i < self.discrepancy_history.len()
            invariant
                i <= all.len(),
                all == self.discrepancy_history@,
                open == (|d: DiscrepancyRecord| !d.resolved),
                r@.unref() == all.take(i as int).filter(open),
            decreases all.len() - i,
        {
            let ghost before = r@.unref();
            proof {
                assert(all.take(i + 1).drop_last() =~= all.take(i as int));
                reveal(Seq::filter);
            }
            if !self.discrepancy_history[i].resolved {
                r.push(&self.discrepancy_history[i]);
                assert(r@.unref() =~= before.push(all[i as int]));
            }
            i += 1;
        }
        assert(all.take(all.len() as int) =~= all);
        r
    }

    /// Marks the oldest record with this identifier as resolved.
    pub fn mark_resolved(&mut self, discrepancy_id: &str, action: &str)
        ensures
            final(self).differs_only_in_history(old(self)),
            final(self).discrepancy_history@.len() == old(self).discrepancy_history@.len(),
            (exists|i: int|
                0 <= i < old(self).history().len() && #[trigger] old(
                    self,
                ).history()[i].discrepancy_id == discrepancy_id@ && (forall|j: int|
                    0 <= j < i ==> #[trigger] old(self).history()[j].discrepancy_id
                        != discrepancy_id@) && final(self).history() == old(self).history().update(
                    i,
                    (RecordModel {
                        resolved: true,
                        resolution_action: Some(action@),
                        ..old(self).history()[i]
                    }),
                )) || ((forall|j: int|
                0 <= j < old(self).history().len() ==> #[trigger] old(
                    self,
                ).history()[j].discrepancy_id != discrepancy_id@) && final(self).history() == old(
                self,
            ).history()),
    {
        let wanted = discrepancy_id.to_owned();
        let mut i: usize = 0;
        while i < self.discrepancy_history.len()
            invariant
                i <= self.discrepancy_history@.len(),
                wanted@ == discrepancy_id@,
                *self == *old(self),
                forall|j: int|
                    0 <= j < i ==> #[trigger] self.history()[j].discrepancy_id != discrepancy_id@,
            decreases self.discrepancy_history@.len() - i,
        {
            if self.discrepancy_history[i].discrepancy_id == wanted {
                let ghost before = self.history();
                let entry = &mut self.discrepancy_history[i];
                entry.resolved = true;
                entry.resolution_action = Some(action.to_owned());
                assert(self.history() =~= before.update(
                    i as int,
                    RecordModel {
                        resolved: true,
                        resolution_action: Some(action@),
                        ..before[i as int]
                    },
                ));
                assert(before[i as int].discrepancy_id == discrepancy_id@);
                return;
            }
            assert(self.history()[i as int].discrepancy_id != discrepancy_id@);
            i += 1;
        }
    }

    /// Reconciles all monitored symbols at `now`, given in milliseconds.
    pub fn full_reconciliation_at(
        &mut self,
        all_local_orders: &Table<Vec<LocalOrderSnapshot>>,
        all_exchange_orders: &Table<Vec<ExchangeOrderSnapshot>>,
        now: u64,
    ) -> (r: ReconciliationSummary)
        requires
            old(self).wf(),
            all_local_orders.wf(),
            all_exchange_orders.wf(),
            old(self).monitored_symbols@.len() <= u32::MAX,
            order_total(
                views(old(self).monitored_symbols@),
                all_local_orders@,
                all_exchange_orders@,
                old(self).monitored_symbols@.len(),
            ) <= u32::MAX,
        ensures
            final(self).wf(),
            old(self).run_at(final(self), all_local_orders@, all_exchange_orders@, now, r),
            r.sync_duration_ms == 0,
            r.total_symbols_checked == old(self).monitored_symbols@.len(),
            final(self).monitored_symbols == old(self).monitored_symbols,
            final(self).sync_interval_sec == old(self).sync_interval_sec,
            final(self).max_history_size == old(self).max_history_size,
            final(self).is_active == old(self).is_active,
    {
        let ghost symbols = views(self.monitored_symbols@);
        let ghost ls = all_local_orders@;
        let ghost es = all_exchange_orders@;
        let ghost max = self.max_history_size as nat;
        let ghost h0 = self.history();
        let mut found: u32 = 0;
        let mut fixed: u32 = 0;
        let mut critical: u32 = 0;
        let mut recommendations: Vec<String> = Vec::new();
        let no_local: Vec<LocalOrderSnapshot> = Vec::new();
        let no_exchange: Vec<ExchangeOrderSnapshot> = Vec::new();
        let mut i: usize = 0;
        assert(h0 + Seq::<RecordModel>::empty() =~= h0);
        assert(views(recommendations@) =~= Seq::empty());
        while i < self.monitored_symbols.len()
            invariant
                i <= symbols.len(),
                symbols.len() <= u32::MAX,
                symbols == views(self.monitored_symbols@),
                self.wf(),
                all_local_orders.wf(),
                all_exchange_orders.wf(),
                ls == all_local_orders@,
                es == all_exchange_orders@,
                no_local@.len() == 0,
                no_exchange@.len() == 0,
                max == self.max_history_size,
                order_total(symbols, ls, es, symbols.len()) <= u32::MAX,
                found == run_findings(symbols, ls, es, now, i as nat).len(),
                found <= order_total(symbols, ls, es, i as nat),
                fixed == fixable_count(run_findings(symbols, ls, es, now, i as nat)),
                fixed <= found,
                critical == critical_advice(symbols, ls, es, now, i as nat).len(),
                critical <= i,
                views(recommendations@) == critical_advice(symbols, ls, es, now, i as nat),
                self.history() == newest(
                    h0 + run_findings(symbols, ls, es, now, i as nat),
                    max,
                ),
                self.last_sync_per_symbol@ == sync_times(
                    old(self).last_sync_per_symbol@,
                    symbols,
                    now / 1000,
                    i as nat,
                ),
                self.total_reconciliations == old(self).total_reconciliations.wrapping_add(
                    i as u64,
                ),
                self.total_discrepancies_found == old(
                    self,
                ).total_discrepancies_found.wrapping_add(found as u64),
                self.total_discrepancies_fixed == old(
                    self,
                ).total_discrepancies_fixed.wrapping_add(fixed as u64),
                self.consecutive_failures == (if i == 0 {
                    old(self).consecutive_failures
                } else {
                    0
                }),
                self.monitored_symbols == old(self).monitored_symbols,
                self.sync_interval_sec == old(self).sync_interval_sec,
                self.max_history_size == old(self).max_history_size,
                self.is_active == old(self).is_active,
            decreases symbols.len() - i,
        {
            let symbol = self.monitored_symbols[i].clone();
            let local = match all_local_orders.get(symbol.as_str()) {
                Some(v) => v,
                None => &no_local,
            };
            let exchange = match all_exchange_orders.get(symbol.as_str()) {
                Some(v) => v,
                None => &no_exchange,
            };
            let ghost one = symbol_findings(symbol@, ls, es, now);
            let ghost so_far = run_findings(symbols, ls, es, now, i as nat);
            proof {
                assert(symbols[i as int] == symbol@);
                assert(local@ =~= orders_for(ls, symbol@));
                assert(exchange@ =~= orders_for(es, symbol@));
                lemma_order_total_mono(symbols, ls, es, (i + 1) as nat, symbols.len());
                law_findings_bounded(symbol@, local@, exchange@, now);
                lemma_fixable_concat(so_far, one);
                lemma_newest_concat(h0, max, so_far, one);
            }
            let status = self.reconcile_symbol_at(
                symbol.as_str(),
                local.as_slice(),
                exchange.as_slice(),
                now,
            );
            found += status.discrepancies_found;
            fixed += status.discrepancies_fixed;
            if status.sync_status == SyncStatus::Critical {
                critical += 1;
                let ghost before = views(recommendations@);
                let mut text = "Critical drift on ".to_owned();
                text.push_str(symbol.as_str());
                text.push_str(": ");
                push_decimal(&mut text, status.discrepancies_found as u64);
                text.push_str(" discrepancies detected");
                recommendations.push(text);
                assert(views(recommendations@) =~= before.push(
                    critical_text(symbol@, one.len()),
                ));
            }
            i += 1;
        }
        if found > 10 {
            let ghost before = views(recommendations@);
            recommendations.push(
                "High discrepancy rate detected - check WebSocket connection stability".to_owned(),
            );
            assert(views(recommendations@) =~= before.push(
                "High discrepancy rate detected - check WebSocket connection stability"@,
            ));
        }
        ReconciliationSummary {
            total_symbols_checked: self.monitored_symbols.len() as u32,
            total_discrepancies_found: found,
            total_discrepancies_fixed: fixed,
            sync_duration_ms: 0,
            critical_issues: critical,
            recommendations,
        }
    }

    /// Reconciles all monitored symbols, and tells how long it took.
    pub fn full_reconciliation(
        &mut self,
        all_local_orders: &Table<Vec<LocalOrderSnapshot>>,
        all_exchange_orders: &Table<Vec<ExchangeOrderSnapshot>>,
    ) -> (r: ReconciliationSummary)
        requires
            old(self).wf(),
            all_local_orders.wf(),
            all_exchange_orders.wf(),
            old(self).monitored_symbols@.len() <= u32::MAX,
            order_total(
                views(old(self).monitored_symbols@),
                all_local_orders@,
                all_exchange_orders@,
                old(self).monitored_symbols@.len(),
            ) <= u32::MAX,
        ensures
            final(self).wf(),
            exists|now: u64| #[trigger]
                old(self).run_at(final(self), all_local_orders@, all_exchange_orders@, now, r),
            r.total_symbols_checked == old(self).monitored_symbols@.len(),
            final(self).monitored_symbols == old(self).monitored_symbols,
            final(self).sync_interval_sec == old(self).sync_interval_sec,
            final(self).max_history_size == old(self).max_history_size,
            final(self).is_active == old(self).is_active,
    {
        let start: u64 = now_ms();
        let mut r = self.full_reconciliation_at(all_local_orders, all_exchange_orders, start);
        let end: u64 = now_ms();
        r.sync_duration_ms = end.saturating_sub(start);
        assert(old(self).run_at(self, all_local_orders@, all_exchange_orders@, start, r));
        r
    }

    /// The daemon's counters.
    pub fn get_stats(&self) -> (r: ReconciliationStats)
        ensures
            r.is_active == self.is_active,
            r.monitored_symbols_count == self.monitored_symbols@.len() as u32,
            r.total_reconciliations == self.total_reconciliations,
            r.total_discrepancies_found == self.total_discrepancies_found,
            r.total_discrepancies_fixed == self.total_discrepancies_fixed,
            r.consecutive_failures == self.consecutive_failures,
            r.history_size == self.discrepancy_history@.len() as u32,
    {
        ReconciliationStats {
            is_active: self.is_active,
            monitored_symbols_count: self.monitored_symbols.len() as u32,
            total_reconciliations: self.total_reconciliations,
            total_discrepancies_found: self.total_discrepancies_found,
            total_discrepancies_fixed: self.total_discrepancies_fixed,
            consecutive_failures: self.consecutive_failures,
            history_size: self.discrepancy_history.len() as u32,
        }
    }

    /// Sets the interval between two runs: five seconds at least.
    pub fn set_sync_interval(&mut self, interval_sec: u64)
        ensures
            *final(self) == (ReconciliationDaemon {
                sync_interval_sec: if interval_sec < 5 { 5 } else { interval_sec },
                ..*old(self)
            }),
    {
        self.sync_interval_sec = if interval_sec < 5 { 5 } else { interval_sec };
    }

    /// Lets symbols become due.
    pub fn activate(&mut self)
        ensures
            *final(self) == (ReconciliationDaemon { is_active: true, ..*old(self) }),
    {
        self.is_active = true;
    }

    /// Lets no symbol become due.
    pub fn deactivate(&mut self)
        ensures
            *final(self) == (ReconciliationDaemon { is_active: false, ..*old(self) }),
    {
        self.is_active = false;
    }
}

} // verus!
