//! What a reconciliation finds, told from the orders of both sides.

use vstd::prelude::*;
use crate::base::amount::plain_text;
use crate::base::sequences::lemma_push_holds;
use crate::base::text::{decimal, last_index, lemma_last_index, lemma_last_index_is};
use crate::exchange::reconciliation::{
    advice, comparison, counts, critical_advice, drift, exchange_finding, exchange_findings,
    exchange_ids, exchange_text, findings, fixable_count, law_findings_bounded, local_finding,
    local_findings, local_ids, local_text, run_findings, sync_times, DiscrepancyType,
    ExchangeOrderSnapshot, LocalOrderSnapshot, ReconciliationDaemon, RecordModel, SyncStatus,
};

verus! {

/// Whether no two local orders share an identifier.
pub open spec fn distinct_local(s: Seq<LocalOrderSnapshot>) -> bool {
    forall|i: int, j: int|
        0 <= i < j < s.len() ==> (#[trigger] s[i]).client_order_id@ != (
        #[trigger] s[j]).client_order_id@
}

/// Whether no two exchange orders share an identifier.
pub open spec fn distinct_exchange(s: Seq<ExchangeOrderSnapshot>) -> bool {
    forall|i: int, j: int|
        0 <= i < j < s.len() ==> (#[trigger] s[i]).client_order_id@ != (
        #[trigger] s[j]).client_order_id@
}

/// Whether the exchange reports an order with an identifier.
pub open spec fn reported(s: Seq<ExchangeOrderSnapshot>, id: Seq<char>) -> bool {
    exists|j: int| 0 <= j < s.len() && (#[trigger] s[j]).client_order_id@ == id
}

/// Whether an order with an identifier is known here.
pub open spec fn known(s: Seq<LocalOrderSnapshot>, id: Seq<char>) -> bool {
    exists|i: int| 0 <= i < s.len() && (#[trigger] s[i]).client_order_id@ == id
}

/// Whether a record is a new one of a kind on an order, with these values.
pub open spec fn notes(
    r: RecordModel,
    kind: DiscrepancyType,
    symbol: Seq<char>,
    id: Seq<char>,
    local_value: Seq<char>,
    exchange_value: Seq<char>,
    now: u64,
) -> bool {
    &&& r.discrepancy_type == kind
    &&& r.symbol == symbol
    &&& r.client_order_id == Some(id)
    &&& r.local_value == local_value
    &&& r.exchange_value == exchange_value
    &&& r.detected_at_ms == now
    &&& !r.resolved
    &&& r.resolution_action is None
}

proof fn lemma_local_at(local: Seq<LocalOrderSnapshot>, i: int)
    requires
        distinct_local(local),
        0 <= i < local.len(),
    ensures
        counts(local_ids(local), i),
        last_index(local_ids(local), local[i].client_order_id@) == i,
{
    let ids = local_ids(local);
    assert forall|j: int| i < j < ids.len() implies #[trigger] ids[j] != ids[i] by {
        assert(local[i].client_order_id@ != local[j].client_order_id@);
    }
    lemma_last_index_is(ids, ids[i], i);
}

proof fn lemma_exchange_at(exchange: Seq<ExchangeOrderSnapshot>, i: int)
    requires
        distinct_exchange(exchange),
        0 <= i < exchange.len(),
    ensures
        counts(exchange_ids(exchange), i),
        last_index(exchange_ids(exchange), exchange[i].client_order_id@) == i,
{
    let ids = exchange_ids(exchange);
    assert forall|j: int| i < j < ids.len() implies #[trigger] ids[j] != ids[i] by {
        assert(exchange[i].client_order_id@ != exchange[j].client_order_id@);
    }
    lemma_last_index_is(ids, ids[i], i);
}

proof fn lemma_unreported(exchange: Seq<ExchangeOrderSnapshot>, id: Seq<char>)
    ensures
        last_index(exchange_ids(exchange), id) >= 0 <==> reported(exchange, id),
{
    let ids = exchange_ids(exchange);
    lemma_last_index(ids, id);
    let k = last_index(ids, id);
    if k >= 0 {
        assert(exchange[k].client_order_id@ == id);
    }
    if reported(exchange, id) {
        let j = choose|j: int| 0 <= j < exchange.len() && (#[trigger] exchange[j]).client_order_id@
            == id;
        assert(ids[j] == id);
    }
}

proof fn lemma_unknown(local: Seq<LocalOrderSnapshot>, id: Seq<char>)
    ensures
        last_index(local_ids(local), id) >= 0 <==> known(local, id),
{
    let ids = local_ids(local);
    lemma_last_index(ids, id);
    let k = last_index(ids, id);
    if k >= 0 {
        assert(local[k].client_order_id@ == id);
    }
    if known(local, id) {
        let j = choose|j: int| 0 <= j < local.len() && (#[trigger] local[j]).client_order_id@ == id;
        assert(ids[j] == id);
    }
}

proof fn lemma_local_holds(
    symbol: Seq<char>,
    local: Seq<LocalOrderSnapshot>,
    exchange: Seq<ExchangeOrderSnapshot>,
    now: u64,
    n: nat,
    r: RecordModel,
)
    requires
        distinct_local(local),
        n <= local.len(),
    ensures
        local_findings(symbol, local, exchange, now, n).contains(r) <==> exists|i: int|
            0 <= i < n && local_finding(symbol, #[trigger] local[i], exchange, now) == Some(r),
    decreases n,
{
    if n > 0 {
        let m = (n - 1) as nat;
        lemma_local_holds(symbol, local, exchange, now, m, r);
        lemma_local_at(local, m as int);
        let f = local_finding(symbol, local[m as int], exchange, now);
        if f is Some {
            lemma_push_holds(local_findings(symbol, local, exchange, now, m), f->0, r);
        }
        if exists|i: int|
            0 <= i < m && local_finding(symbol, #[trigger] local[i], exchange, now) == Some(r) {
            let i = choose|i: int|
                0 <= i < m && local_finding(symbol, #[trigger] local[i], exchange, now) == Some(r);
            assert(0 <= i < n && local_finding(symbol, local[i], exchange, now) == Some(r));
        }
        if exists|i: int|
            0 <= i < n && local_finding(symbol, #[trigger] local[i], exchange, now) == Some(r) {
            let i = choose|i: int|
                0 <= i < n && local_finding(symbol, #[trigger] local[i], exchange, now) == Some(r);
            if i < m {
                assert(0 <= i < m && local_finding(symbol, local[i], exchange, now) == Some(r));
            }
        }
    }
}

proof fn lemma_exchange_holds(
    symbol: Seq<char>,
    local: Seq<LocalOrderSnapshot>,
    exchange: Seq<ExchangeOrderSnapshot>,
    now: u64,
    n: nat,
    r: RecordModel,
)
    requires
        distinct_exchange(exchange),
        n <= exchange.len(),
    ensures
        exchange_findings(symbol, local, exchange, now, n).contains(r) <==> exists|i: int|
            0 <= i < n && exchange_finding(symbol, #[trigger] exchange[i], local, now) == Some(r),
    decreases n,
{
    if n > 0 {
        let m = (n - 1) as nat;
        lemma_exchange_holds(symbol, local, exchange, now, m, r);
        lemma_exchange_at(exchange, m as int);
        let f = exchange_finding(symbol, exchange[m as int], local, now);
        if f is Some {
            lemma_push_holds(exchange_findings(symbol, local, exchange, now, m), f->0, r);
        }
        if exists|i: int|
            0 <= i < m && exchange_finding(symbol, #[trigger] exchange[i], local, now) == Some(r) {
            let i = choose|i: int|
                0 <= i < m && exchange_finding(symbol, #[trigger] exchange[i], local, now) == Some(
                    r,
                );
            assert(0 <= i < n && exchange_finding(symbol, exchange[i], local, now) == Some(r));
        }
        if exists|i: int|
            0 <= i < n && exchange_finding(symbol, #[trigger] exchange[i], local, now) == Some(r) {
            let i = choose|i: int|
                0 <= i < n && exchange_finding(symbol, #[trigger] exchange[i], local, now) == Some(
                    r,
                );
            if i < m {
                assert(0 <= i < m && exchange_finding(symbol, exchange[i], local, now) == Some(r));
            }
        }
    }
}

proof fn lemma_findings_hold(
    symbol: Seq<char>,
    local: Seq<LocalOrderSnapshot>,
    exchange: Seq<ExchangeOrderSnapshot>,
    now: u64,
    r: RecordModel,
)
    requires
        distinct_local(local),
        distinct_exchange(exchange),
    ensures
        findings(symbol, local, exchange, now).contains(r) <==> (exists|i: int|
            0 <= i < local.len() && local_finding(symbol, #[trigger] local[i], exchange, now)
                == Some(r)) || (exists|j: int|
            0 <= j < exchange.len() && exchange_finding(symbol, #[trigger] exchange[j], local, now)
                == Some(r)),
{
    lemma_local_holds(symbol, local, exchange, now, local.len(), r);
    lemma_exchange_holds(symbol, local, exchange, now, exchange.len(), r);
    let a = local_findings(symbol, local, exchange, now, local.len());
    let b = exchange_findings(symbol, local, exchange, now, exchange.len());
    let f = a + b;
    if f.contains(r) {
        let k = choose|k: int| 0 <= k < f.len() && f[k] == r;
        if k < a.len() {
            assert(a[k] == r);
        } else {
            assert(b[k - a.len()] == r);
        }
    }
    if a.contains(r) {
        let k = choose|k: int| 0 <= k < a.len() && a[k] == r;
        assert(f[k] == r);
    }
    if b.contains(r) {
        let k = choose|k: int| 0 <= k < b.len() && b[k] == r;
        assert(f[k + a.len()] == r);
    }
}

/// An order that both sides know is recorded where its status differs, with both
/// statuses; where its status agrees but the filled quantities are more than a
/// ten-thousandth apart, with both quantities. Then the sides are not in sync.
pub proof fn law_differences_recorded(
    symbol: Seq<char>,
    local: Seq<LocalOrderSnapshot>,
    exchange: Seq<ExchangeOrderSnapshot>,
    now: u64,
    i: int,
    j: int,
)
    requires
        distinct_local(local),
        distinct_exchange(exchange),
        0 <= i < local.len(),
        0 <= j < exchange.len(),
        local[i].client_order_id@ == exchange[j].client_order_id@,
    ensures
        ({
            let f = findings(symbol, local, exchange, now);
            let l = local[i];
            let e = exchange[j];
            let id = l.client_order_id@;
            let apart = l.filled_qty.units - e.filled_qty.units;
            &&& l.status@ != e.status@ ==> drift(f.len()) != SyncStatus::InSync && exists|k: int|
                0 <= k < f.len() && notes(
                    #[trigger] f[k],
                    DiscrepancyType::StatusMismatch,
                    symbol,
                    id,
                    l.status@,
                    e.status@,
                    now,
                ) && f[k].discrepancy_id == "STATUS_"@ + symbol + "_"@ + id
            &&& l.status@ == e.status@ && (apart > 10_000 || apart < -10_000) ==> drift(f.len())
                != SyncStatus::InSync && exists|k: int|
                0 <= k < f.len() && notes(
                    #[trigger] f[k],
                    DiscrepancyType::QuantityMismatch,
                    symbol,
                    id,
                    plain_text(l.filled_qty.units as int),
                    plain_text(e.filled_qty.units as int),
                    now,
                ) && f[k].discrepancy_id == "QTY_"@ + symbol + "_"@ + id
        }),
{
    lemma_exchange_at(exchange, j);
    let f = findings(symbol, local, exchange, now);
    let c = local_finding(symbol, local[i], exchange, now);
    if c is Some {
        lemma_findings_hold(symbol, local, exchange, now, c->0);
        assert(local_finding(symbol, local[i], exchange, now) == Some(c->0));
        let k = choose|k: int| 0 <= k < f.len() && f[k] == c->0;
        assert(f[k] == c->0);
    }
}

/// A local order that the exchange does not report is recorded, unless it was
/// filled or cancelled; an exchange order that is not known here is recorded in
/// any case. Then the sides are not in sync.
pub proof fn law_absences_recorded(
    symbol: Seq<char>,
    local: Seq<LocalOrderSnapshot>,
    exchange: Seq<ExchangeOrderSnapshot>,
    now: u64,
    i: int,
    j: int,
)
    requires
        distinct_local(local),
        distinct_exchange(exchange),
    ensures
        ({
            let f = findings(symbol, local, exchange, now);
            &&& 0 <= i < local.len() && !reported(exchange, local[i].client_order_id@)
                && local[i].status@ != "FILLED"@ && local[i].status@ != "CANCELED"@ ==> drift(
                f.len(),
            ) != SyncStatus::InSync && exists|k: int|
                0 <= k < f.len() && notes(
                    #[trigger] f[k],
                    DiscrepancyType::PhantomOrder,
                    symbol,
                    local[i].client_order_id@,
                    local_text(local[i]),
                    "NOT_FOUND"@,
                    now,
                ) && f[k].discrepancy_id == "PHANTOM_"@ + symbol + "_"@
                    + local[i].client_order_id@
            &&& 0 <= j < exchange.len() && !known(local, exchange[j].client_order_id@) ==> drift(
                f.len(),
            ) != SyncStatus::InSync && exists|k: int|
                0 <= k < f.len() && notes(
                    #[trigger] f[k],
                    DiscrepancyType::MissingOrder,
                    symbol,
                    exchange[j].client_order_id@,
                    "NOT_FOUND"@,
                    exchange_text(exchange[j]),
                    now,
                ) && f[k].discrepancy_id == "MISSING_"@ + symbol + "_"@
                    + exchange[j].client_order_id@
        }),
{
    let f = findings(symbol, local, exchange, now);
    if 0 <= i < local.len() && !reported(exchange, local[i].client_order_id@) {
        lemma_unreported(exchange, local[i].client_order_id@);
        let c = local_finding(symbol, local[i], exchange, now);
        if c is Some {
            lemma_findings_hold(symbol, local, exchange, now, c->0);
            assert(local_finding(symbol, local[i], exchange, now) == Some(c->0));
            let k = choose|k: int| 0 <= k < f.len() && f[k] == c->0;
            assert(f[k] == c->0);
        }
    }
    if 0 <= j < exchange.len() && !known(local, exchange[j].client_order_id@) {
        lemma_unknown(local, exchange[j].client_order_id@);
        let c = exchange_finding(symbol, exchange[j], local, now);
        lemma_findings_hold(symbol, local, exchange, now, c->0);
        assert(exchange_finding(symbol, exchange[j], local, now) == Some(c->0));
        let k = choose|k: int| 0 <= k < f.len() && f[k] == c->0;
        assert(f[k] == c->0);
    }
}

/// Nothing is recorded without a reason: a status record means that both sides
/// know the order and name different statuses, a quantity record that they name
/// one status and quantities more than a ten-thousandth apart, a phantom that
/// only this side knows an order that is neither filled nor cancelled, and a
/// missing one that only the exchange does. There are no other records.
pub proof fn law_records_have_a_reason(
    symbol: Seq<char>,
    local: Seq<LocalOrderSnapshot>,
    exchange: Seq<ExchangeOrderSnapshot>,
    now: u64,
    k: int,
)
    requires
        distinct_local(local),
        distinct_exchange(exchange),
        0 <= k < findings(symbol, local, exchange, now).len(),
    ensures
        ({
            let r = findings(symbol, local, exchange, now)[k];
            ||| r.discrepancy_type == DiscrepancyType::StatusMismatch && exists|i: int, j: int|
                0 <= i < local.len() && 0 <= j < exchange.len() && r.client_order_id == Some(
                    (#[trigger] local[i]).client_order_id@,
                ) && r.client_order_id == Some((#[trigger] exchange[j]).client_order_id@)
                    && local[i].status@ != exchange[j].status@
            ||| r.discrepancy_type == DiscrepancyType::QuantityMismatch && exists|i: int, j: int|
                0 <= i < local.len() && 0 <= j < exchange.len() && r.client_order_id == Some(
                    (#[trigger] local[i]).client_order_id@,
                ) && r.client_order_id == Some((#[trigger] exchange[j]).client_order_id@)
                    && local[i].status@ == exchange[j].status@ && !(-10_000
                    <= local[i].filled_qty.units - exchange[j].filled_qty.units <= 10_000)
            ||| r.discrepancy_type == DiscrepancyType::PhantomOrder && exists|i: int|
                0 <= i < local.len() && r.client_order_id == Some(
                    (#[trigger] local[i]).client_order_id@,
                ) && local[i].status@ != "FILLED"@ && local[i].status@ != "CANCELED"@ && !reported(
                    exchange,
                    local[i].client_order_id@,
                )
            ||| r.discrepancy_type == DiscrepancyType::MissingOrder && exists|j: int|
                0 <= j < exchange.len() && r.client_order_id == Some(
                    (#[trigger] exchange[j]).client_order_id@,
                ) && !known(local, exchange[j].client_order_id@)
        }),
{
    let f = findings(symbol, local, exchange, now);
    let r = f[k];
    assert(f.contains(r));
    lemma_findings_hold(symbol, local, exchange, now, r);
    if exists|i: int|
        0 <= i < local.len() && local_finding(symbol, #[trigger] local[i], exchange, now) == Some(
            r,
        ) {
        let i = choose|i: int|
            0 <= i < local.len() && local_finding(symbol, #[trigger] local[i], exchange, now)
                == Some(r);
        let id = local[i].client_order_id@;
        lemma_unreported(exchange, id);
        lemma_last_index(exchange_ids(exchange), id);
        let j = last_index(exchange_ids(exchange), id);
        if j >= 0 {
            assert(exchange[j].client_order_id@ == id);
            assert(local_finding(symbol, local[i], exchange, now) == comparison(
                symbol,
                local[i],
                exchange[j],
                now,
            ));
        }
    } else {
        let j = choose|j: int|
            0 <= j < exchange.len() && exchange_finding(symbol, #[trigger] exchange[j], local, now)
                == Some(r);
        lemma_unknown(local, exchange[j].client_order_id@);
    }
}

/// One more local order adds one to the matched ones exactly where the exchange
/// reports it with the same status and a filled quantity at most a
/// ten-thousandth apart.
pub proof fn law_matched_orders_agree(
    local: Seq<LocalOrderSnapshot>,
    exchange: Seq<ExchangeOrderSnapshot>,
    i: int,
)
    requires
        distinct_local(local),
        distinct_exchange(exchange),
        0 <= i < local.len(),
    ensures
        crate::exchange::reconciliation::matches(local, exchange, 0) == 0,
        crate::exchange::reconciliation::matches(local, exchange, (i + 1) as nat) == crate::exchange::reconciliation::matches(local, exchange, i as nat) + (if exists|
            j: int,
        |
            0 <= j < exchange.len() && (#[trigger] exchange[j]).client_order_id@
                == local[i].client_order_id@ && exchange[j].status@ == local[i].status@ && -10_000
                <= exchange[j].filled_qty.units - local[i].filled_qty.units <= 10_000 {
            1nat
        } else {
            0
        }),
{
    lemma_local_at(local, i);
    let id = local[i].client_order_id@;
    lemma_last_index(exchange_ids(exchange), id);
    lemma_unreported(exchange, id);
    let at = last_index(exchange_ids(exchange), id);
    if exists|j: int|
        0 <= j < exchange.len() && (#[trigger] exchange[j]).client_order_id@ == id
            && exchange[j].status@ == local[i].status@ && -10_000 <= exchange[j].filled_qty.units
            - local[i].filled_qty.units <= 10_000 {
        let j = choose|j: int|
            0 <= j < exchange.len() && (#[trigger] exchange[j]).client_order_id@ == id
                && exchange[j].status@ == local[i].status@ && -10_000
                <= exchange[j].filled_qty.units - local[i].filled_qty.units <= 10_000;
        lemma_exchange_at(exchange, j);
        assert(at == j);
    } else if at >= 0 {
        assert(exchange[at].client_order_id@ == id);
    }
}

/// Drift is graded by the number of discrepancies: none, up to two, up to five,
/// and more. It never falls when there are more.
pub proof fn law_drift_grades(n: nat)
    ensures
        drift(n) == SyncStatus::InSync <==> n == 0,
        drift(n) == SyncStatus::MinorDrift <==> 1 <= n <= 2,
        drift(n) == SyncStatus::MajorDrift <==> 3 <= n <= 5,
        drift(n) == SyncStatus::Critical <==> n >= 6,
{
}

/// Only differences in status, and in the count of fills, are fixed without
/// asking.
pub proof fn law_what_is_fixed(s: Seq<RecordModel>, r: RecordModel)
    ensures
        fixable_count(Seq::empty()) == 0,
        fixable_count(s.push(r)) == fixable_count(s) + (match r.discrepancy_type {
            DiscrepancyType::StatusMismatch => 1nat,
            DiscrepancyType::FillCountMismatch => 1,
            DiscrepancyType::MissingOrder => 0,
            DiscrepancyType::QuantityMismatch => 0,
            DiscrepancyType::PriceMismatch => 0,
            DiscrepancyType::PhantomOrder => 0,
        }),
{
    assert(s.push(r).drop_last() =~= s);
}

/// A symbol is due once the interval has passed since it was last compared; one
/// that never was counts from the beginning of time. An inactive daemon compares
/// nothing.
pub proof fn law_comparison_comes_due(d: ReconciliationDaemon, symbol: Seq<char>, now: u64)
    ensures
        !d.is_active ==> !d.sync_due(symbol, now),
        d.is_active && d.last_sync_per_symbol@.contains_key(symbol)
            && d.last_sync_per_symbol@[symbol] <= now ==> (d.sync_due(symbol, now) <==> now
            - d.last_sync_per_symbol@[symbol] >= d.sync_interval_sec),
        d.is_active && !d.last_sync_per_symbol@.contains_key(symbol) ==> (d.sync_due(symbol, now)
            <==> now >= d.sync_interval_sec),
{
}

/// A reconciliation of a symbol adds what it found to the history, counts it, and
/// notes the second at which the symbol was compared; other symbols keep theirs.
pub proof fn law_reconciliation_is_recorded(
    before: ReconciliationDaemon,
    after: ReconciliationDaemon,
    symbol: Seq<char>,
    other: Seq<char>,
    local: Seq<LocalOrderSnapshot>,
    exchange: Seq<ExchangeOrderSnapshot>,
    now: u64,
)
    requires
        before.reconciled(&after, symbol, local, exchange, now),
        other != symbol,
    ensures
        ({
            let found = findings(symbol, local, exchange, now);
            let at = after.last_sync_per_symbol@;
            let was = before.last_sync_per_symbol@;
            &&& at.contains_key(symbol)
            &&& at[symbol] * 1000 <= now < at[symbol] * 1000 + 1000
            &&& at.contains_key(other) <==> was.contains_key(other)
            &&& was.contains_key(other) ==> at[other] == was[other]
            &&& before.history().len() + found.len() <= before.max_history_size ==> after.history()
                == before.history() + found
            &&& before.history().len() + found.len() > before.max_history_size
                ==> after.history().len() == before.max_history_size
            &&& found.len() > 0 ==> after.history().last() == found.last()
            &&& before.total_reconciliations < u64::MAX ==> after.total_reconciliations
                == before.total_reconciliations + 1
            &&& before.total_discrepancies_found + found.len() <= u64::MAX
                ==> after.total_discrepancies_found == before.total_discrepancies_found
                + found.len()
            &&& before.total_discrepancies_fixed + fixable_count(found) <= u64::MAX
                ==> after.total_discrepancies_fixed == before.total_discrepancies_fixed
                + fixable_count(found)
            &&& after.consecutive_failures == 0
        }),
{
    law_findings_bounded(symbol, local, exchange, now);
}

/// A run compares one symbol after the other, each by the orders that the two
/// sides have of it; more than five findings on a symbol are told by its name and
/// their number.
pub proof fn law_run_compares_each_symbol(
    symbols: Seq<Seq<char>>,
    local: Map<Seq<char>, Vec<LocalOrderSnapshot>>,
    exchange: Map<Seq<char>, Vec<ExchangeOrderSnapshot>>,
    now: u64,
    n: nat,
)
    requires
        n < symbols.len(),
    ensures
        run_findings(symbols, local, exchange, now, 0).len() == 0,
        critical_advice(symbols, local, exchange, now, 0).len() == 0,
        ({
            let symbol = symbols[n as int];
            let here = if local.contains_key(symbol) {
                local[symbol]@
            } else {
                Seq::empty()
            };
            let there = if exchange.contains_key(symbol) {
                exchange[symbol]@
            } else {
                Seq::empty()
            };
            let found = findings(symbol, here, there, now);
            let told = critical_advice(symbols, local, exchange, now, n);
            &&& run_findings(symbols, local, exchange, now, n + 1) == run_findings(
                symbols,
                local,
                exchange,
                now,
                n,
            ) + found
            &&& found.len() <= 5 ==> critical_advice(symbols, local, exchange, now, n + 1) == told
            &&& found.len() > 5 ==> critical_advice(symbols, local, exchange, now, n + 1)
                == told.push(
                "Critical drift on "@ + symbol + ": "@ + decimal(found.len())
                    + " discrepancies detected"@,
            )
        }),
{
}

/// Beside the critical symbols a run advises to look at the connection where it
/// found more than ten discrepancies, and then alone.
pub proof fn law_run_advice(
    symbols: Seq<Seq<char>>,
    local: Map<Seq<char>, Vec<LocalOrderSnapshot>>,
    exchange: Map<Seq<char>, Vec<ExchangeOrderSnapshot>>,
    now: u64,
)
    ensures
        ({
            let found = run_findings(symbols, local, exchange, now, symbols.len()).len();
            let told = critical_advice(symbols, local, exchange, now, symbols.len());
            &&& found <= 10 ==> advice(symbols, local, exchange, now) == told
            &&& found > 10 ==> advice(symbols, local, exchange, now) == told.push(
                "High discrepancy rate detected - check WebSocket connection stability"@,
            )
        }),
{
}

/// A run notes its second for each of its symbols and for no other.
pub proof fn law_run_notes_times(
    before: Map<Seq<char>, u64>,
    symbols: Seq<Seq<char>>,
    secs: u64,
    n: nat,
    symbol: Seq<char>,
)
    requires
        n <= symbols.len(),
    ensures
        ({
            let after = sync_times(before, symbols, secs, n);
            let compared = exists|i: int| 0 <= i < n && #[trigger] symbols[i] == symbol;
            &&& compared ==> after.contains_key(symbol) && after[symbol] == secs
            &&& !compared ==> (after.contains_key(symbol) <==> before.contains_key(symbol))
            &&& !compared && before.contains_key(symbol) ==> after[symbol] == before[symbol]
        }),
    decreases n,
{
    if n > 0 {
        law_run_notes_times(before, symbols, secs, (n - 1) as nat, symbol);
        assert(symbols[n - 1] == symbol || symbols[n - 1] != symbol);
        if exists|i: int| 0 <= i < n && #[trigger] symbols[i] == symbol {
            let i = choose|i: int| 0 <= i < n && #[trigger] symbols[i] == symbol;
            assert(i < n - 1 || symbols[n - 1] == symbol);
        }
    }
}

} // verus!
