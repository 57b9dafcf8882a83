//! Order books, rebuilt from snapshots and numbered updates.

use std::collections::VecDeque;
use vstd::prelude::*;
use crate::base::amount::Amount;
use crate::base::decimals::{amount_in, parse_amount};
use crate::base::numbers::{saturate, saturated};
use crate::base::sequences::lemma_push_holds;
use crate::base::table::{lemma_update, Table};

verus! {

/// How many levels a side of a book keeps.
pub const MAX_BOOK_DEPTH: usize = 50;

/// A price level.
#[derive(Debug, Clone, Copy, PartialEq, Eq, Structural)]
pub struct PriceLevel {
    pub price: Amount,
    pub quantity: Amount,
    pub order_count: u32,
}

impl PriceLevel {
    /// A level with one order.
    pub fn new(price: Amount, quantity: Amount) -> (l: Self)
        ensures
            l == (PriceLevel { price, quantity, order_count: 1 }),
    {
        PriceLevel { price, quantity, order_count: 1 }
    }

    /// Adds a quantity. An order is counted where something is left.
    pub fn add_quantity(&mut self, qty: Amount)
        requires
            old(self).quantity.units + qty.units > 0 ==> old(self).order_count < u32::MAX,
        ensures
            final(self).price == old(self).price,
            final(self).quantity.units == saturated(old(self).quantity.units + qty.units),
            final(self).order_count == (if final(self).quantity.units > 0 {
                old(self).order_count + 1
            } else {
                old(self).order_count as int
            }),
    {
        self.quantity =
        Amount { units: saturate(self.quantity.units as i128 + qty.units as i128) };
        if self.quantity.units > 0 {
            self.order_count = self.order_count + 1;
        }
    }
}

/// A side of a book.
#[derive(Debug, Clone, Copy, PartialEq, Eq, Structural)]
pub enum BookSide {
    Bid,
    Ask,
}

/// A change of one level.
#[derive(Debug, Clone)]
pub struct OrderBookDelta {
    pub symbol: String,
    pub side: BookSide,
    pub price: Amount,
    pub quantity: Amount,
    pub update_id: u64,
}

/// The levels that the first `n` prices and quantities make: those with a
/// quantity.
pub open spec fn fresh_levels(s: Seq<(Amount, Amount)>, n: nat) -> Seq<PriceLevel>
    decreases n,
{
    if n == 0 {
        Seq::empty()
    } else {
        let before = fresh_levels(s, (n - 1) as nat);
        if s[n - 1].1.units > 0 {
            before.push(PriceLevel { price: s[n - 1].0, quantity: s[n - 1].1, order_count: 1 })
        } else {
            before
        }
    }
}

/// The levels of a snapshot's side: of the first so many that a book keeps.
pub open spec fn snapshot_levels(s: Seq<(Amount, Amount)>) -> Seq<PriceLevel> {
    fresh_levels(
        s,
        if s.len() < MAX_BOOK_DEPTH {
            s.len()
        } else {
            MAX_BOOK_DEPTH as nat
        },
    )
}

/// Where the first level with a price stands, or the number of levels.
pub open spec fn level_index(s: Seq<PriceLevel>, price: Amount) -> int
    decreases s.len(),
{
    if s.len() == 0 {
        0
    } else if s[0].price == price {
        0
    } else {
        1 + level_index(s.skip(1), price)
    }
}

/// The levels with a quantity.
pub open spec fn non_empty(s: Seq<PriceLevel>) -> Seq<PriceLevel>
    decreases s.len(),
{
    if s.len() == 0 {
        Seq::empty()
    } else if s.last().quantity.units > 0 {
        non_empty(s.drop_last()).push(s.last())
    } else {
        non_empty(s.drop_last())
    }
}

/// A side once a price has a new quantity: a level changes, appears or leaves.
pub open spec fn level_set(s: Seq<PriceLevel>, price: Amount, quantity: Amount) -> Seq<PriceLevel> {
    let i = level_index(s, price);
    let changed = if i < s.len() {
        s.update(
            i,
            PriceLevel {
                quantity: if quantity.units <= 0 {
                    Amount { units: 0 }
                } else {
                    quantity
                },
                ..s[i]
            },
        )
    } else if quantity.units > 0 {
        s.push(PriceLevel { price, quantity, order_count: 1 })
    } else {
        s
    };
    non_empty(changed)
}

/// A side once the first `n` changes were made.
pub open spec fn levels_set(
    s: Seq<PriceLevel>,
    changes: Seq<(Amount, Amount)>,
    n: nat,
) -> Seq<PriceLevel>
    decreases n,
{
    if n == 0 {
        s
    } else {
        level_set(
            levels_set(s, changes, (n - 1) as nat),
            changes[n - 1].0,
            changes[n - 1].1,
        )
    }
}

/// Whether a level at price `a` goes before one at price `b`, on a side.
pub open spec fn precedes(side: BookSide, a: Amount, b: Amount) -> bool {
    match side {
        BookSide::Bid => a.units > b.units,
        BookSide::Ask => a.units < b.units,
    }
}

/// An ordered side with one more level, behind all that it does not precede.
pub open spec fn placed(side: BookSide, s: Seq<PriceLevel>, l: PriceLevel) -> Seq<PriceLevel>
    decreases s.len(),
{
    if s.len() > 0 && precedes(side, l.price, s.last().price) {
        placed(side, s.drop_last(), l).push(s.last())
    } else {
        s.push(l)
    }
}

/// A side with its best price first; levels at one price keep their order.
pub open spec fn arranged(side: BookSide, s: Seq<PriceLevel>) -> Seq<PriceLevel>
    decreases s.len(),
{
    if s.len() == 0 {
        Seq::empty()
    } else {
        placed(side, arranged(side, s.drop_last()), s.last())
    }
}

/// The first so many levels that a book keeps.
pub open spec fn shallow(s: Seq<PriceLevel>) -> Seq<PriceLevel> {
    if s.len() > MAX_BOOK_DEPTH {
        s.take(MAX_BOOK_DEPTH as int)
    } else {
        s
    }
}

/// A side after an update.
pub open spec fn updated_side(
    side: BookSide,
    s: Seq<PriceLevel>,
    changes: Seq<(Amount, Amount)>,
) -> Seq<PriceLevel> {
    shallow(arranged(side, levels_set(s, changes, changes.len())))
}

/// Whether no level goes before one in front of it.
pub open spec fn in_order(side: BookSide, s: Seq<PriceLevel>) -> bool {
    forall|i: int, j: int|
        0 <= i < j < s.len() ==> !precedes(side, (#[trigger] s[j]).price, (#[trigger] s[i]).price)
}

/// Whether every level has a quantity.
pub open spec fn all_filled(s: Seq<PriceLevel>) -> bool {
    forall|i: int| 0 <= i < s.len() ==> (#[trigger] s[i]).quantity.units > 0
}

proof fn lemma_placed(side: BookSide, s: Seq<PriceLevel>, l: PriceLevel)
    requires
        in_order(side, s),
    ensures
        in_order(side, placed(side, s, l)),
        placed(side, s, l).len() == s.len() + 1,
        forall|i: int|
            0 <= i < placed(side, s, l).len() ==> #[trigger] placed(side, s, l)[i] == l
                || s.contains(placed(side, s, l)[i]),
    decreases s.len(),
{
    let t = placed(side, s, l);
    if s.len() > 0 && precedes(side, l.price, s.last().price) {
        let d = s.drop_last();
        assert(in_order(side, d)) by {
            assert forall|i: int, j: int| 0 <= i < j < d.len() implies !precedes(
                side,
                (#[trigger] d[j]).price,
                (#[trigger] d[i]).price,
            ) by {
                assert(d[j] == s[j] && d[i] == s[i]);
            }
        }
        lemma_placed(side, d, l);
        let p = placed(side, d, l);
        assert forall|i: int| 0 <= i < t.len() implies #[trigger] t[i] == l || s.contains(
            t[i],
        ) by {
            if i < p.len() {
                assert(t[i] == p[i]);
                if p[i] != l {
                    let k = choose|k: int| 0 <= k < d.len() && d[k] == p[i];
                    assert(s[k] == p[i]);
                }
            } else {
                assert(t[i] == s[s.len() - 1]);
            }
        }
        assert forall|i: int, j: int| 0 <= i < j < t.len() implies !precedes(
            side,
            (#[trigger] t[j]).price,
            (#[trigger] t[i]).price,
        ) by {
            if j < p.len() {
                assert(t[j] == p[j] && t[i] == p[i]);
            } else {
                assert(t[i] == p[i]);
                if p[i] != l {
                    let k = choose|k: int| 0 <= k < d.len() && d[k] == p[i];
                    assert(s[k] == p[i] && s[s.len() - 1] == s.last());
                }
            }
        }
    } else {
        assert forall|i: int, j: int| 0 <= i < j < t.len() implies !precedes(
            side,
            (#[trigger] t[j]).price,
            (#[trigger] t[i]).price,
        ) by {
            if j < s.len() {
                assert(t[j] == s[j] && t[i] == s[i]);
            } else if i < s.len() - 1 {
                assert(t[i] == s[i] && s[s.len() - 1] == s.last());
                assert(!precedes(side, s[s.len() - 1].price, s[i].price));
            }
        }
        assert forall|i: int| 0 <= i < t.len() implies #[trigger] t[i] == l || s.contains(
            t[i],
        ) by {
            if i < s.len() {
                assert(t[i] == s[i]);
            }
        }
    }
}

proof fn lemma_arranged(side: BookSide, s: Seq<PriceLevel>)
    ensures
        in_order(side, arranged(side, s)),
        arranged(side, s).len() == s.len(),
        all_filled(s) ==> all_filled(arranged(side, s)),
    decreases s.len(),
{
    if s.len() > 0 {
        let d = s.drop_last();
        lemma_arranged(side, d);
        let p = arranged(side, d);
        lemma_placed(side, p, s.last());
        if all_filled(s) {
            assert(all_filled(d)) by {
                assert forall|i: int| 0 <= i < d.len() implies (
                #[trigger] d[i]).quantity.units > 0 by {
                    assert(d[i] == s[i]);
                }
            }
            let t = arranged(side, s);
            assert forall|i: int| 0 <= i < t.len() implies (
            #[trigger] t[i]).quantity.units > 0 by {
                if t[i] != s.last() {
                    let k = choose|k: int| 0 <= k < p.len() && p[k] == t[i];
                    assert(p[k].quantity.units > 0);
                } else {
                    assert(s[s.len() - 1].quantity.units > 0);
                }
            }
        }
    }
}

proof fn lemma_non_empty(s: Seq<PriceLevel>)
    ensures
        all_filled(non_empty(s)),
    decreases s.len(),
{
    if s.len() > 0 {
        lemma_non_empty(s.drop_last());
    }
}

proof fn lemma_levels_set_filled(s: Seq<PriceLevel>, changes: Seq<(Amount, Amount)>, n: nat)
    requires
        all_filled(s),
    ensures
        all_filled(levels_set(s, changes, n)),
    decreases n,
{
    if n > 0 {
        lemma_levels_set_filled(s, changes, (n - 1) as nat);
        let before = levels_set(s, changes, (n - 1) as nat);
        let price = changes[n - 1].0;
        let quantity = changes[n - 1].1;
        let i = level_index(before, price);
        let changed = if i < before.len() {
            before.update(
                i,
                PriceLevel {
                    quantity: if quantity.units <= 0 {
                        Amount { units: 0 }
                    } else {
                        quantity
                    },
                    ..before[i]
                },
            )
        } else if quantity.units > 0 {
            before.push(PriceLevel { price, quantity, order_count: 1 })
        } else {
            before
        };
        lemma_non_empty(changed);
    }
}

/// After an update a side has its best price first, no level without a
/// quantity, and no more levels than a book keeps.
pub proof fn law_side_after_update(
    side: BookSide,
    s: Seq<PriceLevel>,
    changes: Seq<(Amount, Amount)>,
)
    requires
        all_filled(s),
    ensures
        in_order(side, updated_side(side, s, changes)),
        all_filled(updated_side(side, s, changes)),
        updated_side(side, s, changes).len() <= MAX_BOOK_DEPTH,
        updated_side(side, s, changes).len() > 0 ==> forall|i: int|
            0 <= i < updated_side(side, s, changes).len() ==> !precedes(
                side,
                (#[trigger] updated_side(side, s, changes)[i]).price,
                updated_side(side, s, changes)[0].price,
            ),
{
    let set = levels_set(s, changes, changes.len());
    lemma_levels_set_filled(s, changes, changes.len());
    lemma_arranged(side, set);
    let a = arranged(side, set);
    let t = shallow(a);
    assert forall|i: int, j: int| 0 <= i < j < t.len() implies !precedes(
        side,
        (#[trigger] t[j]).price,
        (#[trigger] t[i]).price,
    ) by {
        assert(t[j] == a[j] && t[i] == a[i]);
    }
    assert forall|i: int| 0 <= i < t.len() implies (#[trigger] t[i]).quantity.units > 0 by {
        assert(t[i] == a[i]);
    }
    assert forall|i: int| 0 <= i < t.len() implies !precedes(
        side,
        (#[trigger] t[i]).price,
        t[0].price,
    ) by {
        if i > 0 {
            assert(!precedes(side, t[i].price, t[0].price));
        }
    }
}

proof fn lemma_level_index(s: Seq<PriceLevel>, price: Amount)
    ensures
        0 <= level_index(s, price) <= s.len(),
    decreases s.len(),
{
    if s.len() > 0 && s[0].price != price {
        lemma_level_index(s.skip(1), price);
    }
}

fn find_level(levels: &Vec<PriceLevel>, price: Amount) -> (i: usize)
    ensures
        i == level_index(levels@, price),
        i <= levels@.len(),
{
    let ghost s = levels@;
    let mut i: usize = 0;
    assert(s.skip(0) =~= s);
    while i < levels.len()
        invariant
            i <= s.len(),
            s == levels@,
            level_index(s, price) == i + level_index(s.skip(i as int), price),
        decreases s.len() - i,
    {
        assert(s.skip(i as int)[0] == s[i as int]);
        assert(s.skip(i as int).skip(1) =~= s.skip(i + 1));
        if levels[i].price == price {
            return i;
        }
        i += 1;
    }
    assert(s.skip(i as int).len() == 0);
    i
}

fn update_level(levels: &mut Vec<PriceLevel>, price: Amount, quantity: Amount)
    ensures
        final(levels)@ == level_set(old(levels)@, price, quantity),
{
    let i: usize = find_level(levels, price);
    if i < levels.len() {
        let mut l = levels[i];
        l.quantity = if quantity.units <= 0 {
            Amount::zero()
        } else {
            quantity
        };
        levels.set(i, l);
    } else if quantity.units > 0 {
        levels.push(PriceLevel::new(price, quantity));
    }
    let ghost changed = levels@;
    let mut kept: Vec<PriceLevel> = Vec::new();
    let mut k: usize = 0;
    assert(changed.take(0) =~= Seq::empty());
    while k < levels.len()
        invariant
            k <= changed.len(),
            changed == levels@,
            kept@ == non_empty(changed.take(k as int)),
        decreases changed.len() - k,
    {
        assert(changed.take(k + 1).drop_last() =~= changed.take(k as int));
        if levels[k].quantity.units > 0 {
            kept.push(levels[k]);
        }
        k += 1;
    }
    assert(changed.take(changed.len() as int) =~= changed);
    *levels = kept;
}

fn goes_before(side: BookSide, a: Amount, b: Amount) -> (r: bool)
    ensures
        r == precedes(side, a, b),
{
    match side {
        BookSide::Bid => a.units > b.units,
        BookSide::Ask => a.units < b.units,
    }
}

proof fn lemma_placed_at(side: BookSide, s: Seq<PriceLevel>, l: PriceLevel, p: int)
    requires
        0 <= p <= s.len(),
        forall|i: int| p <= i < s.len() ==> precedes(side, l.price, (#[trigger] s[i]).price),
        p > 0 ==> !precedes(side, l.price, s[p - 1].price),
    ensures
        placed(side, s, l) == s.insert(p, l),
    decreases s.len(),
{
    if p == s.len() {
        assert(placed(side, s, l) =~= s.insert(p, l));
    } else {
        assert(s[s.len() - 1] == s.last());
        let d = s.drop_last();
        assert forall|i: int| p <= i < d.len() implies precedes(
            side,
            l.price,
            (#[trigger] d[i]).price,
        ) by {
            assert(d[i] == s[i]);
        }
        lemma_placed_at(side, d, l, p);
        assert(placed(side, s, l) =~= s.insert(p, l));
    }
}

fn arrange(side: BookSide, levels: &Vec<PriceLevel>) -> (out: Vec<PriceLevel>)
    ensures
        out@ == arranged(side, levels@),
{
    let ghost s = levels@;
    let mut out: Vec<PriceLevel> = Vec::new();
    let mut k: usize = 0;
    assert(s.take(0) =~= Seq::empty());
    while k < levels.len()
        invariant
            k <= s.len(),
            s == levels@,
            out@ == arranged(side, s.take(k as int)),
        decreases s.len() - k,
    {
        let l = levels[k];
        let ghost o = out@;
        let mut p: usize = out.len();
        while p > 0 && goes_before(side, l.price, out[p - 1].price)
            invariant
                p <= out@.len(),
                out@ == o,
                forall|i: int| p <= i < o.len() ==> precedes(
                    side,
                    l.price,
                    (#[trigger] o[i]).price,
                ),
            decreases p,
        {
            p -= 1;
        }
        proof {
            lemma_placed_at(side, o, l, p as int);
            assert(s.take(k + 1).drop_last() =~= s.take(k as int));
            assert(s.take(k + 1).last() == l);
        }
        out.insert(p, l);
        k += 1;
    }
    assert(s.take(s.len() as int) =~= s);
    out
}

fn update_side(side: BookSide, levels: &mut Vec<PriceLevel>, changes: &[(Amount, Amount)])
    ensures
        final(levels)@ == updated_side(side, old(levels)@, changes@),
{
    let ghost s = levels@;
    let mut i: usize = 0;
    while i < changes.len()
        invariant
            i <= changes@.len(),
            levels@ == levels_set(s, changes@, i as nat),
        decreases changes@.len() - i,
    {
        update_level(levels, changes[i].0, changes[i].1);
        i += 1;
    }
    let mut sorted = arrange(side, levels);
    let ghost a = sorted@;
    if sorted.len() > MAX_BOOK_DEPTH {
        sorted.truncate(MAX_BOOK_DEPTH);
        assert(sorted@ =~= a.take(MAX_BOOK_DEPTH as int));
    }
    *levels = sorted;
}

fn read_snapshot(s: &[(Amount, Amount)]) -> (out: Vec<PriceLevel>)
    ensures
        out@ == snapshot_levels(s@),
{
    let n: usize = if s.len() < MAX_BOOK_DEPTH {
        s.len()
    } else {
        MAX_BOOK_DEPTH
    };
    let mut out: Vec<PriceLevel> = Vec::new();
    let mut i: usize = 0;
    assert(out@ =~= Seq::empty());
    while i < n
        invariant
            i <= n <= s@.len(),
            out@ == fresh_levels(s@, i as nat),
        decreases n - i,
    {
        if s[i].1.units > 0 {
            out.push(PriceLevel::new(s[i].0, s[i].1));
        }
        i += 1;
    }
    out
}

/// An amount as a checksum counts it: units within the range of `u32`.
pub open spec fn checksum_part(a: Amount) -> u32 {
    if a.units < 0 {
        0
    } else if a.units > u32::MAX {
        u32::MAX
    } else {
        a.units as u32
    }
}

/// What a level adds to a checksum; nothing where there is none.
pub open spec fn level_checksum(s: Seq<PriceLevel>, i: int) -> u32 {
    if i < s.len() {
        checksum_part(s[i].price) ^ checksum_part(s[i].quantity)
    } else {
        0
    }
}

/// The checksum over the first `n` levels of both sides.
pub open spec fn book_checksum(bids: Seq<PriceLevel>, asks: Seq<PriceLevel>, n: nat) -> u32
    decreases n,
{
    if n == 0 {
        0
    } else {
        (book_checksum(bids, asks, (n - 1) as nat) ^ level_checksum(bids, n - 1)) ^ level_checksum(
            asks,
            n - 1,
        )
    }
}

proof fn lemma_checksum_beyond(bids: Seq<PriceLevel>, asks: Seq<PriceLevel>, n: nat, m: nat)
    requires
        n <= m,
        bids.len() <= n,
        asks.len() <= n,
    ensures
        book_checksum(bids, asks, m) == book_checksum(bids, asks, n),
    decreases m,
{
    if n < m {
        lemma_checksum_beyond(bids, asks, n, (m - 1) as nat);
        let c = book_checksum(bids, asks, (m - 1) as nat);
        assert((c ^ 0u32) ^ 0u32 == c) by (bit_vector);
    }
}

fn part_of(a: Amount) -> (r: u32)
    ensures
        r == checksum_part(a),
{
    if a.units < 0 {
        0
    } else if a.units > u32::MAX as i64 {
        u32::MAX
    } else {
        a.units as u32
    }
}

/// An order book with the number of its last update.
pub struct OrderBook {
    pub symbol: String,
    pub bids: Vec<PriceLevel>,
    pub asks: Vec<PriceLevel>,
    pub last_update_id: u64,
    pub prev_last_update_id: u64,
    pub is_snapshot_received: bool,
    pub pending_updates: VecDeque<OrderBookDelta>,
    pub total_updates: u64,
    pub stale_updates: u64,
    pub sequence_gaps: u64,
}

impl OrderBook {
    /// An empty book.
    pub fn new(symbol: String) -> (b: Self)
        ensures
            b.symbol == symbol,
            b.bids@.len() == 0,
            b.asks@.len() == 0,
            b.last_update_id == 0,
            b.prev_last_update_id == 0,
            !b.is_snapshot_received,
            b.pending_updates@.len() == 0,
            b.total_updates == 0,
            b.stale_updates == 0,
            b.sequence_gaps == 0,
    {
        OrderBook {
            symbol,
            bids: Vec::with_capacity(MAX_BOOK_DEPTH),
            asks: Vec::with_capacity(MAX_BOOK_DEPTH),
            last_update_id: 0,
            prev_last_update_id: 0,
            is_snapshot_received: false,
            pending_updates: VecDeque::with_capacity(1000),
            total_updates: 0,
            stale_updates: 0,
            sequence_gaps: 0,
        }
    }

    /// What a snapshot makes of the book.
    pub open spec fn snapshotted(
        &self,
        after: &Self,
        bids: Seq<(Amount, Amount)>,
        asks: Seq<(Amount, Amount)>,
        update_id: u64,
    ) -> bool {
        &&& after.bids@ == snapshot_levels(bids)
        &&& after.asks@ == snapshot_levels(asks)
        &&& *after == (OrderBook {
            bids: after.bids,
            asks: after.asks,
            last_update_id: update_id,
            prev_last_update_id: update_id,
            is_snapshot_received: true,
            ..*self
        })
    }

    /// What an update makes of the book.
    pub open spec fn updated(
        &self,
        after: &Self,
        bids: Seq<(Amount, Amount)>,
        asks: Seq<(Amount, Amount)>,
        update_id: u64,
    ) -> bool {
        &&& after.bids@ == updated_side(BookSide::Bid, self.bids@, bids)
        &&& after.asks@ == updated_side(BookSide::Ask, self.asks@, asks)
        &&& *after == (OrderBook {
            bids: after.bids,
            asks: after.asks,
            last_update_id: update_id,
            prev_last_update_id: self.last_update_id,
            total_updates: (self.total_updates + 1) as u64,
            ..*self
        })
    }

    /// Replaces the book by a snapshot.
    pub fn apply_snapshot(
        &mut self,
        bids: &[(Amount, Amount)],
        asks: &[(Amount, Amount)],
        update_id: u64,
    )
        ensures
            old(self).snapshotted(final(self), bids@, asks@, update_id),
    {
        self.bids = read_snapshot(bids);
        self.asks = read_snapshot(asks);
        self.last_update_id = update_id;
        self.prev_last_update_id = update_id;
        self.is_snapshot_received = true;
    }

    /// Whether updates numbered `first` to `last` continue the book: there is a
    /// snapshot, no number is skipped, and there is a new one.
    pub open spec fn continues(&self, first: u64, last: u64) -> bool {
        self.is_snapshot_received && first <= self.last_update_id + 1 && last
            > self.last_update_id
    }

    /// Whether updates numbered `first_update_id` to `last_update_id` continue
    /// the book.
    pub fn validate_sequence(&self, first_update_id: u64, last_update_id: u64) -> (r: bool)
        ensures
            r == self.continues(first_update_id, last_update_id),
    {
        if !self.is_snapshot_received {
            return false;
        }
        if first_update_id as u128 > self.last_update_id as u128 + 1 {
            return false;
        }
        if last_update_id <= self.last_update_id {
            return false;
        }
        true
    }

    /// Applies an update.
    pub fn apply_update(
        &mut self,
        bids: &[(Amount, Amount)],
        asks: &[(Amount, Amount)],
        update_id: u64,
    )
        requires
            old(self).total_updates < u64::MAX,
        ensures
            old(self).updated(final(self), bids@, asks@, update_id),
    {
        self.total_updates = self.total_updates + 1;
        self.prev_last_update_id = self.last_update_id;
        self.last_update_id = update_id;
        update_side(BookSide::Bid, &mut self.bids, bids);
        update_side(BookSide::Ask, &mut self.asks, asks);
    }

    /// The price of the first bid.
    pub open spec fn top_bid(&self) -> Option<Amount> {
        if self.bids@.len() > 0 {
            Some(self.bids@[0].price)
        } else {
            None
        }
    }

    /// The price of the first ask.
    pub open spec fn top_ask(&self) -> Option<Amount> {
        if self.asks@.len() > 0 {
            Some(self.asks@[0].price)
        } else {
            None
        }
    }

    /// Whether there are bids and asks.
    pub open spec fn two_sided(&self) -> bool {
        self.bids@.len() > 0 && self.asks@.len() > 0
    }

    /// The price in the middle, twice.
    pub open spec fn twice_the_middle(&self) -> int {
        self.bids@[0].price.units + self.asks@[0].price.units
    }

    /// How far the first ask lies above the first bid.
    pub open spec fn width(&self) -> int {
        self.asks@[0].price.units - self.bids@[0].price.units
    }

    /// The first bid's price.
    pub fn best_bid(&self) -> (r: Option<Amount>)
        ensures
            r == self.top_bid(),
    {
        if self.bids.len() > 0 {
            Some(self.bids[0].price)
        } else {
            None
        }
    }

    /// The first ask's price.
    pub fn best_ask(&self) -> (r: Option<Amount>)
        ensures
            r == self.top_ask(),
    {
        if self.asks.len() > 0 {
            Some(self.asks[0].price)
        } else {
            None
        }
    }

    /// The price in the middle, counted in half units, so that it is exact.
    pub fn mid_price(&self) -> (r: Option<i128>)
        ensures
            r is Some <==> self.two_sided(),
            r matches Some(m) ==> m == self.twice_the_middle(),
    {
        match (self.best_bid(), self.best_ask()) {
            (Some(bid), Some(ask)) => Some(bid.units as i128 + ask.units as i128),
            _ => None,
        }
    }

    /// The distance between the first ask and the first bid, in units.
    pub fn spread(&self) -> (r: Option<i128>)
        ensures
            r is Some <==> self.two_sided(),
            r matches Some(m) ==> m == self.width(),
    {
        match (self.best_bid(), self.best_ask()) {
            (Some(bid), Some(ask)) => Some(ask.units as i128 - bid.units as i128),
            _ => None,
        }
    }

    /// The checksum over the first `depth` levels of both sides.
    pub fn calculate_checksum(&self, depth: usize) -> (r: u32)
        ensures
            r == book_checksum(self.bids@, self.asks@, depth as nat),
    {
        let longest: usize = if self.bids.len() > self.asks.len() {
            self.bids.len()
        } else {
            self.asks.len()
        };
        let n: usize = if depth < longest { depth } else { longest };
        let mut checksum: u32 = 0;
        let mut i: usize = 0;
        while i < n
            invariant
                i <= n,
                checksum == book_checksum(self.bids@, self.asks@, i as nat),
            decreases n - i,
        {
            let ghost c = checksum;
            if i < self.bids.len() {
                let l = self.bids[i];
                checksum = checksum ^ (part_of(l.price) ^ part_of(l.quantity));
            } else {
                assert(c ^ 0u32 == c) by (bit_vector);
            }
            let ghost d = checksum;
            if i < self.asks.len() {
                let l = self.asks[i];
                checksum = checksum ^ (part_of(l.price) ^ part_of(l.quantity));
            } else {
                assert(d ^ 0u32 == d) by (bit_vector);
            }
            i += 1;
        }
        proof {
            if depth > n {
                lemma_checksum_beyond(self.bids@, self.asks@, n as nat, depth as nat);
            }
        }
        checksum
    }
}

/// The price and the quantity in two texts, where both are numbers.
pub open spec fn level_in(l: (String, String)) -> Option<(Amount, Amount)> {
    match (amount_in(l.0@), amount_in(l.1@)) {
        (Some(p), Some(q)) => Some((Amount { units: p as i64 }, Amount { units: q as i64 })),
        _ => None,
    }
}

/// The prices and quantities that can be read.
pub open spec fn readable(s: Seq<(String, String)>) -> Seq<(Amount, Amount)>
    decreases s.len(),
{
    if s.len() == 0 {
        Seq::empty()
    } else {
        match level_in(s.last()) {
            Some(l) => readable(s.drop_last()).push(l),
            None => readable(s.drop_last()),
        }
    }
}

fn keep_readable(s: &[(String, String)]) -> (out: Vec<(Amount, Amount)>)
    ensures
        out@ == readable(s@),
{
    let mut out: Vec<(Amount, Amount)> = Vec::new();
    let mut i: usize = 0;
    assert(s@.take(0) =~= Seq::empty());
    while i < s.len()
        invariant
            i <= s@.len(),
            out@ == readable(s@.take(i as int)),
        decreases s@.len() - i,
    {
        assert(s@.take(i + 1).drop_last() =~= s@.take(i as int));
        match (parse_amount(s[i].0.as_str()), parse_amount(s[i].1.as_str())) {
            (Some(p), Some(q)) => {
                assert(level_in(s@[i as int]) == Some((p, q)));
                out.push((p, q));
            },
            _ => {},
        }
        i += 1;
    }
    assert(s@.take(s@.len() as int) =~= s@);
    out
}

/// Rebuilds the order books of many symbols.
pub struct OrderBookReconstructor {
    pub books: Table<OrderBook>,
    pub is_running: bool,
    pub stats_update_count: u64,
    pub stats_stale_count: u64,
    pub stats_gap_count: u64,
}

impl OrderBookReconstructor {
    /// No symbol has two books.
    pub open spec fn wf(&self) -> bool {
        self.books.wf()
    }

    /// A reconstructor without books.
    pub fn new() -> (r: Self)
        ensures
            r.wf(),
            r.books@ == Map::<Seq<char>, OrderBook>::empty(),
            r.is_running,
            r.stats_update_count == 0,
            r.stats_stale_count == 0,
            r.stats_gap_count == 0,
    {
        OrderBookReconstructor {
            books: Table::new(),
            is_running: true,
            stats_update_count: 0,
            stats_stale_count: 0,
            stats_gap_count: 0,
        }
    }

    /// Whether `b` is the book of a symbol, or an empty one where it has none.
    pub open spec fn is_book(&self, symbol: Seq<char>, b: OrderBook) -> bool {
        if self.books@.contains_key(symbol) {
            b == self.books@[symbol]
        } else {
            b.symbol@ == symbol && b.bids@.len() == 0 && b.asks@.len() == 0 && b.last_update_id
                == 0 && b.prev_last_update_id == 0 && !b.is_snapshot_received
                && b.pending_updates@.len() == 0 && b.total_updates == 0 && b.stale_updates == 0 && b.sequence_gaps == 0
        }
    }

    /// Where the book of a symbol stands; an empty one is made where there is
    /// none.
    pub fn get_or_create_book(&mut self, symbol: &str) -> (i: usize)
        requires
            old(self).wf(),
        ensures
            final(self).wf(),
            i < final(self).books.entries@.len(),
            final(self).books.entries@[i as int].0@ == symbol@,
            old(self).is_book(symbol@, final(self).books.entries@[i as int].1),
            final(self).books@ == old(self).books@.insert(
                symbol@,
                final(self).books.entries@[i as int].1,
            ),
            *final(self) == (OrderBookReconstructor { books: final(self).books, ..*old(self) }),
    {
        match self.books.find(symbol) {
            Some(i) => {
                assert(self.books@.insert(symbol@, self.books@[symbol@]) =~= self.books@);
                i
            },
            None => {
                let _ = self.books.insert(symbol.to_owned(), OrderBook::new(symbol.to_owned()));
                match self.books.find(symbol) {
                    Some(i) => i,
                    None => 0,
                }
            },
        }
    }

    /// The book of a symbol.
    pub fn book(&self, symbol: &str) -> (r: Option<&OrderBook>)
        requires
            self.wf(),
        ensures
            r is Some <==> self.books@.contains_key(symbol@),
            r matches Some(b) ==> *b == self.books@[symbol@],
    {
        self.books.get(symbol)
    }

    /// Takes in a snapshot. Levels whose price or quantity is not a number are
    /// left out.
    pub fn process_snapshot(
        &mut self,
        symbol: &str,
        bids: &[(String, String)],
        asks: &[(String, String)],
        update_id: u64,
    ) -> (r: Result<(), &'static str>)
        requires
            old(self).wf(),
        ensures
            final(self).wf(),
            r is Ok,
            exists|before: OrderBook, after: OrderBook|
                old(self).is_book(symbol@, before) && #[trigger] before.snapshotted(
                    &after,
                    readable(bids@),
                    readable(asks@),
                    update_id,
                ) && final(self).books@ == old(self).books@.insert(symbol@, after),
            *final(self) == (OrderBookReconstructor { books: final(self).books, ..*old(self) }),
    {
        let parsed_bids = keep_readable(bids);
        let parsed_asks = keep_readable(asks);
        let i: usize = self.get_or_create_book(symbol);
        let ghost entries = self.books.entries@;
        let ghost created = self.books@;
        let entry = &mut self.books.entries[i];
        entry.1.apply_snapshot(parsed_bids.as_slice(), parsed_asks.as_slice(), update_id);
        proof {
            let after = self.books.entries@;
            assert(after =~= entries.update(i as int, after[i as int]));
            lemma_update(entries, i as int, after[i as int]);
            assert(created.insert(symbol@, after[i as int].1) =~= old(self).books@.insert(
                symbol@,
                after[i as int].1,
            ));
            assert(entries[i as int].1.snapshotted(
                &after[i as int].1,
                readable(bids@),
                readable(asks@),
                update_id,
            ));
        }
        Ok(())
    }

    /// Takes in an update. One that does not continue the book counts as stale
    /// and is not applied; one that skips a number is refused as well.
    pub fn process_update(
        &mut self,
        symbol: &str,
        first_update_id: u64,
        last_update_id: u64,
        prev_last_update_id: u64,
        bids: &[(String, String)],
        asks: &[(String, String)],
    ) -> (r: Result<bool, &'static str>)
        requires
            old(self).wf(),
            old(self).books@.contains_key(symbol@) ==> old(self).books@[symbol@].total_updates
                < u64::MAX,
        ensures
            final(self).wf(),
            exists|before: OrderBook, after: OrderBook|
                old(self).is_book(symbol@, before) && #[trigger] Self::update_outcome(
                    before,
                    after,
                    first_update_id,
                    last_update_id,
                    readable(bids@),
                    readable(asks@),
                    r,
                ) && final(self).books@ == old(self).books@.insert(symbol@, after),
            final(self).is_running == old(self).is_running,
            final(self).stats_update_count == (if r == Ok::<bool, &'static str>(true) {
                old(self).stats_update_count.wrapping_add(1)
            } else {
                old(self).stats_update_count
            }),
            final(self).stats_stale_count == (if r == Ok::<bool, &'static str>(true) {
                old(self).stats_stale_count
            } else {
                old(self).stats_stale_count.wrapping_add(1)
            }),
            final(self).stats_gap_count == (if r is Err {
                old(self).stats_gap_count.wrapping_add(1)
            } else {
                old(self).stats_gap_count
            }),
    {
        let i: usize = self.get_or_create_book(symbol);
        let ghost entries = self.books.entries@;
        let ghost created = self.books@;
        let ghost before = entries[i as int].1;
        if !self.books.entries[i].1.validate_sequence(first_update_id, last_update_id) {
            self.stats_stale_count = self.stats_stale_count.wrapping_add(1);
            if first_update_id as u128 > self.books.entries[i].1.last_update_id as u128 + 1 {
                self.stats_gap_count = self.stats_gap_count.wrapping_add(1);
                let r: Result<bool, &'static str> = Err("Sequence gap detected");
                assert(Self::update_outcome(
                    before,
                    before,
                    first_update_id,
                    last_update_id,
                    readable(bids@),
                    readable(asks@),
                    r,
                ));
                return r;
            }
            assert(Self::update_outcome(
                before,
                before,
                first_update_id,
                last_update_id,
                readable(bids@),
                readable(asks@),
                Ok(false),
            ));
            return Ok(false);
        }
        let parsed_bids = keep_readable(bids);
        let parsed_asks = keep_readable(asks);
        let entry = &mut self.books.entries[i];
        entry.1.apply_update(parsed_bids.as_slice(), parsed_asks.as_slice(), last_update_id);
        proof {
            let after = self.books.entries@;
            assert(after =~= entries.update(i as int, after[i as int]));
            lemma_update(entries, i as int, after[i as int]);
            assert(created.insert(symbol@, after[i as int].1) =~= old(self).books@.insert(
                symbol@,
                after[i as int].1,
            ));
            assert(Self::update_outcome(
                before,
                after[i as int].1,
                first_update_id,
                last_update_id,
                readable(bids@),
                readable(asks@),
                Ok(true),
            ));
        }
        self.stats_update_count = self.stats_update_count.wrapping_add(1);
        Ok(true)
    }

    /// What an update makes of a book, and what is answered.
    pub open spec fn update_outcome(
        before: OrderBook,
        after: OrderBook,
        first: u64,
        last: u64,
        bids: Seq<(Amount, Amount)>,
        asks: Seq<(Amount, Amount)>,
        r: Result<bool, &'static str>,
    ) -> bool {
        if before.continues(first, last) {
            r == Ok::<bool, &'static str>(true) && before.updated(&after, bids, asks, last)
        } else if first > before.last_update_id + 1 {
            r is Err && r->Err_0@ == "Sequence gap detected"@ && after == before
        } else {
            r == Ok::<bool, &'static str>(false) && after == before
        }
    }

    /// How many updates were applied, how many were not, and how many skipped
    /// a number.
    pub fn get_stats(&self) -> (r: (u64, u64, u64))
        ensures
            r == (self.stats_update_count, self.stats_stale_count, self.stats_gap_count),
    {
        (self.stats_update_count, self.stats_stale_count, self.stats_gap_count)
    }

    /// Ends the reconstruction.
    pub fn shutdown(&mut self)
        ensures
            *final(self) == (OrderBookReconstructor { is_running: false, ..*old(self) }),
    {
        self.is_running = false;
    }
}

impl Default for OrderBookReconstructor {
    fn default() -> (r: Self)
        ensures
            r.wf(),
            r.books@ == Map::<Seq<char>, OrderBook>::empty(),
            r.is_running,
            r.stats_update_count == 0,
            r.stats_stale_count == 0,
            r.stats_gap_count == 0,
    {
        OrderBookReconstructor::new()
    }
}

/// Whether a side offers a quantity at a price.
pub open spec fn offers(s: Seq<PriceLevel>, price: Amount, quantity: Amount) -> bool {
    exists|i: int|
        0 <= i < s.len() && (#[trigger] s[i]).price == price && s[i].quantity == quantity
}

/// Whether a side has a level at a price.
pub open spec fn quotes(s: Seq<PriceLevel>, price: Amount) -> bool {
    exists|i: int| 0 <= i < s.len() && (#[trigger] s[i]).price == price
}

/// Whether no two levels share a price.
pub open spec fn one_level_per_price(s: Seq<PriceLevel>) -> bool {
    forall|i: int, j: int|
        0 <= i < j < s.len() ==> (#[trigger] s[i]).price != (#[trigger] s[j]).price
}

/// Whether change `k` is the last of the first `n` for its price.
pub open spec fn last_change(changes: Seq<(Amount, Amount)>, n: int, k: int) -> bool {
    0 <= k < n && forall|m: int| k < m < n ==> (#[trigger] changes[m]).0 != changes[k].0
}

/// Whether none of the first `n` changes is for a price.
pub open spec fn unchanged(changes: Seq<(Amount, Amount)>, n: int, price: Amount) -> bool {
    forall|m: int| 0 <= m < n ==> (#[trigger] changes[m]).0 != price
}

proof fn lemma_level_index_at(s: Seq<PriceLevel>, price: Amount)
    ensures
        0 <= level_index(s, price) <= s.len(),
        level_index(s, price) < s.len() ==> s[level_index(s, price)].price == price,
        forall|i: int| 0 <= i < level_index(s, price) ==> (#[trigger] s[i]).price != price,
    decreases s.len(),
{
    if s.len() > 0 && s[0].price != price {
        let t = s.skip(1);
        lemma_level_index_at(t, price);
        assert forall|i: int| 0 <= i < level_index(s, price) implies (
        #[trigger] s[i]).price != price by {
            if i > 0 {
                assert(t[i - 1] == s[i]);
            }
        }
    }
}

proof fn lemma_non_empty_holds(s: Seq<PriceLevel>, l: PriceLevel)
    ensures
        non_empty(s).contains(l) <==> s.contains(l) && l.quantity.units > 0,
        non_empty(s).len() <= s.len(),
    decreases s.len(),
{
    if s.len() > 0 {
        lemma_non_empty_holds(s.drop_last(), l);
        lemma_push_holds(s.drop_last(), s.last(), l);
        assert(s.drop_last().push(s.last()) =~= s);
        if s.last().quantity.units > 0 {
            lemma_push_holds(non_empty(s.drop_last()), s.last(), l);
        }
    }
}

proof fn lemma_non_empty_distinct(s: Seq<PriceLevel>)
    requires
        one_level_per_price(s),
    ensures
        one_level_per_price(non_empty(s)),
    decreases s.len(),
{
    if s.len() > 0 {
        let d = s.drop_last();
        assert forall|i: int, j: int| 0 <= i < j < d.len() implies (#[trigger] d[i]).price != (
        #[trigger] d[j]).price by {
            assert(d[i] == s[i] && d[j] == s[j]);
        }
        lemma_non_empty_distinct(d);
        let t = non_empty(d);
        if s.last().quantity.units > 0 {
            let r = non_empty(s);
            assert forall|i: int, j: int| 0 <= i < j < r.len() implies (#[trigger] r[i]).price != (
            #[trigger] r[j]).price by {
                assert(r[i] == t[i]);
                if j < t.len() {
                    assert(r[j] == t[j]);
                } else {
                    lemma_non_empty_holds(d, t[i]);
                    assert(t.contains(t[i]));
                    let k = choose|k: int| 0 <= k < d.len() && d[k] == t[i];
                    assert(s[k] == t[i] && s[s.len() - 1] == r[j]);
                }
            }
        }
    }
}

proof fn lemma_level_set_holds(s: Seq<PriceLevel>, price: Amount, quantity: Amount)
    requires
        one_level_per_price(s),
        all_filled(s),
    ensures
        one_level_per_price(level_set(s, price, quantity)),
        all_filled(level_set(s, price, quantity)),
        quantity.units > 0 ==> offers(level_set(s, price, quantity), price, quantity),
        quantity.units <= 0 ==> !quotes(level_set(s, price, quantity), price),
        forall|l: PriceLevel|
            l.price != price ==> (#[trigger] level_set(s, price, quantity).contains(l)
                <==> s.contains(l)),
{
    lemma_level_index_at(s, price);
    let i = level_index(s, price);
    let now = Amount { units: if quantity.units <= 0 { 0 } else { quantity.units } };
    let changed = if i < s.len() {
        s.update(i, PriceLevel { quantity: now, ..s[i] })
    } else if quantity.units > 0 {
        s.push(PriceLevel { price, quantity, order_count: 1 })
    } else {
        s
    };
    assert(now == (if quantity.units <= 0 { Amount { units: 0 } } else { quantity }));
    let r = level_set(s, price, quantity);
    assert(r == non_empty(changed));
    assert forall|a: int, b: int| 0 <= a < b < changed.len() implies (
    #[trigger] changed[a]).price != (#[trigger] changed[b]).price by {
        if a < s.len() {
            assert(changed[a].price == s[a].price);
        }
        if b < s.len() {
            assert(changed[b].price == s[b].price);
        }
    }
    lemma_non_empty_distinct(changed);
    lemma_non_empty(changed);
    if quantity.units > 0 {
        let l = changed[i];
        assert(changed.contains(l));
        lemma_non_empty_holds(changed, l);
        let k = choose|k: int| 0 <= k < r.len() && r[k] == l;
        assert(r[k].price == price && r[k].quantity == quantity);
    } else if quotes(r, price) {
        let k = choose|k: int| 0 <= k < r.len() && (#[trigger] r[k]).price == price;
        lemma_non_empty_holds(changed, r[k]);
        assert(r.contains(r[k]));
        let m = choose|m: int| 0 <= m < changed.len() && changed[m] == r[k];
        assert(changed[m].price == price);
        assert(changed[m].price == s[m].price);
        if m < i {
            assert(s[m].price != price);
        } else if m > i {
            assert(s[i].price != s[m].price);
        }
    }
    assert forall|l: PriceLevel| l.price != price implies (#[trigger] r.contains(l)
        <==> s.contains(l)) by {
        lemma_non_empty_holds(changed, l);
        if s.contains(l) {
            let k = choose|k: int| 0 <= k < s.len() && s[k] == l;
            assert(changed[k] == l);
            assert(changed.contains(l));
        }
        if changed.contains(l) {
            let k = choose|k: int| 0 <= k < changed.len() && changed[k] == l;
            assert(k < s.len() && s[k] == l);
        }
    }
}

proof fn lemma_levels_set_holds(s: Seq<PriceLevel>, changes: Seq<(Amount, Amount)>, n: nat)
    requires
        one_level_per_price(s),
        all_filled(s),
        n <= changes.len(),
    ensures
        one_level_per_price(levels_set(s, changes, n)),
        all_filled(levels_set(s, changes, n)),
        forall|k: int| #[trigger]
            last_change(changes, n as int, k) && changes[k].1.units > 0 ==> offers(
                levels_set(s, changes, n),
                changes[k].0,
                changes[k].1,
            ),
        forall|k: int| #[trigger]
            last_change(changes, n as int, k) && changes[k].1.units <= 0 ==> !quotes(
                levels_set(s, changes, n),
                changes[k].0,
            ),
        forall|l: PriceLevel|
            unchanged(changes, n as int, l.price) ==> (#[trigger] levels_set(
                s,
                changes,
                n,
            ).contains(l) <==> s.contains(l)),
    decreases n,
{
    if n > 0 {
        let m = (n - 1) as nat;
        lemma_levels_set_holds(s, changes, m);
        let b = levels_set(s, changes, m);
        let price = changes[m as int].0;
        let quantity = changes[m as int].1;
        lemma_level_set_holds(b, price, quantity);
        let r = levels_set(s, changes, n);
        assert(r == level_set(b, price, quantity));
        assert forall|k: int| #[trigger] last_change(changes, n as int, k) implies (
        changes[k].1.units > 0 ==> offers(r, changes[k].0, changes[k].1)) && (changes[k].1.units
            <= 0 ==> !quotes(r, changes[k].0)) by {
            if k < m {
                assert(changes[m as int].0 != changes[k].0);
                assert(last_change(changes, m as int, k));
                if changes[k].1.units > 0 {
                    let i = choose|i: int|
                        0 <= i < b.len() && (#[trigger] b[i]).price == changes[k].0
                            && b[i].quantity == changes[k].1;
                    assert(b.contains(b[i]));
                    assert(r.contains(b[i]));
                    let j = choose|j: int| 0 <= j < r.len() && r[j] == b[i];
                    assert(r[j].price == changes[k].0);
                } else if quotes(r, changes[k].0) {
                    let i = choose|i: int|
                        0 <= i < r.len() && (#[trigger] r[i]).price == changes[k].0;
                    assert(r.contains(r[i]));
                    assert(b.contains(r[i]));
                    let j = choose|j: int| 0 <= j < b.len() && b[j] == r[i];
                    assert(b[j].price == changes[k].0);
                }
            }
        }
        assert forall|l: PriceLevel| unchanged(changes, n as int, l.price) implies (
        #[trigger] r.contains(l) <==> s.contains(l)) by {
            assert(changes[m as int].0 != l.price);
            assert(unchanged(changes, m as int, l.price));
            assert(r.contains(l) <==> b.contains(l));
            assert(b.contains(l) <==> s.contains(l));
        }
    }
}

proof fn lemma_placed_holds(side: BookSide, s: Seq<PriceLevel>, l: PriceLevel, x: PriceLevel)
    ensures
        placed(side, s, l).contains(x) <==> s.contains(x) || x == l,
        placed(side, s, l).len() == s.len() + 1,
    decreases s.len(),
{
    lemma_push_holds(s, l, x);
    if s.len() > 0 && precedes(side, l.price, s.last().price) {
        lemma_placed_holds(side, s.drop_last(), l, x);
        lemma_push_holds(placed(side, s.drop_last(), l), s.last(), x);
        lemma_push_holds(s.drop_last(), s.last(), x);
        assert(s.drop_last().push(s.last()) =~= s);
    }
}

proof fn lemma_arranged_holds(side: BookSide, s: Seq<PriceLevel>, x: PriceLevel)
    ensures
        arranged(side, s).contains(x) <==> s.contains(x),
        arranged(side, s).len() == s.len(),
    decreases s.len(),
{
    if s.len() > 0 {
        lemma_arranged_holds(side, s.drop_last(), x);
        lemma_placed_holds(side, arranged(side, s.drop_last()), s.last(), x);
        lemma_push_holds(s.drop_last(), s.last(), x);
        assert(s.drop_last().push(s.last()) =~= s);
    }
}

proof fn lemma_cut(side: BookSide, s: Seq<PriceLevel>, x: PriceLevel)
    requires
        s.contains(x),
    ensures
        ({
            let t = shallow(arranged(side, s));
            t.contains(x) || (t.len() == 50 && forall|i: int|
                0 <= i < t.len() ==> !precedes(side, x.price, (#[trigger] t[i]).price))
        }),
{
    lemma_arranged_holds(side, s, x);
    lemma_arranged(side, s);
    let a = arranged(side, s);
    let t = shallow(a);
    let k = choose|k: int| 0 <= k < a.len() && a[k] == x;
    if k < t.len() {
        assert(t[k] == x);
    } else {
        assert forall|i: int| 0 <= i < t.len() implies !precedes(
            side,
            x.price,
            (#[trigger] t[i]).price,
        ) by {
            assert(t[i] == a[i] && a[k] == x);
        }
    }
}

/// After an update asks stand in rising order of their prices and bids in
/// falling order: the first ask is the cheapest of the book, the first bid the
/// dearest, and there are no more than fifty of each.
pub proof fn law_best_price_first(
    before: OrderBook,
    after: OrderBook,
    bids: Seq<(Amount, Amount)>,
    asks: Seq<(Amount, Amount)>,
    update_id: u64,
)
    requires
        before.updated(&after, bids, asks, update_id),
    ensures
        forall|i: int, j: int|
            0 <= i < j < after.asks@.len() ==> (#[trigger] after.asks@[i]).price.units <= (
            #[trigger] after.asks@[j]).price.units,
        forall|i: int, j: int|
            0 <= i < j < after.bids@.len() ==> (#[trigger] after.bids@[i]).price.units >= (
            #[trigger] after.bids@[j]).price.units,
        forall|i: int|
            0 <= i < after.asks@.len() ==> after.asks@[0].price.units <= (
            #[trigger] after.asks@[i]).price.units,
        forall|i: int|
            0 <= i < after.bids@.len() ==> after.bids@[0].price.units >= (
            #[trigger] after.bids@[i]).price.units,
        after.asks@.len() <= 50,
        after.bids@.len() <= 50,
{
    let a = arranged(BookSide::Ask, levels_set(before.asks@, asks, asks.len()));
    let b = arranged(BookSide::Bid, levels_set(before.bids@, bids, bids.len()));
    lemma_arranged(BookSide::Ask, levels_set(before.asks@, asks, asks.len()));
    lemma_arranged(BookSide::Bid, levels_set(before.bids@, bids, bids.len()));
    assert forall|i: int, j: int| 0 <= i < j < after.asks@.len() implies (
    #[trigger] after.asks@[i]).price.units <= (#[trigger] after.asks@[j]).price.units by {
        assert(after.asks@[i] == a[i] && after.asks@[j] == a[j]);
        assert(!precedes(BookSide::Ask, a[j].price, a[i].price));
    }
    assert forall|i: int, j: int| 0 <= i < j < after.bids@.len() implies (
    #[trigger] after.bids@[i]).price.units >= (#[trigger] after.bids@[j]).price.units by {
        assert(after.bids@[i] == b[i] && after.bids@[j] == b[j]);
        assert(!precedes(BookSide::Bid, b[j].price, b[i].price));
    }
    assert forall|i: int| 0 <= i < after.asks@.len() implies after.asks@[0].price.units <= (
    #[trigger] after.asks@[i]).price.units by {
        if i > 0 {
            assert(after.asks@[0].price.units <= after.asks@[i].price.units);
        }
    }
    assert forall|i: int| 0 <= i < after.bids@.len() implies after.bids@[0].price.units >= (
    #[trigger] after.bids@[i]).price.units by {
        if i > 0 {
            assert(after.bids@[0].price.units >= after.bids@[i].price.units);
        }
    }
}

/// After an update the best ask is an ask and no ask of the book is cheaper, and
/// the best bid is a bid and no bid is dearer; there is one exactly where its
/// side has a level. The middle lies as far above the bid as below the ask, and
/// the spread leads from the bid to the ask.
pub proof fn law_best_prices(
    before: OrderBook,
    after: OrderBook,
    bids: Seq<(Amount, Amount)>,
    asks: Seq<(Amount, Amount)>,
    update_id: u64,
    i: int,
)
    requires
        before.updated(&after, bids, asks, update_id),
    ensures
        after.top_ask() is Some <==> after.asks@.len() > 0,
        after.top_bid() is Some <==> after.bids@.len() > 0,
        0 <= i < after.asks@.len() ==> after.top_ask()->0.units <= after.asks@[i].price.units,
        0 <= i < after.bids@.len() ==> after.top_bid()->0.units >= after.bids@[i].price.units,
        after.asks@.len() > 0 ==> exists|k: int|
            0 <= k < after.asks@.len() && after.top_ask() == Some((#[trigger] after.asks@[k]).price),
        after.bids@.len() > 0 ==> exists|k: int|
            0 <= k < after.bids@.len() && after.top_bid() == Some((#[trigger] after.bids@[k]).price),
        after.two_sided() <==> after.top_bid() is Some && after.top_ask() is Some,
        after.two_sided() ==> {
            let b = after.top_bid()->0.units;
            let a = after.top_ask()->0.units;
            &&& after.twice_the_middle() - 2 * b == 2 * a - after.twice_the_middle()
            &&& b + after.width() == a
        },
{
    law_best_price_first(before, after, bids, asks, update_id);
    if after.asks@.len() > 0 {
        assert(after.top_ask() == Some(after.asks@[0].price));
    }
    if after.bids@.len() > 0 {
        assert(after.top_bid() == Some(after.bids@[0].price));
    }
}

/// After an update each price has the quantity that the last change for it
/// names, and no level where that is none; levels whose price was not changed
/// are what they were, and there are no others. Only where fifty levels at
/// prices at least as good are there can a level be missing.
pub proof fn law_update_sets_quantities(
    side: BookSide,
    s: Seq<PriceLevel>,
    changes: Seq<(Amount, Amount)>,
)
    requires
        one_level_per_price(s),
        all_filled(s),
    ensures
        ({
            let t = updated_side(side, s, changes);
            &&& forall|k: int| #[trigger]
                last_change(changes, changes.len() as int, k) && changes[k].1.units > 0
                    ==> offers(t, changes[k].0, changes[k].1) || (t.len() == 50 && forall|i: int|
                    0 <= i < t.len() ==> if side == BookSide::Bid {
                        (#[trigger] t[i]).price.units >= changes[k].0.units
                    } else {
                        t[i].price.units <= changes[k].0.units
                    })
            &&& forall|k: int| #[trigger]
                last_change(changes, changes.len() as int, k) && changes[k].1.units <= 0
                    ==> !quotes(t, changes[k].0)
            &&& forall|l: PriceLevel|
                unchanged(changes, changes.len() as int, l.price) && s.contains(l) ==> #[trigger]
                t.contains(l) || (t.len() == 50 && forall|i: int|
                    0 <= i < t.len() ==> if side == BookSide::Bid {
                        (#[trigger] t[i]).price.units >= l.price.units
                    } else {
                        t[i].price.units <= l.price.units
                    })
            &&& forall|l: PriceLevel|
                unchanged(changes, changes.len() as int, l.price) && #[trigger] t.contains(l)
                    ==> s.contains(l)
        }),
{
    let n = changes.len();
    let set = levels_set(s, changes, n);
    lemma_levels_set_holds(s, changes, n);
    let a = arranged(side, set);
    let t = updated_side(side, s, changes);
    assert forall|k: int| #[trigger]
        last_change(changes, n as int, k) && changes[k].1.units > 0 implies offers(
        t,
        changes[k].0,
        changes[k].1,
    ) || (t.len() == 50 && forall|i: int|
        0 <= i < t.len() ==> if side == BookSide::Bid {
            (#[trigger] t[i]).price.units >= changes[k].0.units
        } else {
            t[i].price.units <= changes[k].0.units
        }) by {
        let i = choose|i: int|
            0 <= i < set.len() && (#[trigger] set[i]).price == changes[k].0 && set[i].quantity
                == changes[k].1;
        assert(set.contains(set[i]));
        lemma_cut(side, set, set[i]);
        if t.contains(set[i]) {
            let j = choose|j: int| 0 <= j < t.len() && t[j] == set[i];
            assert(t[j].price == changes[k].0);
        }
    }
    assert forall|x: PriceLevel| #[trigger] t.contains(x) implies set.contains(x) by {
        let j = choose|j: int| 0 <= j < t.len() && t[j] == x;
        assert(a[j] == x);
        lemma_arranged_holds(side, set, x);
    }
    assert forall|k: int| #[trigger]
        last_change(changes, n as int, k) && changes[k].1.units <= 0 implies !quotes(
        t,
        changes[k].0,
    ) by {
        if quotes(t, changes[k].0) {
            let j = choose|j: int| 0 <= j < t.len() && (#[trigger] t[j]).price == changes[k].0;
            assert(t.contains(t[j]));
            assert(set.contains(t[j]));
            let i = choose|i: int| 0 <= i < set.len() && set[i] == t[j];
            assert(set[i].price == changes[k].0);
        }
    }
    assert forall|l: PriceLevel|
        unchanged(changes, n as int, l.price) && s.contains(l) implies #[trigger] t.contains(l) || (
    t.len() == 50 && forall|i: int|
        0 <= i < t.len() ==> if side == BookSide::Bid {
            (#[trigger] t[i]).price.units >= l.price.units
        } else {
            t[i].price.units <= l.price.units
        }) by {
        assert(set.contains(l));
        lemma_cut(side, set, l);
    }
}

/// A snapshot whose levels all have a quantity becomes the book as it is,
/// level by level, up to fifty of them, and the book is numbered by it.
pub proof fn law_snapshot_replaces_book(
    before: OrderBook,
    after: OrderBook,
    bids: Seq<(Amount, Amount)>,
    asks: Seq<(Amount, Amount)>,
    update_id: u64,
)
    requires
        before.snapshotted(&after, bids, asks, update_id),
        forall|i: int| 0 <= i < bids.len() ==> (#[trigger] bids[i]).1.units > 0,
        forall|i: int| 0 <= i < asks.len() ==> (#[trigger] asks[i]).1.units > 0,
    ensures
        after.bids@.len() == (if bids.len() < 50 { bids.len() } else { 50 }),
        after.asks@.len() == (if asks.len() < 50 { asks.len() } else { 50 }),
        forall|i: int|
            0 <= i < after.bids@.len() ==> (#[trigger] after.bids@[i]).price == bids[i].0
                && after.bids@[i].quantity == bids[i].1,
        forall|i: int|
            0 <= i < after.asks@.len() ==> (#[trigger] after.asks@[i]).price == asks[i].0
                && after.asks@[i].quantity == asks[i].1,
        after.is_snapshot_received,
        after.last_update_id == update_id,
{
    lemma_fresh_levels(bids, if bids.len() < 50 { bids.len() } else { 50 });
    lemma_fresh_levels(asks, if asks.len() < 50 { asks.len() } else { 50 });
}

proof fn lemma_fresh_levels(s: Seq<(Amount, Amount)>, n: nat)
    requires
        n <= s.len(),
        forall|i: int| 0 <= i < s.len() ==> (#[trigger] s[i]).1.units > 0,
    ensures
        fresh_levels(s, n).len() == n,
        forall|i: int|
            0 <= i < n ==> (#[trigger] fresh_levels(s, n)[i]).price == s[i].0 && fresh_levels(
                s,
                n,
            )[i].quantity == s[i].1,
    decreases n,
{
    if n > 0 {
        lemma_fresh_levels(s, (n - 1) as nat);
        assert(s[n - 1].1.units > 0);
    }
}

/// A level without a quantity is no level of a snapshot's book.
pub proof fn law_snapshot_without_empty_levels(s: Seq<(Amount, Amount)>, l: PriceLevel)
    ensures
        snapshot_levels(s).len() <= 50,
        snapshot_levels(s).contains(l) ==> l.quantity.units > 0 && exists|i: int|
            0 <= i < s.len() && i < 50 && (#[trigger] s[i]).0 == l.price && s[i].1 == l.quantity,
{
    lemma_fresh_from(s, if s.len() < 50 { s.len() } else { 50 }, l);
}

proof fn lemma_fresh_from(s: Seq<(Amount, Amount)>, n: nat, l: PriceLevel)
    requires
        n <= s.len(),
    ensures
        fresh_levels(s, n).len() <= n,
        fresh_levels(s, n).contains(l) ==> l.quantity.units > 0 && exists|i: int|
            0 <= i < n && (#[trigger] s[i]).0 == l.price && s[i].1 == l.quantity,
    decreases n,
{
    if n > 0 {
        let m = (n - 1) as nat;
        lemma_fresh_from(s, m, l);
        let x = PriceLevel { price: s[n - 1].0, quantity: s[n - 1].1, order_count: 1 };
        lemma_push_holds(fresh_levels(s, m), x, l);
        if fresh_levels(s, n).contains(l) && !fresh_levels(s, m).contains(l) {
            assert(s[n - 1].0 == l.price && s[n - 1].1 == l.quantity);
        }
    }
}

/// Updates are applied without a gap: one that begins behind the next number
/// is refused as a gap and one that ends at a number already seen is passed
/// over, both without a change, as is any before a snapshot; one that begins at
/// or before the next number and ends behind the last one is applied, and the
/// book then has its last number.
pub proof fn law_numbers_without_gap(
    before: OrderBook,
    after: OrderBook,
    first: u64,
    last: u64,
    bids: Seq<(Amount, Amount)>,
    asks: Seq<(Amount, Amount)>,
    r: Result<bool, &'static str>,
)
    requires
        OrderBookReconstructor::update_outcome(before, after, first, last, bids, asks, r),
    ensures
        first > before.last_update_id + 1 ==> r is Err && after == before,
        first <= before.last_update_id + 1 && last <= before.last_update_id ==> r == Ok::<
            bool,
            &'static str,
        >(false) && after == before,
        !before.is_snapshot_received ==> r != Ok::<bool, &'static str>(true) && after == before,
        before.is_snapshot_received && first <= before.last_update_id + 1 && last
            > before.last_update_id ==> r == Ok::<bool, &'static str>(true)
            && after.last_update_id == last && after.prev_last_update_id == before.last_update_id,
        r is Ok ==> first <= before.last_update_id + 1,
        after.last_update_id >= before.last_update_id,
{
}

/// A checksum tells nothing apart beyond its depth, and does not depend on
/// which side is which; at depth one it combines the two best levels.
pub proof fn law_checksum(bids: Seq<PriceLevel>, asks: Seq<PriceLevel>, n: nat)
    ensures
        book_checksum(bids, asks, 0) == 0,
        book_checksum(bids, asks, n) == book_checksum(asks, bids, n),
        bids.len() > 0 && asks.len() > 0 && 0 <= bids[0].price.units <= u32::MAX && 0
            <= bids[0].quantity.units <= u32::MAX && 0 <= asks[0].price.units <= u32::MAX && 0
            <= asks[0].quantity.units <= u32::MAX ==> book_checksum(bids, asks, 1) == (
        bids[0].price.units as u32 ^ bids[0].quantity.units as u32) ^ (asks[0].price.units as u32
            ^ asks[0].quantity.units as u32),
    decreases n,
{
    if n > 0 {
        law_checksum(bids, asks, (n - 1) as nat);
        let c = book_checksum(bids, asks, (n - 1) as nat);
        let x = level_checksum(bids, n - 1);
        let y = level_checksum(asks, n - 1);
        assert((c ^ x) ^ y == (c ^ y) ^ x) by (bit_vector);
    }
    if bids.len() > 0 && asks.len() > 0 {
        reveal_with_fuel(book_checksum, 2);
        let x = level_checksum(bids, 0);
        let y = level_checksum(asks, 0);
        assert((0u32 ^ x) ^ y == x ^ y) by (bit_vector);
    }
}

} // verus!
