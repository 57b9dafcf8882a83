//! Margin of a portfolio whose hedges offset each other. Prices, quantities
//! and rates are decimal numbers with eight places.

use vstd::prelude::*;
use crate::base::amount::{magnitude, Amount};
use crate::base::numbers::{
    between, divide_wide, hold_between, larger, product, product_of, saturate, saturated, share,
    share_of, smaller, truncated_div,
};
use crate::base::table::Table;
use crate::base::text::views;

verus! {

/// Kinds of assets.
#[derive(Debug, Clone, Copy, PartialEq, Eq, Hash, Structural)]
pub enum AssetType {
    Spot,
    Perpetual,
    Futures,
    OptionCall,
    OptionPut,
}

impl AssetType {
    /// The margin of a kind, as part of the value.
    pub open spec fn rate(self) -> int {
        match self {
            AssetType::Spot => 100_000_000,
            AssetType::Perpetual => 1_000_000,
            AssetType::Futures => 1_000_000,
            AssetType::OptionCall => 15_000_000,
            AssetType::OptionPut => 15_000_000,
        }
    }
}

/// Side of a position.
#[derive(Debug, Clone, Copy, PartialEq, Eq, Structural)]
pub enum PositionSide {
    Long,
    Short,
}

/// A position of a portfolio.
#[derive(Debug, Clone)]
pub struct PortfolioPosition {
    pub symbol: String,
    pub asset_type: AssetType,
    pub side: PositionSide,
    pub size: Amount,
    pub price: Amount,
}

impl PortfolioPosition {
    /// The value of the position; negative where its size or its price is.
    pub open spec fn notional(self) -> int {
        product(self.size.units as int, self.price.units as int)
    }

    /// The size of that value.
    pub open spec fn exposure(self) -> int {
        magnitude(self.notional()) as int
    }
}

/// Assets that move together.
#[derive(Debug, Clone)]
pub struct CorrelationGroup {
    pub assets: Vec<String>,
    /// From zero to one.
    pub correlation: Amount,
    /// The part of a hedge's margin that is waived.
    pub offset_pct: Amount,
}

/// The margin of a portfolio, with and without offsets.
#[derive(Debug, Clone, Copy, PartialEq, Eq, Structural)]
pub struct PortfolioMarginResult {
    pub gross_notional: Amount,
    pub net_notional: Amount,
    pub gross_margin: Amount,
    pub net_margin: Amount,
    pub margin_savings: Amount,
    pub savings_pct: Amount,
}

/// A hedge within a group.
#[derive(Debug, Clone)]
pub struct HedgeInfo {
    pub group_index: usize,
    pub assets: Vec<String>,
    pub long_notional: Amount,
    pub short_notional: Amount,
    pub hedge_ratio: Amount,
    pub offset_benefit: Amount,
}

/// The exposure of all positions.
pub open spec fn total_notional(s: Seq<PortfolioPosition>) -> int
    decreases s.len(),
{
    if s.len() == 0 {
        0
    } else {
        saturated(total_notional(s.drop_last()) + s.last().exposure())
    }
}

/// The margin of all positions without offsets.
pub open spec fn full_margin(s: Seq<PortfolioPosition>) -> int
    decreases s.len(),
{
    if s.len() == 0 {
        0
    } else {
        saturated(
            full_margin(s.drop_last()) + truncated_div(
                s.last().exposure() * s.last().asset_type.rate(),
                100_000_000,
            ),
        )
    }
}

/// The group of a symbol, where it has one.
pub open spec fn group_of(groups: Map<Seq<char>, usize>, symbol: Seq<char>) -> Option<int> {
    if groups.contains_key(symbol) {
        Some(groups[symbol] as int)
    } else {
        None
    }
}

/// Whether a position is of a group, on one side.
pub open spec fn stands(
    p: PortfolioPosition,
    groups: Map<Seq<char>, usize>,
    group: int,
    side: PositionSide,
) -> bool {
    group_of(groups, p.symbol@) == Some(group) && p.side == side
}

/// The value of a group's positions on one side.
pub open spec fn side_notional(
    s: Seq<PortfolioPosition>,
    groups: Map<Seq<char>, usize>,
    group: int,
    side: PositionSide,
) -> int
    decreases s.len(),
{
    if s.len() == 0 {
        0
    } else {
        let before = side_notional(s.drop_last(), groups, group, side);
        if stands(s.last(), groups, group, side) {
            saturated(before + s.last().notional())
        } else {
            before
        }
    }
}

/// The value of a group's short positions of one kind.
pub open spec fn short_of_kind(
    s: Seq<PortfolioPosition>,
    groups: Map<Seq<char>, usize>,
    group: int,
    kind: AssetType,
) -> int
    decreases s.len(),
{
    if s.len() == 0 {
        0
    } else {
        let before = short_of_kind(s.drop_last(), groups, group, kind);
        if stands(s.last(), groups, group, PositionSide::Short) && s.last().asset_type == kind {
            saturated(before + s.last().notional())
        } else {
            before
        }
    }
}

/// The short exposure of a group: the sizes of its short values, one for each
/// kind of assets.
pub open spec fn short_exposure(
    s: Seq<PortfolioPosition>,
    groups: Map<Seq<char>, usize>,
    group: int,
) -> int {
    let spot = magnitude(short_of_kind(s, groups, group, AssetType::Spot));
    let perpetual = magnitude(short_of_kind(s, groups, group, AssetType::Perpetual));
    let futures = magnitude(short_of_kind(s, groups, group, AssetType::Futures));
    let calls = magnitude(short_of_kind(s, groups, group, AssetType::OptionCall));
    let puts = magnitude(short_of_kind(s, groups, group, AssetType::OptionPut));
    saturated((spot + perpetual + futures + calls + puts) as int)
}

/// How many of a group's positions are on one side.
pub open spec fn side_count(
    s: Seq<PortfolioPosition>,
    groups: Map<Seq<char>, usize>,
    group: int,
    side: PositionSide,
) -> nat
    decreases s.len(),
{
    if s.len() == 0 {
        0
    } else {
        side_count(s.drop_last(), groups, group, side) + if stands(
            s.last(),
            groups,
            group,
            side,
        ) {
            1nat
        } else {
            0
        }
    }
}

/// The positions without a group.
pub open spec fn ungrouped(s: Seq<PortfolioPosition>, groups: Map<Seq<char>, usize>) -> Seq<
    PortfolioPosition,
>
    decreases s.len(),
{
    if s.len() == 0 {
        Seq::empty()
    } else if group_of(groups, s.last().symbol@) is None {
        ungrouped(s.drop_last(), groups).push(s.last())
    } else {
        ungrouped(s.drop_last(), groups)
    }
}

/// The margin of a group: the matched part pays what the offset leaves, the
/// rest pays in full.
pub open spec fn group_margin(long: int, short: int, offset: int) -> int {
    let matched = smaller(long, short);
    truncated_div(
        matched * 1_000_000 * (100_000_000 - offset),
        10_000_000_000_000_000,
    ) + truncated_div((larger(long, short) - matched) * 1_000_000, 100_000_000)
}

/// The margin of the first `n` groups.
pub open spec fn grouped_margin(
    s: Seq<PortfolioPosition>,
    groups: Map<Seq<char>, usize>,
    c: Seq<CorrelationGroup>,
    n: int,
) -> int
    decreases n,
{
    if n <= 0 {
        0
    } else {
        saturated(
            grouped_margin(s, groups, c, n - 1) + group_margin(
                side_notional(s, groups, n - 1, PositionSide::Long),
                short_exposure(s, groups, n - 1),
                c[n - 1].offset_pct.units as int,
            ),
        )
    }
}

/// The exposure of the first `n` groups: long and short values cancel.
pub open spec fn grouped_notional(
    s: Seq<PortfolioPosition>,
    groups: Map<Seq<char>, usize>,
    n: int,
) -> int
    decreases n,
{
    if n <= 0 {
        0
    } else {
        let long = side_notional(s, groups, n - 1, PositionSide::Long);
        let short = side_notional(s, groups, n - 1, PositionSide::Short);
        saturated(grouped_notional(s, groups, n - 1) + (larger(long, short) - smaller(long, short)))
    }
}

/// The part of a hedge that is matched: the smaller side over the larger one. A
/// larger side that is not positive counts as a hundredth of the smallest
/// amount.
pub open spec fn hedge_ratio(long: int, short: int) -> int {
    if larger(long, short) > 0 {
        share(smaller(long, short), larger(long, short))
    } else {
        saturated(smaller(long, short) * 10_000_000_000)
    }
}

/// Works out margins with offsets.
pub struct PortfolioMarginCalculator {
    pub correlation_groups: Vec<CorrelationGroup>,
    pub symbol_group_map: Table<usize>,
    pub cross_margin_discount: Amount,
}

fn notional_of(p: &PortfolioPosition) -> (r: i64)
    ensures
        r == p.notional(),
{
    product_of(p.size.units, p.price.units)
}

fn size_of(x: i64) -> (r: i128)
    ensures
        r == magnitude(x as int),
{
    if x < 0 {
        -(x as i128)
    } else {
        x as i128
    }
}

/// Adds a position's exposure and its margin to sums.
fn add_position(p: &PortfolioPosition, notional: i64, margin: i64) -> (r: (i64, i64))
    ensures
        r.0 == saturated(notional + p.exposure()),
        r.1 == saturated(
            margin + truncated_div(p.exposure() * p.asset_type.rate(), 100_000_000),
        ),
{
    let exposure: i128 = size_of(notional_of(p));
    let rate: i128 = get_margin_rate(p.asset_type) as i128;
    assert(0 <= exposure * rate <= 0x8000_0000_0000_0000 * 100_000_000) by (nonlinear_arith)
        requires
            0 <= exposure <= 0x8000_0000_0000_0000,
            0 <= rate <= 100_000_000,
    ;
    let own: i128 = divide_wide(exposure * rate, 100_000_000);
    (saturate(notional as i128 + exposure), saturate(margin as i128 + own))
}

/// The margin of a kind, as part of the value.
pub fn get_margin_rate(asset_type: AssetType) -> (r: i64)
    ensures
        r == asset_type.rate(),
{
    match asset_type {
        AssetType::Spot => 100_000_000,
        AssetType::Perpetual => 1_000_000,
        AssetType::Futures => 1_000_000,
        AssetType::OptionCall => 15_000_000,
        AssetType::OptionPut => 15_000_000,
    }
}

fn copied(v: &Vec<String>) -> (r: Vec<String>)
    ensures
        views(r@) == views(v@),
{
    let mut r: Vec<String> = Vec::new();
    let mut i: usize = 0;
    while i < v.len()
        invariant
            i <= v@.len(),
            views(r@) == views(v@).take(i as int),
        decreases v@.len() - i,
    {
        let ghost before = views(r@);
        r.push(v[i].as_str().to_string());
        assert(views(r@) =~= before.push(v@[i as int]@));
        assert(views(r@) =~= views(v@).take(i + 1));
        i += 1;
    }
    assert(views(v@).take(v@.len() as int) =~= views(v@));
    r
}

impl PortfolioMarginCalculator {
    /// Every symbol's group exists, and offsets are parts of one.
    pub open spec fn wf(&self) -> bool {
        &&& self.symbol_group_map.wf()
        &&& forall|k: Seq<char>| #[trigger]
            self.symbol_group_map@.contains_key(k) ==> self.symbol_group_map@[k]
                < self.correlation_groups@.len()
        &&& forall|i: int|
            0 <= i < self.correlation_groups@.len() ==> 0 <= (
            #[trigger] self.correlation_groups@[i]).offset_pct.units <= 100_000_000
    }

    /// A calculator without groups.
    pub fn without_groups() -> (c: Self)
        ensures
            c.wf(),
            c.correlation_groups@.len() == 0,
            c.symbol_group_map@ == Map::<Seq<char>, usize>::empty(),
            c.cross_margin_discount.units == 50_000_000,
    {
        PortfolioMarginCalculator {
            correlation_groups: Vec::new(),
            symbol_group_map: Table::new(),
            cross_margin_discount: Amount { units: 50_000_000 },
        }
    }

    /// Two groups: spot, perpetual and futures of bitcoin, and those of ether.
    /// Within a group, assets move together to 99 percent, and hedges are waived
    /// by 95 percent.
    pub open spec fn usual(&self) -> bool {
        let groups = self.correlation_groups@;
        &&& groups.len() == 2
        &&& groups[0].correlation.units == 99_000_000
        &&& groups[1].correlation.units == 99_000_000
        &&& groups[0].offset_pct.units == 95_000_000
        &&& groups[1].offset_pct.units == 95_000_000
        &&& views(groups[0].assets@) == seq!["BTC"@, "BTC-PERP"@, "BTC-FUTURES"@]
        &&& views(groups[1].assets@) == seq!["ETH"@, "ETH-PERP"@, "ETH-FUTURES"@]
        &&& self.symbol_group_map@ == Map::<Seq<char>, usize>::empty().insert("BTC"@, 0).insert(
            "BTC-PERP"@,
            0,
        ).insert("BTC-FUTURES"@, 0).insert("ETH"@, 1).insert("ETH-PERP"@, 1).insert(
            "ETH-FUTURES"@,
            1,
        )
        &&& self.cross_margin_discount.units == 50_000_000
    }

    /// A calculator with the usual groups.
    pub fn new() -> (c: Self)
        ensures
            c.wf(),
            c.usual(),
    {
        let mut c = Self::without_groups();
        let mut btc: Vec<String> = Vec::new();
        btc.push("BTC".to_string());
        btc.push("BTC-PERP".to_string());
        btc.push("BTC-FUTURES".to_string());
        assert(views(btc@) =~= seq!["BTC"@, "BTC-PERP"@, "BTC-FUTURES"@]);
        proof {
            reveal_with_fuel(mapped, 4);
            let v = views(btc@);
            assert(v.drop_last() =~= seq!["BTC"@, "BTC-PERP"@]);
            assert(v.drop_last().drop_last() =~= seq!["BTC"@]);
            assert(v.drop_last().drop_last().drop_last() =~= Seq::empty());
        }
        let ghost empty = c.symbol_group_map@;
        c.add_correlation_group(btc, Amount { units: 99_000_000 }, Amount { units: 95_000_000 });
        assert(c.symbol_group_map@ == empty.insert("BTC"@, 0usize).insert(
            "BTC-PERP"@,
            0,
        ).insert("BTC-FUTURES"@, 0));
        let mut eth: Vec<String> = Vec::new();
        eth.push("ETH".to_string());
        eth.push("ETH-PERP".to_string());
        eth.push("ETH-FUTURES".to_string());
        assert(views(eth@) =~= seq!["ETH"@, "ETH-PERP"@, "ETH-FUTURES"@]);
        proof {
            reveal_with_fuel(mapped, 4);
            let v = views(eth@);
            assert(v.drop_last() =~= seq!["ETH"@, "ETH-PERP"@]);
            assert(v.drop_last().drop_last() =~= seq!["ETH"@]);
            assert(v.drop_last().drop_last().drop_last() =~= Seq::empty());
        }
        c.add_correlation_group(eth, Amount { units: 99_000_000 }, Amount { units: 95_000_000 });
        c
    }

    /// The margin of a portfolio, with and without offsets.
    pub fn calculate_portfolio_margin(&self, positions: &[PortfolioPosition]) -> (r:
        PortfolioMarginResult)
        requires
            self.wf(),
        ensures
            r.gross_notional.units == total_notional(positions@),
            r.gross_margin.units == full_margin(positions@),
            r.net_margin.units == self.net_margin(positions@),
            r.net_notional.units == self.net_notional(positions@),
            r.margin_savings.units == self.savings(positions@),
            r.savings_pct.units == (if full_margin(positions@) > 0 {
                share(100 * self.savings(positions@), full_margin(positions@))
            } else {
                0
            }),
    {
        let (gross_notional, gross_margin) = sum_positions(positions);
        let net_margin: i64 = self.calculate_net_margin_with_offsets(positions);
        let net_notional: i64 = self.calculate_net_notional(positions);
        let savings: i64 = saturate(gross_margin as i128 - net_margin as i128);
        let savings_pct: i64 = if gross_margin > 0 {
            share_of(100 * savings as i128, gross_margin as u128)
        } else {
            0
        };
        PortfolioMarginResult {
            gross_notional: Amount { units: gross_notional },
            net_notional: Amount { units: net_notional },
            gross_margin: Amount { units: gross_margin },
            net_margin: Amount { units: net_margin },
            margin_savings: Amount { units: savings },
            savings_pct: Amount { units: savings_pct },
        }
    }

    /// The margin with offsets: that of the groups, and that of positions
    /// without a group in full.
    pub open spec fn net_margin(&self, s: Seq<PortfolioPosition>) -> int {
        saturated(
            grouped_margin(
                s,
                self.symbol_group_map@,
                self.correlation_groups@,
                self.correlation_groups@.len() as int,
            ) + full_margin(ungrouped(s, self.symbol_group_map@)),
        )
    }

    /// What the offsets save.
    pub open spec fn savings(&self, s: Seq<PortfolioPosition>) -> int {
        saturated(full_margin(s) - self.net_margin(s))
    }

    /// The exposure: net within the groups, in full without a group.
    pub open spec fn net_notional(&self, s: Seq<PortfolioPosition>) -> int {
        saturated(
            grouped_notional(s, self.symbol_group_map@, self.correlation_groups@.len() as int)
                + total_notional(ungrouped(s, self.symbol_group_map@)),
        )
    }

    fn sum_side(&self, positions: &[PortfolioPosition], group: usize, side: PositionSide) -> (r: (
        i64,
        bool,
    ))
        requires
            self.wf(),
        ensures
            r.0 == side_notional(positions@, self.symbol_group_map@, group as int, side),
            r.1 == (side_count(positions@, self.symbol_group_map@, group as int, side) > 0),
    {
        let ghost s = positions@;
        let ghost m = self.symbol_group_map@;
        let mut sum: i64 = 0;
        let mut any: bool = false;
        let mut i: usize = 0;
        assert(s.take(0) =~= Seq::empty());
        while i < positions.len()
            invariant
                i <= s.len(),
                s == positions@,
                m == self.symbol_group_map@,
                self.wf(),
                sum == side_notional(s.take(i as int), m, group as int, side),
                any == (side_count(s.take(i as int), m, group as int, side) > 0),
            decreases s.len() - i,
        {
            assert(s.take(i + 1).drop_last() =~= s.take(i as int));
            assert(s.take(i + 1).last() == s[i as int]);
            let p: &PortfolioPosition = &positions[i];
            if let Some(g) = self.symbol_group_map.get(p.symbol.as_str()) {
                if *g == group && p.side == side {
                    sum = saturate(sum as i128 + notional_of(p) as i128);
                    any = true;
                }
            }
            i += 1;
        }
        assert(s.take(s.len() as int) =~= s);
        (sum, any)
    }

    fn sum_short_kind(&self, positions: &[PortfolioPosition], group: usize, kind: AssetType) -> (r:
        i64)
        requires
            self.wf(),
        ensures
            r == short_of_kind(positions@, self.symbol_group_map@, group as int, kind),
    {
        let ghost s = positions@;
        let ghost m = self.symbol_group_map@;
        let mut sum: i64 = 0;
        let mut i: usize = 0;
        assert(s.take(0) =~= Seq::empty());
        while i < positions.len()
            invariant
                i <= s.len(),
                s == positions@,
                m == self.symbol_group_map@,
                self.wf(),
                sum == short_of_kind(s.take(i as int), m, group as int, kind),
            decreases s.len() - i,
        {
            assert(s.take(i + 1).drop_last() =~= s.take(i as int));
            assert(s.take(i + 1).last() == s[i as int]);
            let p: &PortfolioPosition = &positions[i];
            if let Some(g) = self.symbol_group_map.get(p.symbol.as_str()) {
                if *g == group && p.side == PositionSide::Short && p.asset_type == kind {
                    sum = saturate(sum as i128 + notional_of(p) as i128);
                }
            }
            i += 1;
        }
        assert(s.take(s.len() as int) =~= s);
        sum
    }

    fn short_exposure_of(&self, positions: &[PortfolioPosition], group: usize) -> (r: i64)
        requires
            self.wf(),
        ensures
            r == short_exposure(positions@, self.symbol_group_map@, group as int),
    {
        let spot: i128 = size_of(self.sum_short_kind(positions, group, AssetType::Spot));
        let perpetual: i128 = size_of(self.sum_short_kind(positions, group, AssetType::Perpetual));
        let futures: i128 = size_of(self.sum_short_kind(positions, group, AssetType::Futures));
        let calls: i128 = size_of(self.sum_short_kind(positions, group, AssetType::OptionCall));
        let puts: i128 = size_of(self.sum_short_kind(positions, group, AssetType::OptionPut));
        saturate(spot + perpetual + futures + calls + puts)
    }

    fn sum_ungrouped(&self, positions: &[PortfolioPosition]) -> (r: (i64, i64))
        requires
            self.wf(),
        ensures
            r.0 == total_notional(ungrouped(positions@, self.symbol_group_map@)),
            r.1 == full_margin(ungrouped(positions@, self.symbol_group_map@)),
    {
        let ghost s = positions@;
        let ghost m = self.symbol_group_map@;
        let mut sums: (i64, i64) = (0, 0);
        let mut i: usize = 0;
        assert(s.take(0) =~= Seq::empty());
        while i < positions.len()
            invariant
                i <= s.len(),
                s == positions@,
                m == self.symbol_group_map@,
                self.wf(),
                sums.0 == total_notional(ungrouped(s.take(i as int), m)),
                sums.1 == full_margin(ungrouped(s.take(i as int), m)),
            decreases s.len() - i,
        {
            assert(s.take(i + 1).drop_last() =~= s.take(i as int));
            assert(s.take(i + 1).last() == s[i as int]);
            let p: &PortfolioPosition = &positions[i];
            if !self.symbol_group_map.contains_key(p.symbol.as_str()) {
                let ghost u = ungrouped(s.take(i + 1), m);
                assert(u.drop_last() =~= ungrouped(s.take(i as int), m));
                sums = add_position(p, sums.0, sums.1);
            }
            i += 1;
        }
        assert(s.take(s.len() as int) =~= s);
        sums
    }

    fn calculate_net_margin_with_offsets(&self, positions: &[PortfolioPosition]) -> (r: i64)
        requires
            self.wf(),
        ensures
            r == self.net_margin(positions@),
    {
        let ghost s = positions@;
        let ghost m = self.symbol_group_map@;
        let ghost c = self.correlation_groups@;
        let (_, loose_margin) = self.sum_ungrouped(positions);
        let mut margin: i64 = 0;
        let mut g: usize = 0;
        while g < self.correlation_groups.len()
            invariant
                g <= c.len(),
                s == positions@,
                m == self.symbol_group_map@,
                c == self.correlation_groups@,
                self.wf(),
                margin == grouped_margin(s, m, c, g as int),
            decreases c.len() - g,
        {
            let (long, _) = self.sum_side(positions, g, PositionSide::Long);
            let short: i64 = self.short_exposure_of(positions, g);
            let offset: i64 = self.correlation_groups[g].offset_pct.units;
            let matched: i128 = if long <= short { long as i128 } else { short as i128 };
            let most: i128 = if long <= short { short as i128 } else { long as i128 };
            let kept: i128 = 100_000_000 - offset as i128;
            assert(-0x8000_0000_0000_0000 * 1_000_000 * 100_000_000 <= matched * 1_000_000 * kept
                <= 0x8000_0000_0000_0000 * 1_000_000 * 100_000_000) by (nonlinear_arith)
                requires
                    -0x8000_0000_0000_0000 <= matched <= 0x8000_0000_0000_0000,
                    0 <= kept <= 100_000_000,
            ;
            let paired: i128 = divide_wide(matched * 1_000_000 * kept, 10_000_000_000_000_000);
            let open: i128 = divide_wide((most - matched) * 1_000_000, 100_000_000);
            margin = saturate(margin as i128 + (paired + open));
            g += 1;
        }
        saturate(margin as i128 + loose_margin as i128)
    }

    fn calculate_net_notional(&self, positions: &[PortfolioPosition]) -> (r: i64)
        requires
            self.wf(),
        ensures
            r == self.net_notional(positions@),
    {
        let ghost s = positions@;
        let ghost m = self.symbol_group_map@;
        let ghost c = self.correlation_groups@;
        let (loose_notional, _) = self.sum_ungrouped(positions);
        let mut net: i64 = 0;
        let mut g: usize = 0;
        while g < self.correlation_groups.len()
            invariant
                g <= c.len(),
                s == positions@,
                m == self.symbol_group_map@,
                c == self.correlation_groups@,
                self.wf(),
                net == grouped_notional(s, m, g as int),
            decreases c.len() - g,
        {
            let (long, _) = self.sum_side(positions, g, PositionSide::Long);
            let (short, _) = self.sum_side(positions, g, PositionSide::Short);
            let difference: i128 = long as i128 - short as i128;
            let exposure: i128 = if difference < 0 { -difference } else { difference };
            net = saturate(net as i128 + exposure);
            g += 1;
        }
        saturate(net as i128 + loose_notional as i128)
    }

    /// Whether `h` tells of the hedge in a group.
    pub open spec fn is_hedge(&self, s: Seq<PortfolioPosition>, group: int, h: HedgeInfo) -> bool {
        let long = side_notional(s, self.symbol_group_map@, group, PositionSide::Long);
        let short = side_notional(s, self.symbol_group_map@, group, PositionSide::Short);
        let ratio = hedge_ratio(long, short);
        &&& h.group_index == group
        &&& views(h.assets@) == views(self.correlation_groups@[group].assets@)
        &&& h.long_notional.units == long
        &&& h.short_notional.units == short
        &&& h.hedge_ratio.units == ratio
        &&& h.offset_benefit.units == saturated(
            100 * product(ratio, self.correlation_groups@[group].offset_pct.units as int),
        )
    }

    /// Whether a group has positions on both sides.
    pub open spec fn hedged(&self, s: Seq<PortfolioPosition>, group: int) -> bool {
        side_count(s, self.symbol_group_map@, group, PositionSide::Long) > 0 && side_count(
            s,
            self.symbol_group_map@,
            group,
            PositionSide::Short,
        ) > 0
    }

    /// The first `n` groups with positions on both sides.
    pub open spec fn hedged_groups(&self, s: Seq<PortfolioPosition>, n: int) -> Seq<int>
        decreases n,
    {
        if n <= 0 {
            Seq::empty()
        } else if self.hedged(s, n - 1) {
            self.hedged_groups(s, n - 1).push(n - 1)
        } else {
            self.hedged_groups(s, n - 1)
        }
    }

    /// The hedges of a portfolio: one for each group with positions on both
    /// sides.
    pub fn identify_hedges(&self, positions: &[PortfolioPosition]) -> (r: Vec<HedgeInfo>)
        requires
            self.wf(),
        ensures
            ({
                let groups = self.hedged_groups(
                    positions@,
                    self.correlation_groups@.len() as int,
                );
                &&& r@.len() == groups.len()
                &&& forall|i: int|
                    0 <= i < r@.len() ==> self.is_hedge(positions@, groups[i], #[trigger] r@[i])
            }),
    {
        let ghost s = positions@;
        let mut hedges: Vec<HedgeInfo> = Vec::new();
        let mut g: usize = 0;
        while g < self.correlation_groups.len()
            invariant
                g <= self.correlation_groups@.len(),
                s == positions@,
                self.wf(),
                hedges@.len() == self.hedged_groups(s, g as int).len(),
                forall|i: int|
                    0 <= i < hedges@.len() ==> self.is_hedge(
                        s,
                        self.hedged_groups(s, g as int)[i],
                        #[trigger] hedges@[i],
                    ),
            decreases self.correlation_groups@.len() - g,
        {
            let (long, any_long) = self.sum_side(positions, g, PositionSide::Long);
            let (short, any_short) = self.sum_side(positions, g, PositionSide::Short);
            let ghost before = hedges@;
            if any_long && any_short {
                let least: i64 = if long <= short { long } else { short };
                let most: i64 = if long <= short { short } else { long };
                let ratio: i64 = if most > 0 {
                    share_of(least as i128, most as u128)
                } else {
                    saturate(least as i128 * 10_000_000_000)
                };
                let waived: i64 = product_of(ratio, self.correlation_groups[g].offset_pct.units);
                let hedge = HedgeInfo {
                    group_index: g,
                    assets: copied(&self.correlation_groups[g].assets),
                    long_notional: Amount { units: long },
                    short_notional: Amount { units: short },
                    hedge_ratio: Amount { units: ratio },
                    offset_benefit: Amount { units: saturate(100 * waived as i128) },
                };
                assert(self.is_hedge(s, g as int, hedge));
                hedges.push(hedge);
            }
            proof {
                let now = self.hedged_groups(s, g + 1);
                assert forall|i: int| 0 <= i < hedges@.len() implies self.is_hedge(
                    s,
                    now[i],
                    #[trigger] hedges@[i],
                ) by {
                    if i < before.len() {
                        assert(hedges@[i] == before[i]);
                        assert(now[i] == self.hedged_groups(s, g as int)[i]);
                    }
                }
            }
            g += 1;
        }
        hedges
    }

    /// Adds a group; its symbols belong to it from now on. Correlation and
    /// offset are held between zero and one.
    pub fn add_correlation_group(
        &mut self,
        assets: Vec<String>,
        correlation: Amount,
        offset_pct: Amount,
    )
        requires
            old(self).wf(),
        ensures
            final(self).wf(),
            final(self).correlation_groups@ == old(self).correlation_groups@.push(
                CorrelationGroup {
                    assets,
                    correlation: Amount {
                        units: between(correlation.units as int, 0, 100_000_000) as i64,
                    },
                    offset_pct: Amount {
                        units: between(offset_pct.units as int, 0, 100_000_000) as i64,
                    },
                },
            ),
            final(self).symbol_group_map@ == mapped(
                old(self).symbol_group_map@,
                views(assets@),
                old(self).correlation_groups@.len() as usize,
            ),
            final(self).cross_margin_discount == old(self).cross_margin_discount,
    {
        let group: usize = self.correlation_groups.len();
        let ghost names = views(assets@);
        let ghost start = self.symbol_group_map@;
        let ghost groups = self.correlation_groups@;
        let mut i: usize = 0;
        assert(names.take(0) =~= Seq::empty());
        while i < assets.len()
            invariant
                i <= assets@.len(),
                names == views(assets@),
                self.symbol_group_map.wf(),
                self.symbol_group_map@ == mapped(start, names.take(i as int), group),
                self.correlation_groups@ == groups,
                self.cross_margin_discount == old(self).cross_margin_discount,
                group == groups.len(),
                forall|k: Seq<char>| #[trigger]
                    self.symbol_group_map@.contains_key(k) ==> self.symbol_group_map@[k] <= group,
            decreases assets@.len() - i,
        {
            assert(names.take(i + 1).drop_last() =~= names.take(i as int));
            let _ = self.symbol_group_map.insert(assets[i].as_str().to_string(), group);
            i += 1;
        }
        assert(names.take(names.len() as int) =~= names);
        self.correlation_groups.push(
            CorrelationGroup {
                assets,
                correlation: Amount { units: hold_between(correlation.units, 0, 100_000_000) },
                offset_pct: Amount { units: hold_between(offset_pct.units, 0, 100_000_000) },
            },
        );
    }

    /// Sets the discount of cross margin, between zero and one.
    pub fn set_cross_margin_discount(&mut self, discount: Amount)
        ensures
            final(self).cross_margin_discount.units == between(
                discount.units as int,
                0,
                100_000_000,
            ),
            final(self).correlation_groups == old(self).correlation_groups,
            final(self).symbol_group_map == old(self).symbol_group_map,
    {
        self.cross_margin_discount =
        Amount { units: hold_between(discount.units, 0, 100_000_000) };
    }
}

/// A map with names mapped to a group, in turn.
pub open spec fn mapped(m: Map<Seq<char>, usize>, names: Seq<Seq<char>>, group: usize) -> Map<
    Seq<char>,
    usize,
>
    decreases names.len(),
{
    if names.len() == 0 {
        m
    } else {
        mapped(m, names.drop_last(), group).insert(names.last(), group)
    }
}

fn sum_positions(positions: &[PortfolioPosition]) -> (r: (i64, i64))
    ensures
        r.0 == total_notional(positions@),
        r.1 == full_margin(positions@),
{
    let ghost s = positions@;
    let mut sums: (i64, i64) = (0, 0);
    let mut i: usize = 0;
    assert(s.take(0) =~= Seq::empty());
    while i < positions.len()
        invariant
            i <= s.len(),
            s == positions@,
            sums.0 == total_notional(s.take(i as int)),
            sums.1 == full_margin(s.take(i as int)),
        decreases s.len() - i,
    {
        assert(s.take(i + 1).drop_last() =~= s.take(i as int));
        assert(s.take(i + 1).last() == s[i as int]);
        sums = add_position(&positions[i], sums.0, sums.1);
        i += 1;
    }
    assert(s.take(s.len() as int) =~= s);
    sums
}

impl Default for PortfolioMarginCalculator {
    fn default() -> (c: Self)
        ensures
            c.wf(),
            c.usual(),
    {
        PortfolioMarginCalculator::new()
    }
}

/// An offset only ever lowers the margin of a group.
pub proof fn law_offset_lowers_margin(long: int, short: int, offset: int)
    requires
        0 <= long,
        0 <= short,
        0 <= offset <= 100_000_000,
    ensures
        0 <= group_margin(long, short, offset) <= group_margin(long, short, 0),
{
    let m = smaller(long, short);
    let k = 100_000_000 - offset;
    assert(0 <= m * 1_000_000 * k <= m * 1_000_000 * 100_000_000) by (nonlinear_arith)
        requires
            m >= 0,
            0 <= k <= 100_000_000,
    ;
}

} // verus!
