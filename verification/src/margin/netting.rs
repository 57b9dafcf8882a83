//! What the margin of a portfolio counts and what hedges take off it.

use vstd::prelude::*;
use crate::base::numbers::{product, ratio, truncated_div};
use crate::base::rounding::{law_division_cuts_off, law_product, law_ratio};
use crate::base::sequences::lemma_push_holds;
use crate::base::text::views;
use crate::margin::portfolio_margin::{
    full_margin, group_margin, group_of, grouped_margin, grouped_notional, hedge_ratio, mapped,
    short_exposure, short_of_kind, side_count, side_notional, total_notional, ungrouped, AssetType,
    CorrelationGroup, HedgeInfo, PortfolioMarginCalculator, PortfolioPosition, PositionSide,
};

verus! {

/// Spot needs its whole value, perpetuals and futures a hundredth and options
/// fifteen hundredths.
pub proof fn law_margin_rates()
    ensures
        AssetType::Spot.rate() == 100_000_000,
        AssetType::Perpetual.rate() == 1_000_000,
        AssetType::Futures.rate() == 1_000_000,
        AssetType::OptionCall.rate() == 15_000_000,
        AssetType::OptionPut.rate() == 15_000_000,
{
}

/// The value of a position is its size times its price, and its exposure that
/// without its sign.
pub proof fn law_notional(p: PortfolioPosition)
    requires
        p.size.units * p.price.units <= 0x7fff_ffff_ffff_ffff * 100_000_000,
        p.size.units * p.price.units >= -0x7fff_ffff_ffff_ffff * 100_000_000,
    ensures
        p.size.units * p.price.units >= 0 ==> p.notional() * 100_000_000 <= p.size.units
            * p.price.units < (p.notional() + 1) * 100_000_000 && p.exposure() == p.notional(),
        p.size.units * p.price.units <= 0 ==> p.exposure() == -p.notional(),
{
    law_product(p.size.units as int, p.price.units as int);
}

/// The notional of a portfolio counts each exposure once, and its margin each at
/// the rate of its kind.
pub proof fn law_portfolio_adds_up(s: Seq<PortfolioPosition>, p: PortfolioPosition)
    requires
        0 <= total_notional(s) + p.exposure() <= 0x7fff_ffff_ffff_ffff,
        0 <= full_margin(s) <= 0x3fff_ffff_ffff_ffff,
        p.exposure() * p.asset_type.rate() <= 0x3fff_ffff_ffff_ffff * 100_000_000,
    ensures
        total_notional(Seq::empty()) == 0,
        full_margin(Seq::empty()) == 0,
        total_notional(s.push(p)) == total_notional(s) + p.exposure(),
        ({
            let more = full_margin(s.push(p)) - full_margin(s);
            more * 100_000_000 <= p.exposure() * p.asset_type.rate() < (more + 1) * 100_000_000
        }),
{
    assert(s.push(p).drop_last() =~= s);
    let x = p.exposure() * p.asset_type.rate();
    assert(x >= 0) by (nonlinear_arith)
        requires
            x == p.exposure() * p.asset_type.rate(),
            p.exposure() >= 0,
            p.asset_type.rate() >= 0,
    ;
    law_division_cuts_off(x, 100_000_000);
}

/// A side of a group counts the positions on that side of its symbols, and no
/// others; what is in no group is left over.
pub proof fn law_sides_of_group(
    s: Seq<PortfolioPosition>,
    p: PortfolioPosition,
    groups: Map<Seq<char>, usize>,
    group: int,
    side: PositionSide,
)
    requires
        -0x8000_0000_0000_0000 <= side_notional(s, groups, group, side) + p.notional()
            <= 0x7fff_ffff_ffff_ffff,
    ensures
        groups.contains_key(p.symbol@) && groups[p.symbol@] == group && p.side == side
            ==> side_notional(s.push(p), groups, group, side) == side_notional(
            s,
            groups,
            group,
            side,
        ) + p.notional() && side_count(s.push(p), groups, group, side) == side_count(
            s,
            groups,
            group,
            side,
        ) + 1,
        !groups.contains_key(p.symbol@) || groups[p.symbol@] != group || p.side != side
            ==> side_notional(s.push(p), groups, group, side) == side_notional(
            s,
            groups,
            group,
            side,
        ) && side_count(s.push(p), groups, group, side) == side_count(s, groups, group, side),
        groups.contains_key(p.symbol@) ==> ungrouped(s.push(p), groups) == ungrouped(s, groups),
        !groups.contains_key(p.symbol@) ==> ungrouped(s.push(p), groups) == ungrouped(
            s,
            groups,
        ).push(p),
        side_count(Seq::empty(), groups, group, side) == 0,
        side_notional(Seq::empty(), groups, group, side) == 0,
{
    assert(s.push(p).drop_last() =~= s);
}

/// What is short of a kind counts the short positions of that kind in the group.
pub proof fn law_short_of_kind(
    s: Seq<PortfolioPosition>,
    p: PortfolioPosition,
    groups: Map<Seq<char>, usize>,
    group: int,
    kind: AssetType,
)
    requires
        -0x8000_0000_0000_0000 <= short_of_kind(s, groups, group, kind) + p.notional()
            <= 0x7fff_ffff_ffff_ffff,
    ensures
        group_of(groups, p.symbol@) == Some(group) && p.side == PositionSide::Short && p.asset_type
            == kind ==> short_of_kind(s.push(p), groups, group, kind) == short_of_kind(
            s,
            groups,
            group,
            kind,
        ) + p.notional(),
        group_of(groups, p.symbol@) != Some(group) || p.side == PositionSide::Long || p.asset_type
            != kind ==> short_of_kind(s.push(p), groups, group, kind) == short_of_kind(
            s,
            groups,
            group,
            kind,
        ),
{
    assert(s.push(p).drop_last() =~= s);
}

/// The margin of a group is a hundredth: of the larger side without an offset,
/// and of the difference of the sides with a full one. It does not matter which
/// side is which.
pub proof fn law_group_margin(long: int, short: int, offset: int)
    requires
        0 <= long,
        0 <= short,
    ensures
        group_margin(long, short, offset) == group_margin(short, long, offset),
        long >= short ==> 100 * group_margin(long, short, 100_000_000) <= long - short < 100
            * group_margin(long, short, 100_000_000) + 100,
        long >= short ==> long - 200 < 100 * group_margin(long, short, 0) <= long,
        100 * group_margin(long, 0, offset) <= long < 100 * group_margin(long, 0, offset) + 100,
{
    let m = if long <= short {
        long
    } else {
        short
    };
    let d = long + short - 2 * m;
    assert(m * 1_000_000 * (100_000_000 - 100_000_000) == 0) by (nonlinear_arith);
    law_division_cuts_off(0, 10_000_000_000_000_000);
    law_division_cuts_off(d * 1_000_000, 100_000_000);
    assert(m * 1_000_000 * (100_000_000 - 0) == m * 100_000_000_000_000);
    law_division_cuts_off(m * 100_000_000_000_000, 10_000_000_000_000_000);
    law_division_cuts_off(long * 1_000_000, 100_000_000);
    assert(0 * 1_000_000 * (100_000_000 - offset) == 0) by (nonlinear_arith);
}

/// The hedge ratio is the smaller side as part of the larger one: all of it
/// where they are equal, nothing where one is missing.
pub proof fn law_hedge_ratio(long: int, short: int)
    requires
        0 <= long <= short,
        short > 0,
    ensures
        hedge_ratio(long, short) == hedge_ratio(short, long),
        hedge_ratio(long, short) * short <= long * 100_000_000 < hedge_ratio(long, short) * short
            + short,
        0 <= hedge_ratio(long, short) <= 100_000_000,
        hedge_ratio(short, short) == 100_000_000,
        hedge_ratio(0, short) == 0,
{
    assert(-0x8000_0000_0000_0000 * short <= long * 100_000_000 && short * 100_000_000
        <= 0x7fff_ffff_ffff_ffff * short && long * 100_000_000 <= 0x7fff_ffff_ffff_ffff * short
        && -0x8000_0000_0000_0000 * short <= 0) by (nonlinear_arith)
        requires
            0 <= long <= short,
            short > 0,
    ;
    law_ratio(long, short);
    law_ratio(short, short);
    law_ratio(0, short);
    let r = ratio(long, short);
    let o = ratio(short, short);
    assert(r <= 100_000_000 && o == 100_000_000) by (nonlinear_arith)
        requires
            r * short <= long * 100_000_000,
            long <= short,
            short > 0,
            o * short <= short * 100_000_000 < o * short + short,
    ;
    let z = ratio(0, short);
    assert(z == 0) by (nonlinear_arith)
        requires
            z * short <= 0,
            z >= 0,
            short > 0,
    ;
}

/// What is saved and what is still needed make up the full margin.
pub proof fn law_savings_make_up_margin(c: PortfolioMarginCalculator, s: Seq<PortfolioPosition>)
    requires
        -0x8000_0000_0000_0000 <= full_margin(s) - c.net_margin(s) <= 0x7fff_ffff_ffff_ffff,
    ensures
        c.savings(s) + c.net_margin(s) == full_margin(s),
{
}

/// A group is hedged exactly where it has positions on both sides; its hedge
/// tells their notionals and the part of the smaller.
pub proof fn law_hedge_tells_both_sides(
    c: PortfolioMarginCalculator,
    s: Seq<PortfolioPosition>,
    group: int,
    h: HedgeInfo,
)
    requires
        c.is_hedge(s, group, h),
    ensures
        h.group_index == group,
        h.long_notional.units == side_notional(s, c.symbol_group_map@, group, PositionSide::Long),
        h.short_notional.units == side_notional(s, c.symbol_group_map@, group, PositionSide::Short),
        h.hedge_ratio.units == hedge_ratio(
            h.long_notional.units as int,
            h.short_notional.units as int,
        ),
        c.hedged(s, group) <==> side_count(s, c.symbol_group_map@, group, PositionSide::Long) > 0
            && side_count(s, c.symbol_group_map@, group, PositionSide::Short) > 0,
{
}

/// The symbols of a new group belong to it, and all others where they were.
pub proof fn law_symbols_belong_to_group(
    m: Map<Seq<char>, usize>,
    names: Seq<Seq<char>>,
    group: usize,
    name: Seq<char>,
)
    ensures
        names.contains(name) ==> mapped(m, names, group).contains_key(name) && mapped(
            m,
            names,
            group,
        )[name] == group,
        !names.contains(name) ==> (mapped(m, names, group).contains_key(name) <==> m.contains_key(
            name,
        )),
        !names.contains(name) && m.contains_key(name) ==> mapped(m, names, group)[name] == m[name],
    decreases names.len(),
{
    if names.len() > 0 {
        let d = names.drop_last();
        law_symbols_belong_to_group(m, d, group, name);
        assert(d.push(names.last()) =~= names);
        crate::base::sequences::lemma_push_holds(d, names.last(), name);
    }
}

/// Within a group the long and the short side are set off against each other:
/// what is left is their difference, whichever is the larger.
pub proof fn law_group_is_netted(
    s: Seq<PortfolioPosition>,
    groups: Map<Seq<char>, usize>,
    n: int,
)
    requires
        n >= 0,
        ({
            let more = side_notional(s, groups, n, PositionSide::Long) - side_notional(
                s,
                groups,
                n,
                PositionSide::Short,
            );
            -0x8000_0000_0000_0000 <= grouped_notional(s, groups, n) + more
                <= 0x7fff_ffff_ffff_ffff && -0x8000_0000_0000_0000 <= grouped_notional(
                s,
                groups,
                n,
            ) - more <= 0x7fff_ffff_ffff_ffff
        }),
    ensures
        grouped_notional(s, groups, 0) == 0,
        ({
            let long = side_notional(s, groups, n, PositionSide::Long);
            let short = side_notional(s, groups, n, PositionSide::Short);
            let more = grouped_notional(s, groups, n + 1) - grouped_notional(s, groups, n);
            &&& long >= short ==> more == long - short
            &&& short >= long ==> more == short - long
        }),
{
}

/// Each group needs the margin of its two sides at its own offset, beside what
/// the groups before it need.
pub proof fn law_group_needs_margin(
    s: Seq<PortfolioPosition>,
    groups: Map<Seq<char>, usize>,
    c: Seq<CorrelationGroup>,
    n: int,
)
    requires
        0 <= n < c.len(),
        0 <= grouped_margin(s, groups, c, n) + group_margin(
            side_notional(s, groups, n, PositionSide::Long),
            short_exposure(s, groups, n),
            c[n].offset_pct.units as int,
        ) <= 0x7fff_ffff_ffff_ffff,
    ensures
        grouped_margin(s, groups, c, 0) == 0,
        grouped_margin(s, groups, c, n + 1) - grouped_margin(s, groups, c, n) == group_margin(
            side_notional(s, groups, n, PositionSide::Long),
            short_exposure(s, groups, n),
            c[n].offset_pct.units as int,
        ),
{
}

/// The short exposure of a group is what its shorts of every kind are worth
/// together.
pub proof fn law_short_exposure(
    s: Seq<PortfolioPosition>,
    groups: Map<Seq<char>, usize>,
    group: int,
)
    requires
        forall|k: AssetType| #[trigger]
            short_of_kind(s, groups, group, k) >= 0 && short_of_kind(s, groups, group, k)
                <= 0x1000_0000_0000_0000,
    ensures
        short_exposure(s, groups, group) == short_of_kind(s, groups, group, AssetType::Spot)
            + short_of_kind(s, groups, group, AssetType::Perpetual) + short_of_kind(
            s,
            groups,
            group,
            AssetType::Futures,
        ) + short_of_kind(s, groups, group, AssetType::OptionCall) + short_of_kind(
            s,
            groups,
            group,
            AssetType::OptionPut,
        ),
{
}

/// What a portfolio needs, and what it is worth net, is what its groups come to
/// and what stands outside them in full.
pub proof fn law_groups_and_rest(c: PortfolioMarginCalculator, s: Seq<PortfolioPosition>)
    requires
        ({
            let n = c.correlation_groups@.len() as int;
            let groups = c.symbol_group_map@;
            &&& -0x8000_0000_0000_0000 <= grouped_margin(s, groups, c.correlation_groups@, n)
                + full_margin(ungrouped(s, groups)) <= 0x7fff_ffff_ffff_ffff
            &&& -0x8000_0000_0000_0000 <= grouped_notional(s, groups, n) + total_notional(
                ungrouped(s, groups),
            ) <= 0x7fff_ffff_ffff_ffff
        }),
    ensures
        ({
            let n = c.correlation_groups@.len() as int;
            let groups = c.symbol_group_map@;
            &&& c.net_margin(s) - full_margin(ungrouped(s, groups)) == grouped_margin(
                s,
                groups,
                c.correlation_groups@,
                n,
            )
            &&& c.net_notional(s) - total_notional(ungrouped(s, groups)) == grouped_notional(
                s,
                groups,
                n,
            )
        }),
{
}

/// The hedged groups are those with positions on both sides, each once and in
/// order.
pub proof fn law_hedged_groups(
    c: PortfolioMarginCalculator,
    s: Seq<PortfolioPosition>,
    n: int,
    group: int,
)
    ensures
        c.hedged_groups(s, n).contains(group) <==> 0 <= group < n && c.hedged(s, group),
        forall|i: int, j: int|
            0 <= i < j < c.hedged_groups(s, n).len() ==> #[trigger] c.hedged_groups(s, n)[i]
                < #[trigger] c.hedged_groups(s, n)[j],
    decreases n,
{
    if n > 0 {
        law_hedged_groups(c, s, n - 1, group);
        let before = c.hedged_groups(s, n - 1);
        assert forall|i: int| 0 <= i < before.len() implies #[trigger] before[i] < n - 1 by {
            law_hedged_groups(c, s, n - 1, before[i]);
            assert(before.contains(before[i]));
        }
        if c.hedged(s, n - 1) {
            lemma_push_holds(before, n - 1, group);
        }
    }
}

/// A full hedge brings the whole offset of its group, and none brings nothing;
/// both are told in percent.
pub proof fn law_hedge_benefit(
    c: PortfolioMarginCalculator,
    s: Seq<PortfolioPosition>,
    group: int,
    h: HedgeInfo,
)
    requires
        c.is_hedge(s, group, h),
        0 <= c.correlation_groups@[group].offset_pct.units <= 100_000_000,
    ensures
        h.hedge_ratio.units == 100_000_000 ==> h.offset_benefit.units == 100
            * c.correlation_groups@[group].offset_pct.units,
        h.hedge_ratio.units == 0 ==> h.offset_benefit.units == 0,
{
    let o = c.correlation_groups@[group].offset_pct.units as int;
    law_product(o, 100_000_000);
    law_product(0, o);
}

/// Coins, their perpetuals and their futures are set off against each other by
/// ninety-five hundredths in the usual groups, bitcoin apart from ether.
pub proof fn law_usual_groups(c: PortfolioMarginCalculator, i: int)
    requires
        c.usual(),
        0 <= i < 2,
    ensures
        c.correlation_groups@.len() == 2,
        c.correlation_groups@[i].correlation.units == 99 * 1_000_000,
        c.correlation_groups@[i].offset_pct.units == 95 * 1_000_000,
        2 * c.cross_margin_discount.units == 100_000_000,
        views(c.correlation_groups@[0].assets@) == seq!["BTC"@, "BTC-PERP"@, "BTC-FUTURES"@],
        views(c.correlation_groups@[1].assets@) == seq!["ETH"@, "ETH-PERP"@, "ETH-FUTURES"@],
{
}

/// Where neither side is worth anything, the ratio is the lesser value at a
/// hundred times its weight, and none where both are nothing.
pub proof fn law_hedge_without_value(long: int, short: int)
    requires
        -0x1000_0000 <= long <= short <= 0,
    ensures
        hedge_ratio(long, short) == 100 * (100_000_000 * long),
        hedge_ratio(0, 0) == 0,
{
}

} // verus!
