//! Prices at which positions are liquidated, and what that costs the insurance
//! fund. Prices, quantities and rates are decimal numbers with eight places.

use vstd::prelude::*;
use vstd::utf8::encode_utf8;
use crate::base::amount::{magnitude, Amount, UNITS_PER_ONE};
use crate::base::numbers::{
    between, divide_wide, hold_between, larger, product, product_of, quotient, ratio,
    ratio_of, saturate, saturated, smaller, truncated_div,
};
use crate::base::table::Table;
use crate::base::wide::{divide_products, product_exceeds};

verus! {

/// Side of a position.
#[derive(Debug, Clone, Copy, PartialEq, Eq, Structural)]
pub enum PositionSide {
    Long,
    Short,
}

/// A position and its rates.
#[derive(Debug, Clone, Copy, PartialEq, Eq, Structural)]
pub struct LiquidationParams {
    pub entry_price: Amount,
    pub position_size: Amount,
    pub leverage: Amount,
    pub margin_balance: Amount,
    pub maintenance_margin_rate: Amount,
    pub taker_fee_rate: Amount,
    pub funding_rate: Amount,
}

impl LiquidationParams {
    /// The maintenance margin and the fee, as part of the position's value.
    pub open spec fn reserve(self) -> int {
        self.maintenance_margin_rate.units + self.taker_fee_rate.units
    }

    /// The position's value at entry, in squares of amount units.
    pub open spec fn entry_square(self) -> int {
        self.position_size.units * self.entry_price.units
    }

    /// The position is not empty and was entered at a price.
    pub open spec fn sound(self) -> bool {
        &&& self.position_size.units != 0
        &&& self.entry_price.units != 0
    }

    /// By how much the equity above what has to be kept changes with the price:
    /// the size, less the reserve on it for a long position, and with the
    /// reserve on it for a short one.
    pub open spec fn divisor(self, side: PositionSide) -> int {
        match side {
            PositionSide::Long => self.position_size.units * (100_000_000 - self.reserve()),
            PositionSide::Short => self.position_size.units * (100_000_000 + self.reserve()),
        }
    }

    /// The price at which the equity is what has to be kept: the maintenance
    /// margin and the fee. A long position has no negative one; where the rates
    /// take up nearly the whole value, it is the entry price.
    pub open spec fn liquidation_price(self, side: PositionSide) -> int {
        let m = self.margin_balance.units * 100_000_000;
        let d = self.divisor(side);
        if magnitude(d) <= 1_000_000 {
            self.entry_price.units as int
        } else {
            match side {
                PositionSide::Long => larger(
                    saturated(quotient((self.entry_square() - m) * 100_000_000, d)),
                    0,
                ),
                PositionSide::Short => saturated(
                    quotient((self.entry_square() + m) * 100_000_000, d),
                ),
            }
        }
    }

    /// The price at which the equity is zero.
    pub open spec fn bankruptcy_price(self, side: PositionSide) -> int {
        let per_unit = quotient(
            self.margin_balance.units * 100_000_000,
            self.position_size.units as int,
        );
        match side {
            PositionSide::Long => saturated(self.entry_price.units - per_unit),
            PositionSide::Short => saturated(self.entry_price.units + per_unit),
        }
    }

    /// How far a liquidation price lies from the entry price, as part of it;
    /// everything where there is no positive price.
    pub open spec fn expected_loss(self, side: PositionSide, price: int) -> int {
        if price <= 0 {
            UNITS_PER_ONE as int
        } else {
            match side {
                PositionSide::Long => ratio(
                    self.entry_price.units - price,
                    self.entry_price.units as int,
                ),
                PositionSide::Short => ratio(
                    price - self.entry_price.units,
                    self.entry_price.units as int,
                ),
            }
        }
    }

    /// The position's value over the margin; without a margin, the end of the
    /// range on the side of the value.
    pub open spec fn effective_leverage(self) -> int {
        if self.margin_balance.units != 0 {
            saturated(quotient(self.entry_square(), self.margin_balance.units as int))
        } else if self.entry_square() > 0 {
            i64::MAX as int
        } else {
            i64::MIN as int
        }
    }
}

/// With a margin that covers maintenance and fee at entry, a long position is
/// liquidated no higher than it was entered, and at most one unit below the
/// price at which it is bankrupt.
pub proof fn law_long_liquidated_before_bankrupt(p: LiquidationParams)
    requires
        p.position_size.units > 0,
        p.entry_price.units > 0,
        0 <= p.reserve() < UNITS_PER_ONE,
        p.position_size.units * (100_000_000 - p.reserve()) > 1_000_000,
        0 <= p.margin_balance.units * 100_000_000 <= p.entry_square(),
        p.margin_balance.units * 10_000_000_000_000_000 >= p.entry_square() * p.reserve(),
    ensures
        p.liquidation_price(PositionSide::Long) <= p.entry_price.units,
        p.bankruptcy_price(PositionSide::Long) <= p.liquidation_price(PositionSide::Long) + 1,
{
    let s = p.position_size.units as int;
    let e = p.entry_price.units as int;
    let m = p.margin_balance.units * 100_000_000;
    let r = p.reserve();
    let d = s * (100_000_000 - r);
    let a = s * e - m;
    let l = (a * 100_000_000) / d;
    let q = m / s;
    assert(a * 100_000_000 <= e * d) by (nonlinear_arith)
        requires
            a == s * e - m,
            d == s * (100_000_000 - r),
            m * 100_000_000 >= (s * e) * r,
    ;
    assert(l <= e) by (nonlinear_arith)
        requires
            l == (a * 100_000_000) / d,
            a * 100_000_000 <= e * d,
            d > 0,
    ;
    assert(l >= 0) by (nonlinear_arith)
        requires
            l == (a * 100_000_000) / d,
            a >= 0,
            d > 0,
    ;
    vstd::arithmetic::div_mod::lemma_fundamental_div_mod(m, s);
    let t = m % s;
    assert(a == s * (e - q) - t) by (nonlinear_arith)
        requires
            a == s * e - m,
            m == s * q + t,
    ;
    assert(a * 100_000_000 >= (e - q - 1) * d || e - q - 1 < 0) by (nonlinear_arith)
        requires
            a == s * (e - q) - t,
            0 <= t < s,
            d == s * (100_000_000 - r),
            0 <= r < 100_000_000,
            s > 0,
    ;
    if e - q - 1 >= 0 {
        let k = e - q - 1;
        assert(l >= k) by (nonlinear_arith)
            requires
                l == (a * 100_000_000) / d,
                a * 100_000_000 >= k * d,
                d > 0,
        ;
    }
    assert(q >= 0) by (nonlinear_arith)
        requires
            q == m / s,
            m >= 0,
            s > 0,
    ;
}

/// With a margin that covers maintenance and fee at entry, a short position is
/// liquidated no lower than it was entered, and no higher than the price at
/// which it is bankrupt.
pub proof fn law_short_liquidated_before_bankrupt(p: LiquidationParams)
    requires
        p.position_size.units > 0,
        p.entry_price.units > 0,
        0 <= p.reserve(),
        p.position_size.units * (100_000_000 + p.reserve()) > 1_000_000,
        0 <= p.margin_balance.units,
        p.margin_balance.units * 10_000_000_000_000_000 >= p.entry_square() * p.reserve(),
    ensures
        p.entry_price.units <= p.liquidation_price(PositionSide::Short),
        p.liquidation_price(PositionSide::Short) <= p.bankruptcy_price(PositionSide::Short),
{
    let s = p.position_size.units as int;
    let e = p.entry_price.units as int;
    let m = p.margin_balance.units * 100_000_000;
    let r = p.reserve();
    let d = s * (100_000_000 + r);
    let a = s * e + m;
    let l = (a * 100_000_000) / d;
    let q = m / s;
    assert(a > 0) by (nonlinear_arith)
        requires
            a == s * e + m,
            s > 0,
            e > 0,
            m >= 0,
    ;
    assert(a * 100_000_000 >= e * d) by (nonlinear_arith)
        requires
            a == s * e + m,
            d == s * (100_000_000 + r),
            m * 100_000_000 >= (s * e) * r,
    ;
    assert(l >= e) by (nonlinear_arith)
        requires
            l == (a * 100_000_000) / d,
            a * 100_000_000 >= e * d,
            d > 0,
    ;
    vstd::arithmetic::div_mod::lemma_fundamental_div_mod(m, s);
    let t = m % s;
    let k = e + q + 1;
    assert(a * 100_000_000 < k * d) by (nonlinear_arith)
        requires
            a == s * e + m,
            m == s * q + t,
            0 <= t < s,
            k == e + q + 1,
            d == s * (100_000_000 + r),
            r >= 0,
            q >= 0,
            e > 0,
    ;
    assert(l < k) by (nonlinear_arith)
        requires
            l == (a * 100_000_000) / d,
            a * 100_000_000 < k * d,
            d > 0,
    ;
}

/// What liquidation means for a position.
#[derive(Debug, Clone, Copy, PartialEq, Eq, Structural)]
pub struct LiquidationResult {
    pub liquidation_price: Amount,
    pub bankruptcy_price: Amount,
    pub liquidation_margin: Amount,
    pub expected_loss_pct: Amount,
    pub adl_tier: u32,
}

impl LiquidationResult {
    /// Whether a price is at or beyond that of liquidation.
    pub open spec fn reached(&self, price: Amount, side: PositionSide) -> bool {
        match side {
            PositionSide::Long => price.units <= self.liquidation_price.units,
            PositionSide::Short => price.units >= self.liquidation_price.units,
        }
    }

    /// Whether a position is liquidated at a price.
    pub fn is_liquidated(&self, current_price: Amount, side: PositionSide) -> (r: bool)
        ensures
            r == self.reached(current_price, side),
    {
        match side {
            PositionSide::Long => current_price.units <= self.liquidation_price.units,
            PositionSide::Short => current_price.units >= self.liquidation_price.units,
        }
    }
}

/// Tiers of automatic deleveraging.
#[derive(Debug, Clone)]
pub struct ADLConfig {
    pub tiers: u32,
    pub leverage_thresholds: Vec<Amount>,
    pub use_profitability_priority: bool,
}

/// Whether `s` are the given numbers of whole ones.
pub open spec fn whole_amounts(s: Seq<Amount>, n: Seq<int>) -> bool {
    s.len() == n.len() && forall|i: int|
        0 <= i < s.len() ==> (#[trigger] s[i]).units == n[i] * UNITS_PER_ONE
}

impl ADLConfig {
    /// Five tiers, with rising thresholds.
    pub open spec fn usual(self) -> bool {
        &&& self.tiers == 5
        &&& whole_amounts(self.leverage_thresholds@, seq![10int, 25, 50, 75, 100])
        &&& self.use_profitability_priority
    }
}

impl Default for ADLConfig {
    fn default() -> (c: Self)
        ensures
            c.usual(),
    {
        let mut leverage_thresholds: Vec<Amount> = Vec::new();
        leverage_thresholds.push(Amount::whole(10));
        leverage_thresholds.push(Amount::whole(25));
        leverage_thresholds.push(Amount::whole(50));
        leverage_thresholds.push(Amount::whole(75));
        leverage_thresholds.push(Amount::whole(100));
        ADLConfig { tiers: 5, leverage_thresholds, use_profitability_priority: true }
    }
}

/// The highest tier whose threshold a leverage reaches, counted from one; one
/// where there is none.
pub open spec fn highest_tier(thresholds: Seq<Amount>, leverage: int) -> int
    decreases thresholds.len(),
{
    if thresholds.len() == 0 {
        1
    } else if leverage >= thresholds.last().units {
        thresholds.len() as int
    } else {
        highest_tier(thresholds.drop_last(), leverage)
    }
}

/// A higher leverage is never in a lower tier.
pub proof fn law_tier_rises(thresholds: Seq<Amount>, a: int, b: int)
    requires
        a <= b,
    ensures
        1 <= highest_tier(thresholds, a) <= highest_tier(thresholds, b),
        highest_tier(thresholds, b) <= larger(thresholds.len() as int, 1),
    decreases thresholds.len(),
{
    if thresholds.len() > 0 {
        law_tier_rises(thresholds.drop_last(), a, b);
    }
}

/// Money that covers what liquidated positions cannot pay.
#[derive(Debug, Clone, Copy, PartialEq, Eq)]
pub struct InsuranceFund {
    pub balance: Amount,
    /// Up to eight bytes of the currency's name.
    pub currency: [u8; 8],
    pub min_balance: Amount,
}

impl InsuranceFund {
    /// What a deficit can draw from the fund.
    pub open spec fn covered(self, deficit: int) -> int {
        smaller(larger(saturated(self.balance.units - self.min_balance.units), 0), deficit)
    }

    /// A fund that keeps a tenth of its first balance.
    pub fn new(currency: &str, initial_balance: Amount) -> (f: Self)
        ensures
            f.balance == initial_balance,
            f.min_balance.units == truncated_div(initial_balance.units as int, 10),
            forall|i: int|
                0 <= i < 8 ==> #[trigger] f.currency@[i] == (if i < encode_utf8(currency@).len() {
                    encode_utf8(currency@)[i]
                } else {
                    0
                }),
    {
        let bytes: &[u8] = currency.as_bytes();
        let mut name: [u8; 8] = [0u8; 8];
        let mut i: usize = 0;
        while i < 8 && i < bytes.len()
            invariant
                i <= 8,
                i <= bytes@.len(),
                bytes@ == encode_utf8(currency@),
                forall|k: int| 0 <= k < i ==> name@[k] == bytes@[k],
                forall|k: int| i <= k < 8 ==> name@[k] == 0,
            decreases 8 - i,
        {
            name[i] = bytes[i];
            i += 1;
        }
        let tenth: i128 = divide_wide(initial_balance.units as i128, 10);
        InsuranceFund {
            balance: initial_balance,
            currency: name,
            min_balance: Amount { units: tenth as i64 },
        }
    }

    /// Adds a surplus; a negative one is left out.
    pub fn add_liquidation_surplus(&mut self, surplus: Amount)
        ensures
            final(self).balance.units == (if surplus.units > 0 {
                saturated(old(self).balance.units + surplus.units)
            } else {
                old(self).balance.units as int
            }),
            final(self).currency == old(self).currency,
            final(self).min_balance == old(self).min_balance,
    {
        if surplus.units > 0 {
            self.balance =
            Amount { units: saturate(self.balance.units as i128 + surplus.units as i128) };
        }
    }

    /// Covers a deficit as far as the fund allows, and tells how much.
    pub fn cover_deficit(&mut self, deficit: Amount) -> (r: Amount)
        ensures
            r.units == old(self).covered(deficit.units as int),
            final(self).balance.units == saturated(old(self).balance.units - r.units),
            final(self).currency == old(self).currency,
            final(self).min_balance == old(self).min_balance,
    {
        let above: i64 = saturate(self.balance.units as i128 - self.min_balance.units as i128);
        let available: i64 = if above > 0 { above } else { 0 };
        let covered: i64 = if available <= deficit.units { available } else { deficit.units };
        self.balance = Amount { units: saturate(self.balance.units as i128 - covered as i128) };
        Amount { units: covered }
    }

    /// Whether nothing can be drawn.
    pub fn is_depleted(&self) -> (r: bool)
        ensures
            r == (self.balance.units <= self.min_balance.units),
    {
        self.balance.units <= self.min_balance.units
    }
}

/// A deficit never draws the fund below its least balance, and never more than
/// the deficit.
pub proof fn law_fund_keeps_minimum(f: InsuranceFund, deficit: Amount)
    requires
        deficit.units >= 0,
        f.balance.units >= f.min_balance.units,
    ensures
        ({
            let covered = f.covered(deficit.units as int);
            &&& 0 <= covered <= deficit.units
            &&& f.balance.units - covered >= f.min_balance.units
            &&& covered == deficit.units || f.balance.units - covered == f.min_balance.units
        }),
{
}

/// What a liquidation yields.
#[derive(Debug, Clone, Copy, PartialEq, Eq, Structural)]
pub struct LiquidationPnL {
    pub gross_pnl: Amount,
    pub net_pnl: Amount,
    pub taker_fee: Amount,
    pub insurance_impact: Amount,
    pub trader_loss: Amount,
}

/// Whether these are the figures of a position that is closed at a price.
pub open spec fn closes(
    params: LiquidationParams,
    side: PositionSide,
    price: Amount,
    r: LiquidationPnL,
) -> bool {
    let s = params.position_size.units as int;
    let entry = product(s, params.entry_price.units as int);
    let exit = product(s, price.units as int);
    let fee = product(exit, params.taker_fee_rate.units as int);
    let gross = saturated(
        match side {
            PositionSide::Long => exit - entry,
            PositionSide::Short => entry - exit,
        },
    );
    let net = saturated(gross - fee);
    let margin = params.margin_balance.units as int;
    &&& r.gross_pnl.units == gross
    &&& r.net_pnl.units == net
    &&& r.taker_fee.units == fee
    &&& r.insurance_impact.units == saturated(insurance_impact(net, margin))
    &&& r.trader_loss.units == smaller(margin, larger(-net, 0))
}

/// What the insurance fund gets, or gives where negative.
pub open spec fn insurance_impact(net: int, margin: int) -> int {
    if net < -margin {
        net + margin
    } else if net > 0 {
        smaller(net, margin)
    } else {
        0
    }
}

/// A round of automatic deleveraging.
#[derive(Debug, Clone)]
pub struct ADLEvent {
    pub symbol: String,
    pub affected_positions: u32,
    pub total_volume_reduced: Amount,
    pub average_price_impact_bps: Amount,
    pub insurance_used: Amount,
}

/// Rates, tiers and funds of an exchange.
pub struct LiquidationCalculator {
    pub maintenance_rates: Table<Amount>,
    pub taker_fees: Table<Amount>,
    pub adl_configs: Table<ADLConfig>,
    pub insurance_funds: Table<InsuranceFund>,
}

impl LiquidationCalculator {
    /// The tables hold no key twice.
    pub open spec fn wf(&self) -> bool {
        &&& self.maintenance_rates.wf()
        &&& self.taker_fees.wf()
        &&& self.adl_configs.wf()
        &&& self.insurance_funds.wf()
    }

    /// The tier of a leverage for a symbol.
    pub open spec fn tier(&self, leverage: int, symbol: Seq<char>) -> int {
        if self.adl_configs@.contains_key(symbol) {
            highest_tier(self.adl_configs@[symbol].leverage_thresholds@, leverage)
        } else {
            1
        }
    }

    /// The rates and tiers of the two main perpetuals, and a fund of a hundred
    /// million dollars.
    pub open spec fn usual(&self) -> bool {
        &&& self.maintenance_rates@.dom() == set!["BTC-PERP"@, "ETH-PERP"@]
        &&& self.taker_fees@.dom() == set!["BTC-PERP"@, "ETH-PERP"@]
        &&& self.adl_configs@.dom() == set!["BTC-PERP"@, "ETH-PERP"@]
        &&& self.insurance_funds@.dom() == set!["USD"@]
        &&& forall|k: Seq<char>| #[trigger]
            self.maintenance_rates@.contains_key(k) ==> self.maintenance_rates@[k].units == 500_000
        &&& forall|k: Seq<char>| #[trigger]
            self.taker_fees@.contains_key(k) ==> self.taker_fees@[k].units == 40_000
        &&& forall|k: Seq<char>| #[trigger]
            self.adl_configs@.contains_key(k) ==> self.adl_configs@[k].usual()
        &&& self.insurance_funds@["USD"@].balance.units == 10_000_000_000_000_000
        &&& self.insurance_funds@["USD"@].min_balance.units == 1_000_000_000_000_000
    }

    /// The rates of the two main perpetuals, and a fund of a hundred million
    /// dollars.
    pub fn new() -> (c: Self)
        ensures
            c.wf(),
            c.usual(),
    {
        proof {
            reveal_strlit("BTC-PERP");
            reveal_strlit("ETH-PERP");
            assert("BTC-PERP"@[0] != "ETH-PERP"@[0]);
        }
        let mut maintenance_rates: Table<Amount> = Table::new();
        let mut taker_fees: Table<Amount> = Table::new();
        let mut adl_configs: Table<ADLConfig> = Table::new();
        let mut insurance_funds: Table<InsuranceFund> = Table::new();
        let _ = maintenance_rates.insert("BTC-PERP".to_string(), Amount { units: 500_000 });
        let _ = taker_fees.insert("BTC-PERP".to_string(), Amount { units: 40_000 });
        let _ = adl_configs.insert("BTC-PERP".to_string(), ADLConfig::default());
        let _ = maintenance_rates.insert("ETH-PERP".to_string(), Amount { units: 500_000 });
        let _ = taker_fees.insert("ETH-PERP".to_string(), Amount { units: 40_000 });
        let _ = adl_configs.insert("ETH-PERP".to_string(), ADLConfig::default());
        let _ = insurance_funds.insert(
            "USD".to_string(),
            InsuranceFund::new("USD", Amount { units: 10_000_000_000_000_000 }),
        );
        assert(maintenance_rates@.dom() =~= set!["BTC-PERP"@, "ETH-PERP"@]);
        assert(taker_fees@.dom() =~= set!["BTC-PERP"@, "ETH-PERP"@]);
        assert(adl_configs@.dom() =~= set!["BTC-PERP"@, "ETH-PERP"@]);
        assert(insurance_funds@.dom() =~= set!["USD"@]);
        LiquidationCalculator { maintenance_rates, taker_fees, adl_configs, insurance_funds }
    }

    /// When a position is liquidated, and what that means.
    pub fn calculate_liquidation_price(&self, params: &LiquidationParams, side: PositionSide) -> (r:
        LiquidationResult)
        requires
            self.wf(),
            params.sound(),
        ensures
            r.liquidation_price.units == params.liquidation_price(side),
            r.bankruptcy_price.units == params.bankruptcy_price(side),
            r.liquidation_margin.units == saturated(
                quotient(
                    params.entry_square() * params.maintenance_margin_rate.units,
                    10_000_000_000_000_000,
                ),
            ),
            r.expected_loss_pct.units == params.expected_loss(
                side,
                params.liquidation_price(side),
            ),
            r.adl_tier == self.tier(params.effective_leverage(), "BTC-PERP"@) as u32,
    {
        let s: i128 = params.position_size.units as i128;
        let e: i128 = params.entry_price.units as i128;
        let rate: i128 = params.maintenance_margin_rate.units as i128;
        let r: i128 = rate + params.taker_fee_rate.units as i128;
        let margin: i128 = params.margin_balance.units as i128;
        let m: i128 = margin * 100_000_000;
        assert(-0x4000_0000_0000_0000_0000_0000_0000_0000 <= s * e
            <= 0x4000_0000_0000_0000_0000_0000_0000_0000 && s * e != 0) by (nonlinear_arith)
            requires
                -0x8000_0000_0000_0000 <= s <= 0x8000_0000_0000_0000,
                -0x8000_0000_0000_0000 <= e <= 0x8000_0000_0000_0000,
                s != 0,
                e != 0,
        ;
        let value: i128 = s * e;
        let (part, above): (i128, i128) = match side {
            PositionSide::Long => (100_000_000 - r, value - m),
            PositionSide::Short => (100_000_000 + r, value + m),
        };
        let price: i64 = if product_exceeds(s, part, 1_000_000) {
            assert(part != 0) by {
                if part == 0 {
                    assert(s * part == 0) by (nonlinear_arith)
                        requires
                            part == 0,
                    ;
                }
            }
            let x: i64 = divide_products(above, 100_000_000, s, part);
            match side {
                PositionSide::Long => if x > 0 {
                    x
                } else {
                    0
                },
                PositionSide::Short => x,
            }
        } else {
            params.entry_price.units
        };
        let per_unit: i128 = if s < 0 {
            divide_wide(-m, (-s) as u128)
        } else {
            divide_wide(m, s as u128)
        };
        let bankruptcy: i64 = match side {
            PositionSide::Long => saturate(e - per_unit),
            PositionSide::Short => saturate(e + per_unit),
        };
        let loss: i64 = if price > 0 {
            match side {
                PositionSide::Long => ratio_of(e - price as i128, e),
                PositionSide::Short => ratio_of(price as i128 - e, e),
            }
        } else {
            UNITS_PER_ONE
        };
        let kept: i64 = divide_products(value, rate, 10_000_000_000_000_000, 1);
        let leverage: i64 = if margin != 0 {
            divide_products(value, 1, margin, 1)
        } else if value > 0 {
            i64::MAX
        } else {
            i64::MIN
        };
        let adl_tier: u32 = self.get_adl_tier(Amount { units: leverage }, "BTC-PERP");
        LiquidationResult {
            liquidation_price: Amount { units: price },
            bankruptcy_price: Amount { units: bankruptcy },
            liquidation_margin: Amount { units: kept },
            expected_loss_pct: Amount { units: loss },
            adl_tier,
        }
    }

    /// The tier of a leverage for a symbol.
    pub fn get_adl_tier(&self, leverage: Amount, symbol: &str) -> (r: u32)
        requires
            self.wf(),
        ensures
            r == self.tier(leverage.units as int, symbol@) as u32,
    {
        if let Some(config) = self.adl_configs.get(symbol) {
            let ghost all = config.leverage_thresholds@;
            let mut i: usize = config.leverage_thresholds.len();
            assert(all.take(all.len() as int) =~= all);
            while i > 0
                invariant
                    i <= all.len(),
                    all == config.leverage_thresholds@,
                    highest_tier(all, leverage.units as int) == highest_tier(
                        all.take(i as int),
                        leverage.units as int,
                    ),
                    self.adl_configs@.contains_key(symbol@),
                    self.adl_configs@[symbol@] == *config,
                decreases i,
            {
                assert(all.take(i as int).drop_last() =~= all.take(i - 1));
                if leverage.units >= config.leverage_thresholds[i - 1].units {
                    return i as u32;
                }
                i -= 1;
            }
        }
        1
    }

    /// What a liquidation at a price yields, and what it does to the insurance
    /// fund.
    pub fn calculate_liquidation_pnl(
        &self,
        params: &LiquidationParams,
        side: PositionSide,
        liquidation_price: Amount,
    ) -> (r: LiquidationPnL)
        ensures
            closes(*params, side, liquidation_price, r),
    {
        let size: i64 = params.position_size.units;
        let entry_value: i64 = product_of(size, params.entry_price.units);
        let exit_value: i64 = product_of(size, liquidation_price.units);
        let taker_fee: i64 = product_of(exit_value, params.taker_fee_rate.units);
        let gross: i64 = match side {
            PositionSide::Long => saturate(exit_value as i128 - entry_value as i128),
            PositionSide::Short => saturate(entry_value as i128 - exit_value as i128),
        };
        let net: i64 = saturate(gross as i128 - taker_fee as i128);
        let n: i128 = net as i128;
        let margin: i128 = params.margin_balance.units as i128;
        let impact: i128 = if n < -margin {
            n + margin
        } else if n > 0 {
            if n <= margin {
                n
            } else {
                margin
            }
        } else {
            0
        };
        let lost: i128 = if n < 0 { -n } else { 0 };
        let loss: i64 = if margin <= lost { params.margin_balance.units } else { lost as i64 };
        LiquidationPnL {
            gross_pnl: Amount { units: gross },
            net_pnl: Amount { units: net },
            taker_fee: Amount { units: taker_fee },
            insurance_impact: Amount { units: saturate(impact) },
            trader_loss: Amount { units: loss },
        }
    }

    /// How early a position is deleveraged: its leverage over a hundred, raised
    /// by its profit as part of its value.
    pub open spec fn adl_score(value: int, leverage: int, pnl: int) -> int {
        let gain = if pnl > 0 {
            ratio(pnl, value)
        } else {
            0
        };
        saturated(
            truncated_div(truncated_div(leverage, 100) * (100_000_000 + gain), 100_000_000),
        )
    }

    /// How early a position is deleveraged.
    pub fn calculate_adl_score(
        &self,
        position_value: Amount,
        leverage: Amount,
        unrealized_pnl: Amount,
    ) -> (r: Amount)
        requires
            unrealized_pnl.units > 0 ==> position_value.units != 0,
        ensures
            r.units == Self::adl_score(
                position_value.units as int,
                leverage.units as int,
                unrealized_pnl.units as int,
            ),
    {
        let score: i128 = divide_wide(leverage.units as i128, 100);
        let gain: i64 = if unrealized_pnl.units > 0 {
            ratio_of(unrealized_pnl.units as i128, position_value.units as i128)
        } else {
            0
        };
        let factor: i128 = 100_000_000 + gain as i128;
        assert(-0x8000_0000_0000_0000 * 0x1_0000_0000_0000_0000 < score * factor
            < 0x8000_0000_0000_0000 * 0x1_0000_0000_0000_0000) by (nonlinear_arith)
            requires
                -0x8000_0000_0000_0000 <= score <= 0x8000_0000_0000_0000,
                -0x8000_0000_0000_0000 <= factor < 0x1_0000_0000_0000_0000,
        ;
        Amount { units: saturate(divide_wide(score * factor, 100_000_000)) }
    }

    /// Sets a symbol's maintenance rate: from a thousandth to a half.
    pub fn set_maintenance_rate(&mut self, symbol: String, rate: Amount)
        requires
            old(self).wf(),
        ensures
            final(self).wf(),
            final(self).maintenance_rates@ == old(self).maintenance_rates@.insert(
                symbol@,
                Amount { units: between(rate.units as int, 100_000, 50_000_000) as i64 },
            ),
            final(self).taker_fees == old(self).taker_fees,
            final(self).adl_configs == old(self).adl_configs,
            final(self).insurance_funds == old(self).insurance_funds,
    {
        let held: i64 = hold_between(rate.units, 100_000, 50_000_000);
        let _ = self.maintenance_rates.insert(symbol, Amount { units: held });
    }

    /// The fund of a currency.
    pub fn get_insurance_fund(&self, currency: &str) -> (r: Option<&InsuranceFund>)
        requires
            self.wf(),
        ensures
            r is Some <==> self.insurance_funds@.contains_key(currency@),
            r is Some ==> *r->0 == self.insurance_funds@[currency@],
    {
        self.insurance_funds.get(currency)
    }

    /// Sets the balance of a currency's fund, where there is one.
    pub fn update_insurance_fund(&mut self, currency: &str, balance: Amount)
        requires
            old(self).wf(),
        ensures
            final(self).wf(),
            final(self).insurance_funds@ == (if old(self).insurance_funds@.contains_key(
                currency@,
            ) {
                old(self).insurance_funds@.insert(
                    currency@,
                    InsuranceFund { balance, ..old(self).insurance_funds@[currency@] },
                )
            } else {
                old(self).insurance_funds@
            }),
            final(self).maintenance_rates == old(self).maintenance_rates,
            final(self).taker_fees == old(self).taker_fees,
            final(self).adl_configs == old(self).adl_configs,
    {
        let found: Option<InsuranceFund> = match self.insurance_funds.get(currency) {
            Some(fund) => Some(*fund),
            None => None,
        };
        if let Some(fund) = found {
            let mut changed: InsuranceFund = fund;
            changed.balance = balance;
            let _ = self.insurance_funds.insert(currency.to_string(), changed);
        }
    }
}

impl Default for LiquidationCalculator {
    fn default() -> (c: Self)
        ensures
            c.wf(),
            c.usual(),
    {
        LiquidationCalculator::new()
    }
}

} // verus!
