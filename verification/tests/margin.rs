use trading_core::base::amount::Amount;
use trading_core::base::table::Table;
use trading_core::margin::liquidation_calculator::{
    InsuranceFund, LiquidationCalculator, LiquidationParams, PositionSide as Side,
};
use trading_core::margin::margin_simulator::{
    MarginAccount, MarginMode, MarginSimulator, MarginUpdateResult, Position, PositionSide,
    ValidationResult,
};
use trading_core::margin::portfolio_margin::{
    AssetType, PortfolioMarginCalculator, PortfolioPosition, PositionSide as PortfolioSide,
};

fn amt(x: f64) -> Amount {
    Amount { units: (x * 1e8).round() as i64 }
}

fn params() -> LiquidationParams {
    LiquidationParams {
        entry_price: amt(50000.0),
        position_size: amt(1.0),
        leverage: amt(10.0),
        margin_balance: amt(5000.0),
        maintenance_margin_rate: amt(0.005),
        taker_fee_rate: amt(0.0004),
        funding_rate: amt(0.0),
    }
}

#[test]
fn test_long_liquidation() {
    let calc = LiquidationCalculator::new();
    let params = params();
    let result = calc.calculate_liquidation_price(&params, Side::Long);
    assert!(result.liquidation_price.units < params.entry_price.units);
    assert!(result.bankruptcy_price.units < result.liquidation_price.units);
    assert_eq!(result.bankruptcy_price, amt(45000.0));
    assert_eq!(result.liquidation_price.units, 4_524_431_932_435);
    assert_eq!(result.liquidation_margin, amt(250.0));
    assert!(result.is_liquidated(amt(45244.0), Side::Long));
    assert!(!result.is_liquidated(amt(45245.0), Side::Long));
}

#[test]
fn test_short_liquidation() {
    let calc = LiquidationCalculator::new();
    let params = params();
    let result = calc.calculate_liquidation_price(&params, Side::Short);
    assert!(result.liquidation_price.units > params.entry_price.units);
    assert!(result.bankruptcy_price.units > result.liquidation_price.units);
    assert_eq!(result.bankruptcy_price, amt(55000.0));
    assert_eq!(result.adl_tier, 1);
}

#[test]
fn test_insurance_fund() {
    let mut fund = InsuranceFund::new("USD", amt(1000000.0));
    fund.add_liquidation_surplus(amt(50000.0));
    assert!(fund.balance.units > amt(1000000.0).units);
    let covered = fund.cover_deficit(amt(100000.0));
    assert!(covered.units > 0);
    assert_eq!(covered, amt(100000.0));
    assert_eq!(&fund.currency, b"USD\0\0\0\0\0");
    assert_eq!(fund.cover_deficit(amt(10000000.0)), amt(850000.0));
    assert!(fund.is_depleted());
}

#[test]
fn a_liquidation_is_accounted_for() {
    let mut calc = LiquidationCalculator::default();
    let pnl = calc.calculate_liquidation_pnl(&params(), Side::Long, amt(40000.0));
    assert_eq!(pnl.gross_pnl, amt(-10000.0));
    assert_eq!(pnl.taker_fee, amt(16.0));
    assert_eq!(pnl.net_pnl, amt(-10016.0));
    assert_eq!(pnl.insurance_impact, amt(-5016.0));
    assert_eq!(pnl.trader_loss, amt(5000.0));
    let won = calc.calculate_liquidation_pnl(&params(), Side::Long, amt(60000.0));
    assert_eq!(won.trader_loss, amt(0.0));
    let lost = calc.calculate_liquidation_pnl(&params(), Side::Long, amt(49000.0));
    assert_eq!(lost.trader_loss, amt(1019.6));
    assert_eq!(calc.calculate_adl_score(amt(-1000.0), amt(50.0), amt(500.0)), amt(0.25));
    assert_eq!(calc.calculate_adl_score(amt(1000.0), amt(50.0), amt(500.0)), amt(0.75));
    calc.set_maintenance_rate("X".to_string(), amt(0.9));
    assert_eq!(calc.maintenance_rates.get("X"), Some(&amt(0.5)));
    calc.update_insurance_fund("USD", amt(7.0));
    assert_eq!(calc.get_insurance_fund("USD").unwrap().balance, amt(7.0));
    assert!(calc.get_insurance_fund("EUR").is_none());
}

fn position(entry: f64, mark: f64) -> Position {
    Position {
        symbol: "BTC-PERP".to_string(),
        side: PositionSide::Long,
        size: amt(1.0),
        entry_price: amt(entry),
        mark_price: amt(mark),
        leverage: amt(10.0),
        margin_mode: MarginMode::Cross,
    }
}

#[test]
fn test_position_pnl() {
    let position = position(50000.0, 51000.0);
    let pnl = position.unrealized_pnl();
    assert_eq!(pnl, amt(1000.0));
    assert_eq!(position.liquidation_price(amt(0.005)), amt(45155.0));
}

#[test]
fn test_margin_account() {
    let mut account = MarginAccount::new(amt(100000.0));
    let result = account.update_cross_position(position(50000.0, 50000.0));
    assert_eq!(result, MarginUpdateResult::Success);
    assert!(account.available_balance.units < amt(100000.0).units);
    assert_eq!(account.available_balance, amt(95000.0));
}

#[test]
fn test_stress_test() {
    let simulator = MarginSimulator::new();
    let account = MarginAccount::new(amt(100000.0));
    let result = simulator.stress_test(&account, amt(-10.0));
    assert!(result.stressed_equity.units <= result.original_equity.units);
}

#[test]
fn a_shock_breaks_positions() {
    let simulator = MarginSimulator::default();
    let mut account = MarginAccount::new(amt(100000.0));
    account.update_cross_position(position(50000.0, 50000.0));
    let result = simulator.stress_test(&account, amt(-10.0));
    assert_eq!(result.liquidated_positions, vec!["BTC-PERP"]);
    assert_eq!(result.stressed_equity, amt(95000.0));
    assert_eq!(result.equity_change_pct, amt(-5.0));
    let mut prices: Table<Amount> = Table::new();
    prices.insert("BTC-PERP".to_string(), amt(52000.0));
    account.update_mark_prices(&prices);
    assert_eq!(account.equity(), amt(102000.0));
    assert_eq!(account.available_balance, amt(97000.0));
    assert_eq!(account.total_position_value(), amt(52000.0));
    assert!(!account.is_at_liquidation_risk(amt(0.005)));
    assert_eq!(account.margin_ratio(), amt(0.04901960));
}

#[test]
fn isolated_margin_is_returned() {
    let mut account = MarginAccount::new(amt(100.0));
    assert!(!account.allocate_isolated_margin("X".to_string(), amt(101.0)));
    assert!(account.allocate_isolated_margin("X".to_string(), amt(40.0)));
    assert_eq!(account.available_balance, amt(60.0));
    assert_eq!(account.remove_isolated_margin("X"), Some(amt(40.0)));
    assert_eq!(account.remove_isolated_margin("X"), None);
    assert_eq!(account.available_balance, amt(100.0));
    assert_eq!(account.total_margin_used, amt(0.0));
    let refused = account.update_cross_position(position(50000.0, 50000.0));
    assert_eq!(refused, MarginUpdateResult::InsufficientMargin);
}

#[test]
fn positions_are_validated() {
    let simulator = MarginSimulator::new();
    let account = MarginAccount::new(amt(6000.0));
    let mut p = position(50000.0, 50000.0);
    assert_eq!(simulator.validate_position(&account, &p), ValidationResult::Valid);
    p.leverage = amt(101.0);
    assert_eq!(
        simulator.validate_position(&account, &p),
        ValidationResult::LeverageExceeded { max: amt(100.0) }
    );
    p.leverage = amt(5.0);
    assert_eq!(
        simulator.validate_position(&account, &p),
        ValidationResult::InsufficientMargin { required: amt(10000.0) }
    );
    p.leverage = amt(100.0);
    p.size = amt(2.0);
    assert_eq!(simulator.validate_position(&account, &p), ValidationResult::RiskLimitExceeded);
    assert_eq!(simulator.get_maintenance_requirement(&p), amt(500.0));
    assert_eq!(
        simulator.max_safe_position_size(&account, "BTC-PERP", amt(10.0), amt(50000.0)),
        amt(1.2)
    );
}

fn held(symbol: &str, asset_type: AssetType, side: PortfolioSide, size: f64, price: f64) -> PortfolioPosition {
    PortfolioPosition {
        symbol: symbol.to_string(),
        asset_type,
        side,
        size: amt(size),
        price: amt(price),
    }
}

#[test]
fn test_portfolio_margin_calculation() {
    let calc = PortfolioMarginCalculator::new();
    let positions = vec![
        held("BTC", AssetType::Spot, PortfolioSide::Long, 1.0, 50000.0),
        held("BTC-PERP", AssetType::Perpetual, PortfolioSide::Short, 1.0, 50000.0),
    ];
    let result = calc.calculate_portfolio_margin(&positions);
    assert!(result.gross_margin.units > result.net_margin.units);
    assert!(result.savings_pct.units > 0);
    assert_eq!(result.gross_margin, amt(50500.0));
    assert_eq!(result.net_margin, amt(25.0));
    assert_eq!(result.gross_notional, amt(100000.0));
    assert_eq!(result.net_notional, amt(0.0));
}

#[test]
fn test_hedge_identification() {
    let calc = PortfolioMarginCalculator::new();
    let positions = vec![
        held("ETH", AssetType::Spot, PortfolioSide::Long, 10.0, 3000.0),
        held("ETH-PERP", AssetType::Perpetual, PortfolioSide::Short, 10.0, 3000.0),
    ];
    let hedges = calc.identify_hedges(&positions);
    assert!(!hedges.is_empty());
    assert!(hedges[0].hedge_ratio.units > amt(0.9).units);
    assert_eq!(hedges[0].group_index, 1);
    assert_eq!(hedges[0].offset_benefit, amt(95.0));
    assert_eq!(hedges[0].assets, vec!["ETH", "ETH-PERP", "ETH-FUTURES"]);
}

#[test]
fn positions_without_a_group_pay_in_full() {
    let mut calc = PortfolioMarginCalculator::without_groups();
    let positions = vec![
        held("A", AssetType::OptionCall, PortfolioSide::Long, 2.0, 100.0),
        held("B", AssetType::Futures, PortfolioSide::Short, 1.0, 100.0),
    ];
    let before = calc.calculate_portfolio_margin(&positions);
    assert_eq!(before.net_margin, before.gross_margin);
    assert_eq!(before.gross_margin, amt(31.0));
    calc.add_correlation_group(vec!["A".to_string(), "B".to_string()], amt(2.0), amt(0.5));
    let after = calc.calculate_portfolio_margin(&positions);
    assert_eq!(after.net_margin, amt(1.5));
    assert_eq!(after.net_notional, amt(100.0));
    assert_eq!(calc.correlation_groups[0].correlation, amt(1.0));
    calc.set_cross_margin_discount(amt(7.0));
    assert_eq!(calc.cross_margin_discount, amt(1.0));
    assert_eq!(calc.calculate_portfolio_margin(&[]).gross_margin, amt(0.0));
}

#[test]
fn a_rebate_lowers_what_has_to_be_kept() {
    let calc = LiquidationCalculator::new();
    let mut rebated = params();
    rebated.taker_fee_rate = amt(-0.0001);
    let result = calc.calculate_liquidation_price(&rebated, Side::Long);
    assert_eq!(result.liquidation_price.units, 4_522_158_577_027);
    assert_eq!(result.liquidation_margin, amt(250.0));
    rebated.maintenance_margin_rate = amt(-0.5);
    let result = calc.calculate_liquidation_price(&rebated, Side::Short);
    assert_eq!(result.liquidation_price.units, 11_002_200_440_088);
    assert_eq!(result.liquidation_margin, amt(-25000.0));
}

#[test]
fn tiers_follow_the_leverage() {
    let calc = LiquidationCalculator::new();
    let tier = |x: f64| calc.get_adl_tier(amt(x), "BTC-PERP");
    assert_eq!(tier(5.0), 1);
    assert_eq!(tier(10.0), 1);
    assert_eq!(tier(25.0), 2);
    assert_eq!(tier(60.0), 3);
    assert_eq!(tier(99.0), 4);
    assert_eq!(tier(1000.0), 5);
    assert_eq!(calc.get_adl_tier(amt(1000.0), "X"), 1);
    let mut bare = params();
    bare.margin_balance = amt(0.0);
    assert_eq!(calc.calculate_liquidation_price(&bare, Side::Long).adl_tier, 5);
}

#[test]
fn negative_sizes_count_by_their_size() {
    let calc = PortfolioMarginCalculator::new();
    let positions = vec![
        held("BTC", AssetType::Spot, PortfolioSide::Long, 1.0, 1000.0),
        held("BTC-PERP", AssetType::Perpetual, PortfolioSide::Short, -2.0, 1000.0),
        held("X", AssetType::Futures, PortfolioSide::Long, -1.0, 500.0),
    ];
    let result = calc.calculate_portfolio_margin(&positions);
    assert_eq!(result.gross_notional, amt(3500.0));
    assert_eq!(result.gross_margin, amt(1000.0 + 20.0 + 5.0));
    assert_eq!(result.net_margin, amt(0.5 + 10.0 + 5.0));
    assert_eq!(result.net_notional, amt(3000.0 + 500.0));
    let hedges = calc.identify_hedges(&positions);
    assert_eq!(hedges.len(), 1);
    assert_eq!(hedges[0].short_notional, amt(-2000.0));
    assert_eq!(hedges[0].hedge_ratio, amt(-2.0));
}

#[test]
fn positions_of_any_sign_have_a_liquidation_price() {
    let mut p = position(50000.0, 50000.0);
    p.size = amt(0.0);
    assert_eq!(p.liquidation_price(amt(0.005)), amt(50000.0));
    p.size = amt(-1.0);
    p.leverage = amt(-10.0);
    assert_eq!(p.liquidation_price(amt(0.005)), amt(55250.0));
    let mut account = MarginAccount::new(amt(-100.0));
    assert_eq!(account.margin_ratio().units, i64::MAX);
    assert!(account.allocate_isolated_margin("X".to_string(), amt(-150.0)));
    assert_eq!(account.available_balance, amt(50.0));
    assert_eq!(account.total_margin_used, amt(-150.0));
    let simulator = MarginSimulator::new();
    let result = simulator.stress_test(&account, amt(-10.0));
    assert_eq!(result.equity_change_pct, amt(0.0));
    assert_eq!(
        simulator.max_safe_position_size(&account, "BTC-PERP", amt(10.0), amt(-100.0)),
        amt(-5.0)
    );
}

#[test]
fn no_margin_covers_a_value_without_leverage() {
    let simulator = MarginSimulator::new();
    let mut account = MarginAccount::new(amt(6000.0));
    let mut p = position(50000.0, 50000.0);
    p.leverage = amt(0.0);
    let most = Amount { units: i64::MAX };
    let least = Amount { units: i64::MIN };
    assert_eq!(p.liquidation_price(amt(0.005)), least);
    p.side = PositionSide::Short;
    assert_eq!(p.liquidation_price(amt(0.005)), most);
    assert_eq!(
        simulator.validate_position(&account, &p),
        ValidationResult::InsufficientMargin { required: most }
    );
    assert_eq!(
        account.update_cross_position(p.clone()),
        MarginUpdateResult::InsufficientMargin
    );
    assert_eq!(account.available_balance, amt(6000.0));
    assert_eq!(
        simulator.get_initial_requirement(amt(-5.0), amt(0.0), "BTC-PERP"),
        least
    );
    p.size = amt(-1.0);
    assert_eq!(p.liquidation_price(amt(0.005)), amt(50000.0));
    assert_eq!(simulator.validate_position(&account, &p), ValidationResult::Valid);
    assert_eq!(account.update_cross_position(p.clone()), MarginUpdateResult::Success);
    assert_eq!(account.total_margin_used, least);
    assert_eq!(account.available_balance, most);
    p.size = amt(0.0);
    assert_eq!(
        simulator.validate_position(&MarginAccount::new(amt(1.0)), &p),
        ValidationResult::Valid
    );
}

#[test]
fn shocks_and_sizes_are_bounded_where_nothing_divides() {
    let simulator = MarginSimulator::new();
    let mut account = MarginAccount::new(amt(5000.0));
    assert_eq!(
        account.update_cross_position(position(50000.0, 50000.0)),
        MarginUpdateResult::Success
    );
    account.wallet_balance = amt(0.0);
    let fall = simulator.stress_test(&account, amt(-10.0));
    assert_eq!(fall.original_equity, amt(0.0));
    assert_eq!(fall.equity_change_pct.units, i64::MIN);
    let rise = simulator.stress_test(&account, amt(10.0));
    assert_eq!(rise.equity_change_pct.units, i64::MAX);
    assert_eq!(rise.stressed_equity, amt(5000.0));
    let account = MarginAccount::new(amt(100.0));
    assert_eq!(
        simulator.max_safe_position_size(&account, "BTC-PERP", amt(0.0), amt(7.0)),
        amt(0.0)
    );
    assert_eq!(
        simulator.max_safe_position_size(&account, "BTC-PERP", amt(10.0), amt(0.0)).units,
        i64::MAX
    );
}
