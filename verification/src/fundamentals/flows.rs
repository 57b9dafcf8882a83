//! What is issued, burned and left of an asset.

use vstd::prelude::*;
use crate::base::wide::capped_quotient;
use crate::fundamentals::supply_analyzer::{
    burned_by, AnnualRate, BurnData, MilestoneDirection, StakingData, SupplyAnalyzer, SupplyRegime,
};

verus! {

/// A block burns the base fee for each unit of gas, and issues its reward with
/// what a year of staking gives to each block.
pub proof fn law_block_flows(base_fee: u128, gas: u64, reward: u128, s: StakingData)
    ensures
        SupplyAnalyzer::burn(base_fee, gas) == base_fee * gas,
        SupplyAnalyzer::burn(base_fee, 0) == 0,
        SupplyAnalyzer::issuance(reward, None) == reward,
        (SupplyAnalyzer::issuance(reward, Some(s)) - reward) * 2_628_000 <= s.annual_issuance_eth < (
        SupplyAnalyzer::issuance(reward, Some(s)) - reward + 1) * 2_628_000,
        SupplyAnalyzer::staked(Some(s)) == s.total_staked_eth,
        SupplyAnalyzer::staked(None) == 0,
{
    assert(base_fee * 0 == 0) by (nonlinear_arith);
}

/// After a block the supply grew by the issuance and shrank by the burn, what is
/// staked does not circulate, and the rates are a year of such blocks over the
/// supply before.
pub proof fn law_metrics_after_block(
    a: SupplyAnalyzer,
    block: u64,
    at: u64,
    fee: u128,
    burn: int,
    issuance: int,
    staked: u128,
)
    requires
        burn >= 0,
        issuance >= 0,
        a.block_in_range(burn, issuance),
        a.current_metrics.total_supply > 0,
        burn <= a.current_metrics.total_supply + issuance,
    ensures
        ({
            let m = a.metrics_after(block, at, fee, burn, issuance, staked);
            &&& m.total_supply + burn == a.current_metrics.total_supply + issuance
            &&& staked <= m.total_supply ==> m.circulating_supply + staked == m.total_supply
            &&& staked > m.total_supply ==> m.circulating_supply == 0
            &&& m.burned_supply == a.cumulative_burned + burn
            &&& m.staked_supply == staked
            &&& m.inflation_rate_annual.part == issuance * 2_628_000
            &&& m.inflation_rate_annual.whole == a.current_metrics.total_supply
            &&& m.deflation_rate_annual.part == burn * 2_628_000
            &&& m.deflation_rate_annual.whole == a.current_metrics.total_supply
            &&& m.eip1559_base_fee == fee
            &&& m.burn_rate_per_block == burn
            &&& m.block_number == block
            &&& m.timestamp == at
        }),
{
}

/// A rate is a part of a supply; of nothing there is none.
pub proof fn law_rate_of_supply(amount: u128, supply: u128)
    ensures
        supply > 0 ==> AnnualRate::of(amount, supply).part == amount && AnnualRate::of(
            amount,
            supply,
        ).whole == supply,
        supply == 0 ==> AnnualRate::of(amount, supply).part == 0 && AnnualRate::of(
            amount,
            supply,
        ).whole == 0,
{
}

/// What was burned adds up.
pub proof fn law_burns_add_up(s: Seq<BurnData>, b: BurnData)
    ensures
        burned_by(Seq::empty()) == 0,
        burned_by(s.push(b)) == burned_by(s) + b.eth_burned,
{
    assert(s.push(b).drop_last() =~= s);
}

/// A supply is deflationary where a tenth more is burned than added,
/// inflationary where a tenth more is added than burned, and neutral between.
pub proof fn law_regimes(added: int, burned: int)
    requires
        added >= 0,
        burned >= 0,
    ensures
        SupplyAnalyzer::regime(added, burned) == SupplyRegime::Deflationary <==> 10 * burned > 11
            * added,
        SupplyAnalyzer::regime(added, burned) == SupplyRegime::Inflationary <==> 10 * added > 11
            * burned,
        SupplyAnalyzer::regime(added, burned) == SupplyRegime::Deflationary ==> burned > added,
        SupplyAnalyzer::regime(added, burned) == SupplyRegime::Inflationary ==> added > burned,
        SupplyAnalyzer::regime(added, added) == SupplyRegime::Neutral,
{
}

/// The blocks to a target are how far the supply is from it, over the net change
/// in a block; without a change of at least one unit a block there is no
/// estimate.
pub proof fn law_blocks_to_target(a: SupplyAnalyzer, target: u128)
    requires
        a.parts_per_wei() > 0,
    ensures
        a.net_parts() < a.parts_per_wei() ==> a.blocks_to(target) is None,
        a.net_parts() >= a.parts_per_wei() ==> a.blocks_to(target) is Some,
        a.blocks_to(target) is Some && a.blocks_to(target)->0 < 0xffff_ffff_ffff_ffff
            ==> a.blocks_to(target)->0 * a.net_parts() <= a.distance_to(target) * a.parts_per_wei()
            < (a.blocks_to(target)->0 + 1) * a.net_parts(),
        target >= a.current_metrics.total_supply ==> a.current_metrics.total_supply + a.distance_to(
            target,
        ) == target,
        target <= a.current_metrics.total_supply ==> target + a.distance_to(target)
            == a.current_metrics.total_supply,
        ({
            let i = a.current_metrics.inflation_rate_annual.part;
            let d = a.current_metrics.deflation_rate_annual.part;
            &&& i >= d ==> a.net_part() + d == i
            &&& d >= i ==> a.net_part() + i == d
        }),
{
    if a.net_parts() >= a.parts_per_wei() {
        let n = a.distance_to(target) * a.parts_per_wei();
        let d = a.net_parts();
        let q = n / d;
        assert(n >= 0) by (nonlinear_arith)
            requires
                n == a.distance_to(target) * a.parts_per_wei(),
                a.distance_to(target) >= 0,
                a.parts_per_wei() >= 0,
        ;
        assert(q >= 0 && q * d <= n < (q + 1) * d) by (nonlinear_arith)
            requires
                d > 0,
                n >= 0,
                q == n / d,
        ;
        assert(capped_quotient(n, d) == q || q >= u64::MAX);
    }
}

/// A newer block is taken over with its own figures; an older one changes
/// nothing.
pub proof fn law_newer_block_taken(
    before: SupplyAnalyzer,
    after: SupplyAnalyzer,
    block: u64,
    at: u64,
    fee: u128,
    gas: u64,
    reward: u128,
    staking: Option<StakingData>,
)
    requires
        after.follows(before, block, at, fee, gas, reward, staking),
        before.max_history_size > 0,
        fee * gas <= u128::MAX,
        before.cumulative_burned + fee * gas <= u128::MAX,
    ensures
        block <= before.last_processed_block ==> after == before,
        block > before.last_processed_block ==> {
            &&& after.last_processed_block == block
            &&& after.cumulative_burned == before.cumulative_burned + fee * gas
            &&& after.burn_history@.len() > 0
            &&& after.burn_history@.last().block_number == block
            &&& after.burn_history@.last().base_fee_per_gas == fee
            &&& after.burn_history@.last().gas_used == gas
            &&& after.burn_history@.last().eth_burned == fee * gas
            &&& after.burn_history@.last().cumulative_burned == after.cumulative_burned
            &&& after.current_metrics.block_number == block
        },
{
    if block > before.last_processed_block {
        let n = before.max_history_size as int;
        let burn = fee * gas;
        assert(burn >= 0) by (nonlinear_arith)
            requires
                burn == fee * gas,
        ;
        let x = BurnData {
            block_number: block,
            base_fee_per_gas: fee,
            gas_used: gas,
            eth_burned: burn as u128,
            cumulative_burned: (before.cumulative_burned + burn) as u128,
        };
        let s = before.burn_history@.push(x);
        if s.len() > n {
            assert(s.skip(s.len() - n).last() == s.last());
        }
    }
}

/// A target above the supply is reached as it grows and one below as it shrinks,
/// twelve seconds for each block; the supply itself is reached already.
pub proof fn law_milestones(a: SupplyAnalyzer, target: u128)
    ensures
        target == a.current_metrics.total_supply ==> (a.milestone(target) matches Some(m)
            && m.direction == MilestoneDirection::AlreadyReached && m.blocks_until_milestone == 0
            && m.estimated_time_secs == 0),
        target != a.current_metrics.total_supply ==> (a.milestone(target) is Some <==> a.blocks_to(
            target,
        ) is Some),
        target > a.current_metrics.total_supply ==> (a.milestone(target) matches Some(m)
            ==> m.direction == MilestoneDirection::Increasing && Some(m.blocks_until_milestone)
            == a.blocks_to(target) && m.estimated_time_secs == 12 * m.blocks_until_milestone),
        target < a.current_metrics.total_supply ==> (a.milestone(target) matches Some(m)
            ==> m.direction == MilestoneDirection::Decreasing && Some(m.blocks_until_milestone)
            == a.blocks_to(target) && m.estimated_time_secs == 12 * m.blocks_until_milestone),
        a.shrinks() <==> a.current_metrics.deflation_rate_annual.part
            > a.current_metrics.inflation_rate_annual.part,
{
}

/// The mean burn is that of the latest blocks, as many as asked for or as there
/// are.
pub proof fn law_mean_burn(a: SupplyAnalyzer, n: usize)
    requires
        n >= a.burn_history@.len() > 0,
    ensures
        a.mean_burn(n) * a.burn_history@.len() <= burned_by(a.burn_history@) < (a.mean_burn(n) + 1)
            * a.burn_history@.len(),
{
    let x = burned_by(a.burn_history@);
    let c = a.burn_history@.len() as int;
    let q = x / c;
    assert(q * c <= x < (q + 1) * c) by (nonlinear_arith)
        requires
            c > 0,
            q == x / c,
    ;
}

} // verus!
