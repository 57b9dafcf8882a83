//! Supply of an asset with burned fees: what each block adds and burns. All
//! quantities are in wei; rates are exact fractions of the supply.

use vstd::prelude::*;
use crate::base::sequences::newest;
use crate::base::wide::{at_most, capped_quotient, limbs_of, quotient_up_to_max, times};

verus! {

/// Blocks in a year, one each twelve seconds.
pub const BLOCKS_PER_YEAR: u128 = 2_628_000;

/// Seconds between blocks.
pub const SECONDS_PER_BLOCK: u128 = 12;

/// A part of the supply per year: `part` of `whole`. Without a supply there is
/// no part either.
#[derive(Debug, Clone, Copy, PartialEq, Eq, Structural)]
pub struct AnnualRate {
    pub part: u128,
    pub whole: u128,
}

impl AnnualRate {
    /// No part of nothing.
    pub open spec fn none() -> Self {
        AnnualRate { part: 0, whole: 0 }
    }

    /// `amount` of `supply`, where there is a supply.
    pub open spec fn of(amount: u128, supply: u128) -> Self {
        if supply > 0 {
            AnnualRate { part: amount, whole: supply }
        } else {
            AnnualRate::none()
        }
    }

    /// Whether the rate is above zero.
    pub fn is_positive(&self) -> (r: bool)
        ensures
            r == (self.part > 0 && self.whole > 0),
    {
        self.part > 0 && self.whole > 0
    }
}

fn rate_of(amount: u128, supply: u128) -> (r: AnnualRate)
    ensures
        r == AnnualRate::of(amount, supply),
{
    if supply > 0 {
        AnnualRate { part: amount, whole: supply }
    } else {
        AnnualRate { part: 0, whole: 0 }
    }
}

/// Supply as of a block.
#[derive(Debug, Clone, Copy, PartialEq, Eq, Structural)]
pub struct SupplyMetrics {
    pub block_number: u64,
    pub timestamp: u64,
    pub total_supply: u128,
    pub circulating_supply: u128,
    pub burned_supply: u128,
    pub staked_supply: u128,
    /// What a year of such blocks adds. The net rate is this less the next.
    pub inflation_rate_annual: AnnualRate,
    /// What a year of such blocks burns, of the same supply.
    pub deflation_rate_annual: AnnualRate,
    pub eip1559_base_fee: u128,
    pub burn_rate_per_block: u128,
}

/// What one block burned.
#[derive(Debug, Clone, Copy, PartialEq, Eq, Structural)]
pub struct BurnData {
    pub block_number: u64,
    pub base_fee_per_gas: u128,
    pub gas_used: u64,
    pub eth_burned: u128,
    pub cumulative_burned: u128,
}

/// What is staked, and what that adds in a year.
#[derive(Debug, Clone, Copy, PartialEq, Eq, Structural)]
pub struct StakingData {
    pub total_validators: u64,
    pub total_staked_eth: u128,
    pub annual_issuance_eth: u128,
}

/// Whether the supply grows.
#[derive(Debug, Clone, Copy, PartialEq, Eq, Structural)]
pub enum SupplyRegime {
    Inflationary,
    Deflationary,
    Neutral,
}

/// On which side of the supply a milestone lies.
#[derive(Debug, Clone, Copy, PartialEq, Eq, Structural)]
pub enum MilestoneDirection {
    Increasing,
    Decreasing,
    AlreadyReached,
}

/// When a milestone is reached.
#[derive(Debug, Clone, Copy, PartialEq, Eq, Structural)]
pub struct MilestoneEstimate {
    pub blocks_until_milestone: u64,
    pub estimated_time_secs: u128,
    pub direction: MilestoneDirection,
}

/// What blocks burned together.
pub open spec fn burned_by(s: Seq<BurnData>) -> int
    decreases s.len(),
{
    if s.len() == 0 {
        0
    } else {
        burned_by(s.drop_last()) + s.last().eth_burned
    }
}

proof fn lemma_burned_split(s: Seq<BurnData>, n: int)
    requires
        0 <= n <= s.len(),
    ensures
        burned_by(s) == burned_by(s.take(n)) + burned_by(s.skip(n)),
        burned_by(s.take(n)) >= 0,
        burned_by(s.skip(n)) >= 0,
    decreases s.len(),
{
    if s.len() == 0 {
        assert(s.take(n) =~= s);
        assert(s.skip(n) =~= s);
    } else if n == s.len() {
        lemma_burned_split(s.drop_last(), n - 1);
        assert(s.take(n) =~= s);
        assert(s.skip(n) =~= Seq::empty());
    } else {
        lemma_burned_split(s.drop_last(), n);
        assert(s.take(n) =~= s.drop_last().take(n));
        assert(s.skip(n).drop_last() =~= s.drop_last().skip(n));
        assert(s.skip(n).last() == s.last());
    }
}

proof fn lemma_burned_newest(s: Seq<BurnData>, max: nat)
    ensures
        burned_by(newest(s, max)) <= burned_by(s),
{
    if s.len() > max {
        lemma_burned_split(s, s.len() - max);
    }
}

/// Tracks the supply block by block.
#[derive(Debug, Clone)]
pub struct SupplyAnalyzer {
    pub initial_supply: u128,
    pub current_metrics: SupplyMetrics,
    pub cumulative_burned: u128,
    pub burn_history: Vec<BurnData>,
    pub max_history_size: usize,
    pub last_processed_block: u64,
}

impl SupplyAnalyzer {
    /// The history is bounded and burned no more than all blocks together, and
    /// both rates are parts of the same supply.
    pub open spec fn wf(&self) -> bool {
        &&& self.burn_history@.len() <= self.max_history_size
        &&& burned_by(self.burn_history@) <= self.cumulative_burned
        &&& self.current_metrics.deflation_rate_annual.whole
            == self.current_metrics.inflation_rate_annual.whole
    }

    /// What a block burns.
    pub open spec fn burn(base_fee: u128, gas_used: u64) -> int {
        base_fee * gas_used
    }

    /// What a block adds: its reward, and a block's part of what staking adds
    /// in a year.
    pub open spec fn issuance(reward: u128, staking: Option<StakingData>) -> int {
        reward + match staking {
            Some(s) => s.annual_issuance_eth / BLOCKS_PER_YEAR,
            None => 0,
        }
    }

    /// What is staked.
    pub open spec fn staked(staking: Option<StakingData>) -> u128 {
        match staking {
            Some(s) => s.total_staked_eth,
            None => 0,
        }
    }

    /// The supply after a block; never below zero.
    pub open spec fn supply_after(&self, burn: int, issuance: int) -> int {
        let next = self.current_metrics.total_supply + issuance - burn;
        if next >= 0 {
            next
        } else {
            0
        }
    }

    /// Whether no step of a block leaves the range of `u128`.
    pub open spec fn block_in_range(&self, burn: int, issuance: int) -> bool {
        &&& burn * BLOCKS_PER_YEAR <= u128::MAX
        &&& issuance * BLOCKS_PER_YEAR <= u128::MAX
        &&& self.cumulative_burned + burn <= u128::MAX
        &&& self.supply_after(burn, issuance) <= u128::MAX
    }

    /// The metrics after a block.
    pub open spec fn metrics_after(
        &self,
        block_number: u64,
        timestamp: u64,
        base_fee: u128,
        burn: int,
        issuance: int,
        staked: u128,
    ) -> SupplyMetrics {
        let supply = self.supply_after(burn, issuance);
        SupplyMetrics {
            block_number,
            timestamp,
            total_supply: supply as u128,
            circulating_supply: if supply >= staked {
                (supply - staked) as u128
            } else {
                0
            },
            burned_supply: (self.cumulative_burned + burn) as u128,
            staked_supply: staked,
            inflation_rate_annual: AnnualRate::of(
                (issuance * BLOCKS_PER_YEAR) as u128,
                self.current_metrics.total_supply,
            ),
            deflation_rate_annual: AnnualRate::of(
                (burn * BLOCKS_PER_YEAR) as u128,
                self.current_metrics.total_supply,
            ),
            eip1559_base_fee: base_fee,
            burn_rate_per_block: burn as u128,
        }
    }

    /// Whether no block was taken in yet.
    pub open spec fn is_fresh(&self, supply: u128) -> bool {
        &&& self.initial_supply == supply
        &&& self.current_metrics == (SupplyMetrics {
            block_number: 0,
            timestamp: 0,
            total_supply: supply,
            circulating_supply: supply,
            burned_supply: 0,
            staked_supply: 0,
            inflation_rate_annual: AnnualRate::none(),
            deflation_rate_annual: AnnualRate::none(),
            eip1559_base_fee: 0,
            burn_rate_per_block: 0,
        })
        &&& self.cumulative_burned == 0
        &&& self.burn_history@.len() == 0
        &&& self.max_history_size == 1000
        &&& self.last_processed_block == 0
    }

    /// An analyzer before the first block.
    pub fn new(initial_supply_wei: u128) -> (a: Self)
        ensures
            a.wf(),
            a.is_fresh(initial_supply_wei),
    {
        SupplyAnalyzer {
            initial_supply: initial_supply_wei,
            current_metrics: SupplyMetrics {
                block_number: 0,
                timestamp: 0,
                total_supply: initial_supply_wei,
                circulating_supply: initial_supply_wei,
                burned_supply: 0,
                staked_supply: 0,
                inflation_rate_annual: AnnualRate { part: 0, whole: 0 },
                deflation_rate_annual: AnnualRate { part: 0, whole: 0 },
                eip1559_base_fee: 0,
                burn_rate_per_block: 0,
            },
            cumulative_burned: 0,
            burn_history: Vec::new(),
            max_history_size: 1000,
            last_processed_block: 0,
        }
    }

    /// Whether this is what the analyzer becomes with a block; one that is not
    /// newer than the last changes nothing.
    pub open spec fn follows(
        &self,
        before: Self,
        block_number: u64,
        timestamp: u64,
        base_fee: u128,
        gas_used: u64,
        reward: u128,
        staking: Option<StakingData>,
    ) -> bool {
        let burn = Self::burn(base_fee, gas_used);
        &&& block_number <= before.last_processed_block ==> *self == before
        &&& block_number > before.last_processed_block ==> {
            &&& self.current_metrics == before.metrics_after(
                block_number,
                timestamp,
                base_fee,
                burn,
                Self::issuance(reward, staking),
                Self::staked(staking),
            )
            &&& self.cumulative_burned == before.cumulative_burned + burn
            &&& self.burn_history@ == newest(
                before.burn_history@.push(
                    BurnData {
                        block_number,
                        base_fee_per_gas: base_fee,
                        gas_used,
                        eth_burned: burn as u128,
                        cumulative_burned: (before.cumulative_burned + burn) as u128,
                    },
                ),
                before.max_history_size as nat,
            )
            &&& self.last_processed_block == block_number
            &&& self.initial_supply == before.initial_supply
            &&& self.max_history_size == before.max_history_size
        }
    }

    /// Takes in a block, unless it or a later one was taken in before, and
    /// gives the metrics.
    pub fn process_block(
        &mut self,
        block_number: u64,
        timestamp: u64,
        base_fee_per_gas: u128,
        gas_used: u64,
        block_reward_wei: u128,
        staking_data: Option<StakingData>,
    ) -> (r: SupplyMetrics)
        requires
            old(self).wf(),
            block_number > old(self).last_processed_block ==> old(self).block_in_range(
                Self::burn(base_fee_per_gas, gas_used),
                Self::issuance(block_reward_wei, staking_data),
            ),
        ensures
            final(self).wf(),
            r == final(self).current_metrics,
            final(self).follows(
                *old(self),
                block_number,
                timestamp,
                base_fee_per_gas,
                gas_used,
                block_reward_wei,
                staking_data,
            ),
    {
        if block_number <= self.last_processed_block {
            return self.current_metrics;
        }
        let ghost burn = Self::burn(base_fee_per_gas, gas_used);
        assert(burn >= 0) by (nonlinear_arith)
            requires
                burn == base_fee_per_gas * gas_used,
        ;
        let eth_burned: u128 = base_fee_per_gas * gas_used as u128;
        let new_cumulative: u128 = self.cumulative_burned + eth_burned;
        let staked_supply: u128 = match &staking_data {
            Some(s) => s.total_staked_eth,
            None => 0,
        };
        let staking_issuance: u128 = match &staking_data {
            Some(s) => s.annual_issuance_eth / BLOCKS_PER_YEAR,
            None => 0,
        };
        let total_issuance: u128 = block_reward_wei + staking_issuance;
        let before: u128 = self.current_metrics.total_supply;
        let supply: u128 = if total_issuance >= eth_burned {
            before + (total_issuance - eth_burned)
        } else {
            before.saturating_sub(eth_burned - total_issuance)
        };
        let circulating: u128 = supply.saturating_sub(staked_supply);
        let annual_burn: u128 = eth_burned * BLOCKS_PER_YEAR;
        let annual_issuance: u128 = total_issuance * BLOCKS_PER_YEAR;
        self.current_metrics =
        SupplyMetrics {
            block_number,
            timestamp,
            total_supply: supply,
            circulating_supply: circulating,
            burned_supply: new_cumulative,
            staked_supply,
            inflation_rate_annual: rate_of(annual_issuance, before),
            deflation_rate_annual: rate_of(annual_burn, before),
            eip1559_base_fee: base_fee_per_gas,
            burn_rate_per_block: eth_burned,
        };
        self.cumulative_burned = new_cumulative;
        self.record_burn_data(
            BurnData {
                block_number,
                base_fee_per_gas,
                gas_used,
                eth_burned,
                cumulative_burned: new_cumulative,
            },
        );
        self.last_processed_block = block_number;
        self.current_metrics
    }

    fn record_burn_data(&mut self, data: BurnData)
        requires
            old(self).burn_history@.len() <= old(self).max_history_size,
            burned_by(old(self).burn_history@) + data.eth_burned <= old(self).cumulative_burned,
            old(self).current_metrics.deflation_rate_annual.whole == old(
                self,
            ).current_metrics.inflation_rate_annual.whole,
        ensures
            final(self).wf(),
            final(self).burn_history@ == newest(
                old(self).burn_history@.push(data),
                old(self).max_history_size as nat,
            ),
            final(self).initial_supply == old(self).initial_supply,
            final(self).current_metrics == old(self).current_metrics,
            final(self).cumulative_burned == old(self).cumulative_burned,
            final(self).max_history_size == old(self).max_history_size,
            final(self).last_processed_block == old(self).last_processed_block,
    {
        let ghost grown = self.burn_history@.push(data);
        self.burn_history.push(data);
        if self.burn_history.len() > self.max_history_size {
            self.burn_history.remove(0);
        }
        assert(self.burn_history@ =~= newest(grown, self.max_history_size as nat));
        proof {
            assert(grown.drop_last() =~= old(self).burn_history@);
            lemma_burned_newest(grown, self.max_history_size as nat);
        }
    }

    /// The metrics as of the last block.
    pub fn get_current_metrics(&self) -> (r: SupplyMetrics)
        ensures
            r == self.current_metrics,
    {
        self.current_metrics
    }

    /// What the latest blocks burned, on average.
    pub open spec fn mean_burn(&self, num_blocks: usize) -> int {
        let s = newest(self.burn_history@, num_blocks as nat);
        if s.len() == 0 {
            0
        } else {
            burned_by(s) / s.len() as int
        }
    }

    /// The average that the last `num_blocks` blocks burned, or all that are
    /// remembered.
    pub fn get_average_burn_rate(&self, num_blocks: usize) -> (r: u128)
        requires
            self.wf(),
        ensures
            r == self.mean_burn(num_blocks),
    {
        let len: usize = self.burn_history.len();
        let take: usize = if num_blocks < len { num_blocks } else { len };
        if take == 0 {
            return 0;
        }
        let from: usize = len - take;
        let ghost s = newest(self.burn_history@, num_blocks as nat);
        assert(s =~= self.burn_history@.skip(from as int));
        let mut sum: u128 = 0;
        let mut i: usize = from;
        assert(s.take(0) =~= Seq::empty());
        while i < len
            invariant
                from <= i <= len,
                len == self.burn_history@.len(),
                s == self.burn_history@.skip(from as int),
                burned_by(self.burn_history@) <= u128::MAX,
                sum == burned_by(s.take(i - from)),
            decreases len - i,
        {
            proof {
                let n = i - from + 1;
                assert(s.take(n).drop_last() =~= s.take(n - 1));
                lemma_burned_split(s, n);
                lemma_burned_split(self.burn_history@, from as int);
            }
            sum = sum + self.burn_history[i].eth_burned;
            i += 1;
        }
        assert(s.take(s.len() as int) =~= s);
        sum / take as u128
    }

    /// Whether more is burned than issued.
    pub open spec fn shrinks(&self) -> bool {
        self.current_metrics.deflation_rate_annual.part
            > self.current_metrics.inflation_rate_annual.part
    }

    /// Whether blocks like the last burn more than they add.
    pub fn is_deflationary(&self) -> (r: bool)
        requires
            self.wf(),
        ensures
            r == self.shrinks(),
    {
        self.current_metrics.deflation_rate_annual.part
            > self.current_metrics.inflation_rate_annual.part
    }

    /// Which regime two yearly parts of the same supply make: one prevails
    /// where it is above the other by more than a tenth.
    pub open spec fn regime(added: int, burned: int) -> SupplyRegime {
        if 10 * burned > 11 * added {
            SupplyRegime::Deflationary
        } else if 10 * added > 11 * burned {
            SupplyRegime::Inflationary
        } else {
            SupplyRegime::Neutral
        }
    }

    /// The regime of blocks like the last.
    pub fn get_regime(&self) -> (r: SupplyRegime)
        requires
            self.wf(),
        ensures
            r == Self::regime(
                self.current_metrics.inflation_rate_annual.part as int,
                self.current_metrics.deflation_rate_annual.part as int,
            ),
    {
        let added: u128 = self.current_metrics.inflation_rate_annual.part;
        let burned: u128 = self.current_metrics.deflation_rate_annual.part;
        if exceeds_by_tenth(burned, added) {
            SupplyRegime::Deflationary
        } else if exceeds_by_tenth(added, burned) {
            SupplyRegime::Inflationary
        } else {
            SupplyRegime::Neutral
        }
    }

    /// By how much the yearly part added and the yearly part burned differ.
    pub open spec fn net_part(&self) -> int {
        let added = self.current_metrics.inflation_rate_annual.part;
        let burned = self.current_metrics.deflation_rate_annual.part;
        if added >= burned {
            added - burned
        } else {
            burned - added
        }
    }

    /// What the present net rate makes of the supply in a year, as a number of
    /// parts. There are `parts_per_wei` of them to a wei per block.
    pub open spec fn net_parts(&self) -> int {
        self.net_part() * self.current_metrics.total_supply
    }

    /// How many net parts make one wei per block.
    pub open spec fn parts_per_wei(&self) -> int {
        self.current_metrics.inflation_rate_annual.whole * BLOCKS_PER_YEAR
    }

    /// How far a target is from the supply.
    pub open spec fn distance_to(&self, target: u128) -> int {
        if target >= self.current_metrics.total_supply {
            target - self.current_metrics.total_supply
        } else {
            self.current_metrics.total_supply - target
        }
    }

    /// How many blocks the present net rate needs to a target; nothing where it
    /// moves the supply by less than one wei per block.
    pub open spec fn blocks_to(&self, target: u128) -> Option<u64> {
        if self.parts_per_wei() == 0 || self.net_parts() < self.parts_per_wei() {
            None
        } else {
            Some(
                capped_quotient(
                    self.distance_to(target) * self.parts_per_wei(),
                    self.net_parts(),
                ) as u64,
            )
        }
    }

    fn blocks_needed(&self, target: u128) -> (r: Option<u64>)
        ensures
            r == self.blocks_to(target),
    {
        let m = &self.current_metrics;
        let added: u128 = m.inflation_rate_annual.part;
        let burned: u128 = m.deflation_rate_annual.part;
        let net: u128 = if added >= burned { added - burned } else { burned - added };
        let supply: u128 = m.total_supply;
        let distance: u128 = if target >= supply { target - supply } else { supply - target };
        let whole: u128 = m.inflation_rate_annual.whole;
        assert(0 * BLOCKS_PER_YEAR == 0);
        if whole == 0 {
            return None;
        }
        let net_parts = times(&limbs_of(net), &limbs_of(supply));
        let per_wei = times(&limbs_of(whole), &limbs_of(BLOCKS_PER_YEAR));
        assert(self.parts_per_wei() >= BLOCKS_PER_YEAR) by (nonlinear_arith)
            requires
                self.parts_per_wei() == whole * BLOCKS_PER_YEAR,
                whole >= 1,
        ;
        if !at_most(&per_wei, &net_parts) {
            return None;
        }
        Some(quotient_up_to_max(&times(&limbs_of(distance), &per_wei), &net_parts))
    }

    /// When a supply is reached, and from which side.
    pub open spec fn milestone(&self, target: u128) -> Option<MilestoneEstimate> {
        if target == self.current_metrics.total_supply {
            Some(
                MilestoneEstimate {
                    blocks_until_milestone: 0,
                    estimated_time_secs: 0,
                    direction: MilestoneDirection::AlreadyReached,
                },
            )
        } else {
            match self.blocks_to(target) {
                Some(n) => Some(
                    MilestoneEstimate {
                        blocks_until_milestone: n,
                        estimated_time_secs: (n * SECONDS_PER_BLOCK) as u128,
                        direction: if target > self.current_metrics.total_supply {
                            MilestoneDirection::Increasing
                        } else {
                            MilestoneDirection::Decreasing
                        },
                    },
                ),
                None => None,
            }
        }
    }

    /// When the supply reaches a target at the present net rate; nothing where
    /// that rate is too small to tell.
    pub fn estimate_milestone(&self, target_supply_wei: u128) -> (r: Option<MilestoneEstimate>)
        ensures
            r == self.milestone(target_supply_wei),
    {
        let current: u128 = self.current_metrics.total_supply;
        if target_supply_wei == current {
            return Some(
                MilestoneEstimate {
                    blocks_until_milestone: 0,
                    estimated_time_secs: 0,
                    direction: MilestoneDirection::AlreadyReached,
                },
            );
        }
        match self.blocks_needed(target_supply_wei) {
            Some(n) => {
                let direction = if target_supply_wei > current {
                    MilestoneDirection::Increasing
                } else {
                    MilestoneDirection::Decreasing
                };
                Some(
                    MilestoneEstimate {
                        blocks_until_milestone: n,
                        estimated_time_secs: n as u128 * SECONDS_PER_BLOCK,
                        direction,
                    },
                )
            },
            None => None,
        }
    }

    /// What the last `num_blocks` blocks burned, newest first.
    pub fn get_burn_trend(&self, num_blocks: usize) -> (r: Vec<BurnData>)
        ensures
            r@ == newest(self.burn_history@, num_blocks as nat).reverse(),
    {
        let len: usize = self.burn_history.len();
        let take: usize = if num_blocks < len { num_blocks } else { len };
        let ghost s = newest(self.burn_history@, num_blocks as nat).reverse();
        let mut r: Vec<BurnData> = Vec::new();
        let mut i: usize = 0;
        while i < take
            invariant
                i <= take <= len,
                len == self.burn_history@.len(),
                s.len() == take,
                s == newest(self.burn_history@, num_blocks as nat).reverse(),
                r@ == s.take(i as int),
            decreases take - i,
        {
            r.push(self.burn_history[len - 1 - i]);
            assert(r@ =~= s.take(i + 1));
            i += 1;
        }
        assert(r@ =~= s);
        r
    }

    /// Sets how many blocks are remembered; the oldest beyond are forgotten.
    pub fn set_max_history(&mut self, size: usize)
        requires
            old(self).wf(),
        ensures
            final(self).wf(),
            final(self).max_history_size == size,
            final(self).burn_history@ == newest(old(self).burn_history@, size as nat),
            final(self).initial_supply == old(self).initial_supply,
            final(self).current_metrics == old(self).current_metrics,
            final(self).cumulative_burned == old(self).cumulative_burned,
            final(self).last_processed_block == old(self).last_processed_block,
    {
        self.max_history_size = size;
        let len: usize = self.burn_history.len();
        if len > size {
            let mut kept: Vec<BurnData> = Vec::new();
            let mut i: usize = len - size;
            while i < len
                invariant
                    len == self.burn_history@.len(),
                    len - size <= i <= len,
                    size < len,
                    kept@ == self.burn_history@.subrange(len - size, i as int),
                decreases len - i,
            {
                kept.push(self.burn_history[i]);
                assert(kept@ =~= self.burn_history@.subrange(len - size, i + 1));
                i += 1;
            }
            self.burn_history = kept;
        }
        assert(self.burn_history@ =~= newest(old(self).burn_history@, size as nat));
        proof {
            lemma_burned_newest(old(self).burn_history@, size as nat);
        }
    }
}

fn exceeds_by_tenth(a: u128, b: u128) -> (r: bool)
    ensures
        r == (10 * a > 11 * b),
{
    if a <= b {
        false
    } else {
        a - b > b / 10
    }
}

impl Default for SupplyAnalyzer {
    fn default() -> (a: Self)
        ensures
            a.wf(),
            a.is_fresh(72_000_000_000_000_000_000_000_000),
    {
        SupplyAnalyzer::new(72_000_000_000_000_000_000_000_000)
    }
}

/// While a block burns no more than there is, the supply after it is the supply
/// before, and what it added, less what it burned.
pub proof fn law_supply_balances(a: SupplyAnalyzer, burn: int, issuance: int)
    requires
        burn <= a.current_metrics.total_supply + issuance,
    ensures
        a.supply_after(burn, issuance) - a.current_metrics.total_supply == issuance - burn,
{
}

/// The supply falls exactly when a block burns more than it adds, as long as
/// there is a supply.
pub proof fn law_supply_falls_by_burn(a: SupplyAnalyzer, burn: int, issuance: int)
    requires
        a.current_metrics.total_supply > 0,
        burn >= 0,
        issuance >= 0,
    ensures
        a.supply_after(burn, issuance) < a.current_metrics.total_supply <==> burn > issuance,
{
}

} // verus!
