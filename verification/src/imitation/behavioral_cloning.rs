//! Choice between a learned action and a cloned one. Rates and confidences are
//! decimal numbers with eight places.

use vstd::prelude::*;
use crate::base::amount::{distance, Amount, UNITS_PER_ONE};
use crate::base::numbers::{
    between, divide_wide, hold_between, larger, product, product_of, ratio, ratio_of, saturate,
    saturated, truncated_div,
};
use crate::base::sequences::newest;

verus! {

/// How to take part in the market.
#[derive(Debug, Clone, Copy, PartialEq, Eq, Structural)]
pub struct BCAction {
    pub participation_rate: Amount,
    pub aggressiveness: u8,
    pub confidence: Amount,
    pub is_fallback: bool,
}

/// An action of the learned policy: participation, aggressiveness, confidence.
#[derive(Debug, Clone, Copy, PartialEq, Eq, Structural)]
pub struct LearnedAction {
    pub participation_rate: Amount,
    pub aggressiveness: u8,
    pub confidence: Amount,
}

/// How aggressive a logit asks to be, from zero to two.
pub open spec fn aggressiveness(logit: Amount) -> u8 {
    if logit.units < -50_000_000 {
        0
    } else if logit.units < 50_000_000 {
        1
    } else {
        2
    }
}

/// The class of a logit: zero is passive, one neutral, two aggressive.
pub fn aggressiveness_of(logit: Amount) -> (r: u8)
    ensures
        r == aggressiveness(logit),
{
    if logit.units < -50_000_000 {
        0
    } else if logit.units < 50_000_000 {
        1
    } else {
        2
    }
}

/// What an expert does on average, and how far that varies: the participation
/// rate and the logit of the aggressiveness.
#[derive(Debug, Clone, Copy, PartialEq, Eq, Structural)]
pub struct ExpertStats {
    pub participation_mean: Amount,
    pub participation_std: Amount,
    pub logit_mean: Amount,
    pub logit_std: Amount,
}

/// Added to a deviation so that it is not zero: one millionth.
pub const SMALLEST_STD: i64 = 100;

/// How many deviations a value lies off the mean.
pub open spec fn deviations(value: Amount, mean: Amount, std: Amount) -> int {
    ratio(distance(value.units as int, mean.units as int), std.units + SMALLEST_STD)
}

fn deviations_of(value: Amount, mean: Amount, std: Amount) -> (r: i64)
    requires
        std.units + SMALLEST_STD != 0,
    ensures
        r == deviations(value, mean, std),
{
    let d: i128 = value.units as i128 - mean.units as i128;
    ratio_of(if d >= 0 { d } else { -d }, std.units as i128 + SMALLEST_STD as i128)
}

/// The participation rate for an output of the network between minus one and
/// one.
pub open spec fn participation(output: Amount) -> int {
    between(truncated_div(output.units + UNITS_PER_ONE, 2), 0, UNITS_PER_ONE as int)
}

/// The participation rate for an output of the network between minus one and
/// one.
pub fn participation_of(output: Amount) -> (r: Amount)
    ensures
        r.units == participation(output),
{
    let half: i128 = divide_wide(output.units as i128 + UNITS_PER_ONE as i128, 2);
    Amount { units: hold_between(half as i64, 0, UNITS_PER_ONE) }
}

impl ExpertStats {
    /// The defaults: half of the volume, give or take a fifth, and a logit of
    /// one, give or take a half.
    pub fn new() -> (s: Self)
        ensures
            s == (ExpertStats {
                participation_mean: Amount { units: 50_000_000 },
                participation_std: Amount { units: 20_000_000 },
                logit_mean: Amount { units: 100_000_000 },
                logit_std: Amount { units: 50_000_000 },
            }),
    {
        ExpertStats {
            participation_mean: Amount { units: 50_000_000 },
            participation_std: Amount { units: 20_000_000 },
            logit_mean: Amount { units: 100_000_000 },
            logit_std: Amount { units: 50_000_000 },
        }
    }

    /// How many deviations an action lies off what the expert does, on average
    /// over its two parts.
    pub fn distance_of(&self, participation_rate: Amount, logit: Amount) -> (r: Amount)
        requires
            self.participation_std.units + SMALLEST_STD != 0,
            self.logit_std.units + SMALLEST_STD != 0,
        ensures
            r.units == truncated_div(
                deviations(participation_rate, self.participation_mean, self.participation_std)
                    + deviations(logit, self.logit_mean, self.logit_std),
                2,
            ),
    {
        let a: i64 = deviations_of(
            participation_rate,
            self.participation_mean,
            self.participation_std,
        );
        let b: i64 = deviations_of(logit, self.logit_mean, self.logit_std);
        Amount { units: divide_wide(a as i128 + b as i128, 2) as i64 }
    }
}

/// The sum of the products of inputs and the weights from `start` on, of the
/// first `n`.
pub open spec fn weighted_sum(
    input: Seq<Amount>,
    weights: Seq<Amount>,
    start: int,
    n: nat,
) -> int
    decreases n,
{
    if n == 0 {
        0
    } else {
        weighted_sum(input, weights, start, (n - 1) as nat) + product(
            input[n - 1].units as int,
            weights[start + n - 1].units as int,
        )
    }
}

proof fn lemma_weighted_sum_bounds(
    input: Seq<Amount>,
    weights: Seq<Amount>,
    start: int,
    n: nat,
)
    ensures
        n * i64::MIN <= weighted_sum(input, weights, start, n) <= n * i64::MAX,
    decreases n,
{
    if n > 0 {
        lemma_weighted_sum_bounds(input, weights, start, (n - 1) as nat);
        let k = n as int;
        assert((k - 1) * i64::MIN + i64::MIN == k * i64::MIN) by (nonlinear_arith);
        assert((k - 1) * i64::MAX + i64::MAX == k * i64::MAX) by (nonlinear_arith);
    }
}

/// A layer of a network: a weighted sum for each output, negative ones cut off.
#[derive(Debug, Clone)]
pub struct LinearLayer {
    /// The weights of the first output, then those of the second, and so on.
    pub weights: Vec<Amount>,
    pub biases: Vec<Amount>,
    pub input_dim: usize,
    pub output_dim: usize,
}

impl LinearLayer {
    /// There is a bias for each output, and a weight for each input of each
    /// output.
    pub open spec fn wf(&self) -> bool {
        &&& self.weights@.len() == self.input_dim * self.output_dim
        &&& self.biases@.len() == self.output_dim
    }

    /// Whether all weights are a hundredth and all biases zero.
    pub open spec fn is_untrained(&self) -> bool {
        &&& forall|i: int|
            0 <= i < self.weights@.len() ==> (#[trigger] self.weights@[i]).units == 1_000_000
        &&& forall|i: int| 0 <= i < self.biases@.len() ==> (#[trigger] self.biases@[i]).units == 0
    }

    /// An output for inputs.
    pub open spec fn output(&self, input: Seq<Amount>, i: int) -> Amount {
        let sum = self.biases@[i].units + weighted_sum(
            input,
            self.weights@,
            i * self.input_dim,
            self.input_dim as nat,
        );
        Amount { units: larger(saturated(sum), 0) as i64 }
    }

    /// The outputs for inputs.
    pub open spec fn outputs(&self, input: Seq<Amount>) -> Seq<Amount> {
        Seq::new(self.output_dim as nat, |i: int| self.output(input, i))
    }

    /// A layer whose weights are one hundredth each, and whose biases are zero.
    pub fn new(input_dim: usize, output_dim: usize) -> (l: Self)
        requires
            input_dim * output_dim <= usize::MAX,
        ensures
            l.wf(),
            l.input_dim == input_dim,
            l.output_dim == output_dim,
            l.is_untrained(),
    {
        let count: usize = input_dim * output_dim;
        let mut weights: Vec<Amount> = Vec::new();
        while weights.len() < count
            invariant
                weights@.len() <= count,
                forall|i: int|
                    0 <= i < weights@.len() ==> (#[trigger] weights@[i]).units == 1_000_000,
            decreases count - weights@.len(),
        {
            weights.push(Amount { units: 1_000_000 });
        }
        let mut biases: Vec<Amount> = Vec::new();
        while biases.len() < output_dim
            invariant
                biases@.len() <= output_dim,
                forall|i: int| 0 <= i < biases@.len() ==> (#[trigger] biases@[i]).units == 0,
            decreases output_dim - biases@.len(),
        {
            biases.push(Amount::zero());
        }
        LinearLayer { weights, biases, input_dim, output_dim }
    }

    /// The outputs for inputs.
    pub fn forward(&self, input: &[Amount]) -> (r: Vec<Amount>)
        requires
            self.wf(),
            input@.len() >= self.input_dim,
        ensures
            r@ == self.outputs(input@),
    {
        let mut out: Vec<Amount> = Vec::new();
        let mut i: usize = 0;
        let count: usize = self.weights.len();
        while i < self.output_dim
            invariant
                i <= self.output_dim,
                count == self.weights@.len(),
                self.wf(),
                input@.len() >= self.input_dim,
                out@ == self.outputs(input@).take(i as int),
            decreases self.output_dim - i,
        {
            let ghost start = i as int * self.input_dim as int;
            proof {
                let m = self.input_dim as int;
                let n = self.output_dim as int;
                let k = i as int;
                assert(0 <= k * m && k * m + m <= m * n) by (nonlinear_arith)
                    requires
                        0 <= k < n,
                        m >= 0,
                ;
            }
            let base: usize = i * self.input_dim;
            let mut sum: i128 = 0;
            let mut j: usize = 0;
            while j < self.input_dim
                invariant
                    j <= self.input_dim,
                    base == start,
                    self.wf(),
                    base + self.input_dim <= count,
                    count == self.weights@.len(),
                    input@.len() >= self.input_dim,
                    sum == weighted_sum(input@, self.weights@, start, j as nat),
                decreases self.input_dim - j,
            {
                proof {
                    lemma_weighted_sum_bounds(input@, self.weights@, start, (j + 1) as nat);
                    let k = j + 1;
                    assert(k * i64::MIN > i128::MIN && k * i64::MAX < i128::MAX)
                        by (nonlinear_arith)
                        requires
                            0 <= k <= 0xffff_ffff_ffff_ffff,
                    ;
                }
                sum = sum + product_of(input[j].units, self.weights[base + j].units) as i128;
                j += 1;
            }
            proof {
                lemma_weighted_sum_bounds(
                    input@,
                    self.weights@,
                    start,
                    self.input_dim as nat,
                );
                let k = self.input_dim as int;
                assert(k * i64::MIN + i64::MIN >= i128::MIN && k * i64::MAX + i64::MAX
                    <= i128::MAX) by (nonlinear_arith)
                    requires
                        0 <= k <= 0xffff_ffff_ffff_ffff,
                ;
            }
            let total: i64 = saturate(self.biases[i].units as i128 + sum);
            out.push(Amount { units: if total >= 0 { total } else { 0 } });
            i += 1;
            assert(out@ =~= self.outputs(input@).take(i as int));
        }
        assert(out@ =~= self.outputs(input@));
        out
    }
}

/// How many numbers describe a state.
pub const FEATURES: usize = 56;

/// A state of the market.
#[derive(Debug, Clone)]
pub struct BCState {
    pub features: [Amount; 56],
    pub timestamp_ns: u64,
}

/// A network of three layers that imitates an expert. Its last outputs are
/// squashed, and the confidence computed, by the engine's owner.
#[derive(Debug, Clone)]
pub struct BehavioralCloningEngine {
    pub first: LinearLayer,
    pub second: LinearLayer,
    pub third: LinearLayer,
    pub stats: ExpertStats,
}

impl BehavioralCloningEngine {
    /// The layers fit together.
    pub open spec fn wf(&self) -> bool {
        &&& self.first.wf() && self.first.input_dim == FEATURES && self.first.output_dim == 64
        &&& self.second.wf() && self.second.input_dim == 64 && self.second.output_dim == 32
        &&& self.third.wf() && self.third.input_dim == 32 && self.third.output_dim == 2
    }

    /// What the last layer puts out for a state.
    pub open spec fn activation(&self, features: Seq<Amount>) -> Seq<Amount> {
        self.third.outputs(self.second.outputs(self.first.outputs(features)))
    }

    /// A network with the weights of new layers.
    pub fn new() -> (e: Self)
        ensures
            e.wf(),
            e.first.is_untrained(),
            e.second.is_untrained(),
            e.third.is_untrained(),
            e.stats.participation_mean.units == 50_000_000,
            e.stats.participation_std.units == 20_000_000,
            e.stats.logit_mean.units == 100_000_000,
            e.stats.logit_std.units == 50_000_000,
    {
        BehavioralCloningEngine {
            first: LinearLayer::new(FEATURES, 64),
            second: LinearLayer::new(64, 32),
            third: LinearLayer::new(32, 2),
            stats: ExpertStats::new(),
        }
    }

    /// Sets what the expert does on average, and how far that varies.
    pub fn set_expert_stats(&mut self, mean: [Amount; 2], std: [Amount; 2])
        ensures
            *final(self) == (BehavioralCloningEngine {
                stats: ExpertStats {
                    participation_mean: mean@[0],
                    participation_std: std@[0],
                    logit_mean: mean@[1],
                    logit_std: std@[1],
                },
                ..*old(self)
            }),
    {
        self.stats = ExpertStats {
            participation_mean: mean[0],
            participation_std: std[0],
            logit_mean: mean[1],
            logit_std: std[1],
        };
    }

    /// What the last layer puts out for a state, before it is squashed: one
    /// number for the participation, one for the aggressiveness.
    pub fn activate(&self, state: &BCState) -> (r: (Amount, Amount))
        requires
            self.wf(),
        ensures
            r.0 == self.activation(state.features@)[0],
            r.1 == self.activation(state.features@)[1],
    {
        let first = self.first.forward(state.features.as_slice());
        let second = self.second.forward(first.as_slice());
        let third = self.third.forward(second.as_slice());
        (third[0], third[1])
    }

    /// The action for outputs that were squashed, with a confidence.
    pub fn action(&self, participation_output: Amount, logit: Amount, confidence: Amount) -> (r:
        BCAction)
        ensures
            r.participation_rate.units == participation(participation_output),
            r.aggressiveness == aggressiveness(logit),
            r.confidence == confidence,
            !r.is_fallback,
    {
        BCAction {
            participation_rate: participation_of(participation_output),
            aggressiveness: aggressiveness_of(logit),
            confidence,
            is_fallback: false,
        }
    }
}

/// How many actions are fallbacks.
pub open spec fn fallbacks(s: Seq<BCAction>) -> nat
    decreases s.len(),
{
    if s.len() == 0 {
        0
    } else {
        fallbacks(s.drop_last()) + if s.last().is_fallback {
            1nat
        } else {
            0
        }
    }
}

/// The sum of the actions' confidences.
pub open spec fn confidence_sum(s: Seq<BCAction>) -> int
    decreases s.len(),
{
    if s.len() == 0 {
        0
    } else {
        confidence_sum(s.drop_last()) + s.last().confidence.units
    }
}

/// Prefers the learned policy while it is confident.
#[derive(Debug, Clone)]
pub struct HybridExecutor {
    pub confidence_threshold: Amount,
    pub action_history: Vec<BCAction>,
    pub max_history: usize,
}

impl HybridExecutor {
    /// No more is remembered than allowed.
    pub open spec fn wf(&self) -> bool {
        self.action_history@.len() <= self.max_history && self.max_history == 100
    }

    /// The action taken: the learned one where it is confident enough, else the
    /// cloned one, as a fallback.
    pub open spec fn chosen(&self, learned: Option<LearnedAction>, cloned: BCAction) -> BCAction {
        if learned is Some && learned->0.confidence.units >= self.confidence_threshold.units {
            BCAction {
                participation_rate: learned->0.participation_rate,
                aggressiveness: learned->0.aggressiveness,
                confidence: learned->0.confidence,
                is_fallback: false,
            }
        } else {
            BCAction { is_fallback: true, ..cloned }
        }
    }

    /// An executor without memory.
    pub fn new(confidence_threshold: Amount) -> (e: Self)
        ensures
            e.wf(),
            e.confidence_threshold == confidence_threshold,
            e.action_history@.len() == 0,
            e.max_history == 100,
    {
        HybridExecutor { confidence_threshold, action_history: Vec::new(), max_history: 100 }
    }

    /// The action taken, given the learned one where there is one, and the
    /// cloned one.
    pub fn execute(&self, rl_action: Option<LearnedAction>, bc_action: &BCAction) -> (r: BCAction)
        ensures
            r == self.chosen(rl_action, *bc_action),
    {
        if let Some(learned) = rl_action {
            if learned.confidence.units >= self.confidence_threshold.units {
                return BCAction {
                    participation_rate: learned.participation_rate,
                    aggressiveness: learned.aggressiveness,
                    confidence: learned.confidence,
                    is_fallback: false,
                };
            }
        }
        BCAction {
            participation_rate: bc_action.participation_rate,
            aggressiveness: bc_action.aggressiveness,
            confidence: bc_action.confidence,
            is_fallback: true,
        }
    }

    /// Remembers an action; the oldest beyond a hundred is forgotten.
    pub fn record_action(&mut self, action: BCAction)
        requires
            old(self).wf(),
        ensures
            final(self).wf(),
            final(self).action_history@ == newest(old(self).action_history@.push(action), 100),
            final(self).confidence_threshold == old(self).confidence_threshold,
    {
        let ghost grown = self.action_history@.push(action);
        if self.action_history.len() >= self.max_history {
            self.action_history.remove(0);
        }
        self.action_history.push(action);
        assert(self.action_history@ =~= newest(grown, 100));
    }

    /// How many of the remembered actions are fallbacks, and how many there are.
    pub fn get_fallback_rate(&self) -> (r: (usize, usize))
        ensures
            r.0 == fallbacks(self.action_history@),
            r.1 == self.action_history@.len(),
    {
        let mut count: usize = 0;
        let mut i: usize = 0;
        assert(self.action_history@.take(0) =~= Seq::empty());
        while i < self.action_history.len()
            invariant
                i <= self.action_history@.len(),
                count == fallbacks(self.action_history@.take(i as int)),
                count <= i,
            decreases self.action_history@.len() - i,
        {
            assert(self.action_history@.take(i + 1).drop_last() =~= self.action_history@.take(
                i as int,
            ));
            if self.action_history[i].is_fallback {
                count += 1;
            }
            i += 1;
        }
        assert(self.action_history@.take(self.action_history@.len() as int)
            =~= self.action_history@);
        (count, self.action_history.len())
    }

    /// The sum of the remembered confidences, in amount units, and how many
    /// there are.
    pub fn get_avg_confidence(&self) -> (r: (i128, usize))
        requires
            self.wf(),
        ensures
            r.0 == confidence_sum(self.action_history@),
            r.1 == self.action_history@.len(),
    {
        let mut sum: i128 = 0;
        let mut i: usize = 0;
        assert(self.action_history@.take(0) =~= Seq::empty());
        while i < self.action_history.len()
            invariant
                i <= self.action_history@.len() <= 100,
                sum == confidence_sum(self.action_history@.take(i as int)),
                -(0x8000_0000_0000_0000 * i) <= sum <= 0x8000_0000_0000_0000 * i,
            decreases self.action_history@.len() - i,
        {
            assert(self.action_history@.take(i + 1).drop_last() =~= self.action_history@.take(
                i as int,
            ));
            sum = sum + self.action_history[i].confidence.units as i128;
            i += 1;
        }
        assert(self.action_history@.take(self.action_history@.len() as int)
            =~= self.action_history@);
        (sum, self.action_history.len())
    }
}

impl Default for HybridExecutor {
    fn default() -> (e: Self)
        ensures
            e.wf(),
            e.confidence_threshold.units == 70_000_000,
            e.action_history@.len() == 0,
            e.max_history == 100,
    {
        HybridExecutor::new(Amount { units: 70_000_000 })
    }
}

/// Without a confident learned action the cloned one is taken, marked as a
/// fallback.
pub proof fn law_fallback(e: HybridExecutor, learned: Option<LearnedAction>, cloned: BCAction)
    requires
        learned is None || learned->0.confidence.units < e.confidence_threshold.units,
    ensures
        e.chosen(learned, cloned).is_fallback,
        e.chosen(learned, cloned).participation_rate == cloned.participation_rate,
        e.chosen(learned, cloned).aggressiveness == cloned.aggressiveness,
        e.chosen(learned, cloned).confidence == cloned.confidence,
{
}

} // verus!
