//! An ensemble of models: which predictions vote and with what weight, whose
//! record an outcome belongs to, and how long an aggregate is good. Predictions,
//! confidences and weights are decimal numbers with eight places.

use std::collections::VecDeque;
use vstd::prelude::*;
use crate::base::amount::{distance, Amount, UNITS_PER_ONE};
use crate::base::clock::now_ns;
use crate::base::numbers::{
    divide_truncated, product, product_of, quotient, ratio, ratio_of, saturate, saturated, share,
    share_of, truncated_div, ProductSum,
};
use crate::base::sequences::newest;
use crate::base::text::{contains, contains_part};

verus! {

/// Kind of a model.
#[derive(Debug, Clone, Copy, PartialEq, Eq, Structural)]
pub enum ModelType {
    Supervised,
    DeepLearning,
    Reinforcement,
}

/// State of the market.
#[derive(Debug, Clone, Copy, PartialEq, Eq, Structural)]
pub enum MarketRegime {
    Trending,
    Ranging,
    Volatile,
    Unknown,
}

/// A prediction of one model.
#[derive(Debug, Clone)]
pub struct ModelPrediction {
    pub model_id: String,
    pub prediction: Amount,
    pub confidence: Amount,
    /// When the prediction was made, in nanoseconds.
    pub timestamp_ns: u64,
    pub model_type: ModelType,
}

/// A prediction that is off by less than this many units counts as right.
pub const CORRECT_WITHIN: i64 = 1_000_000;

/// The record of a kind of models.
pub struct ModelPerformance {
    pub total_predictions: usize,
    pub correct_predictions: usize,
    pub cumulative_error: Amount,
    /// The newest errors, oldest first.
    pub last_n_errors: VecDeque<Amount>,
    /// The part of the predictions that was right.
    pub win_rate: Amount,
    /// An average in which the newest confidence counts one tenth.
    pub avg_confidence: Amount,
    /// How many errors are kept.
    pub window: usize,
}

/// How far a prediction was off.
pub open spec fn error_of(prediction: Amount, actual: Amount) -> int {
    saturated(distance(prediction.units as int, actual.units as int))
}

/// The sum of the squares.
pub open spec fn square_sum(s: Seq<Amount>) -> int
    decreases s.len(),
{
    if s.len() == 0 {
        0
    } else {
        square_sum(s.drop_last()) + product(s.last().units as int, s.last().units as int)
    }
}

proof fn lemma_square_sum_bounds(s: Seq<Amount>)
    ensures
        0 <= square_sum(s) <= s.len() * i64::MAX,
    decreases s.len(),
{
    if s.len() > 0 {
        lemma_square_sum_bounds(s.drop_last());
        let e = s.last().units as int;
        assert(e * e >= 0) by (nonlinear_arith);
        assert((s.len() - 1) * i64::MAX + i64::MAX == s.len() * i64::MAX) by (nonlinear_arith);
    }
}

impl ModelPerformance {
    /// No more predictions were right than were made.
    pub open spec fn wf(&self) -> bool {
        &&& self.correct_predictions <= self.total_predictions
        &&& self.last_n_errors@.len() <= self.window
    }

    /// Whether nothing was recorded yet.
    pub open spec fn is_empty(&self) -> bool {
        &&& self.total_predictions == 0
        &&& self.correct_predictions == 0
        &&& self.cumulative_error.units == 0
        &&& self.last_n_errors@.len() == 0
        &&& self.win_rate.units == 0
        &&& self.avg_confidence.units == 0
    }

    /// An empty record.
    pub fn new(window_size: usize) -> (p: Self)
        ensures
            p.wf(),
            p.is_empty(),
            p.window == window_size,
    {
        ModelPerformance {
            total_predictions: 0,
            correct_predictions: 0,
            cumulative_error: Amount::zero(),
            last_n_errors: VecDeque::new(),
            win_rate: Amount::zero(),
            avg_confidence: Amount::zero(),
            window: window_size,
        }
    }

    /// Whether `after` is the record once the outcome of a prediction was taken
    /// in.
    pub open spec fn updated(
        &self,
        after: &Self,
        prediction: Amount,
        actual: Amount,
        confidence: Amount,
    ) -> bool {
        let error = error_of(prediction, actual);
        &&& after.total_predictions == self.total_predictions + 1
        &&& after.correct_predictions == self.correct_predictions + (if error < CORRECT_WITHIN {
            1int
        } else {
            0
        })
        &&& after.cumulative_error.units == saturated(self.cumulative_error.units + error)
        &&& after.last_n_errors@ == newest(
            self.last_n_errors@.push(Amount { units: error as i64 }),
            self.window as nat,
        )
        &&& after.win_rate.units == share(
            after.correct_predictions as int,
            after.total_predictions as int,
        )
        &&& after.avg_confidence.units == truncated_div(
            confidence.units + 9 * self.avg_confidence.units,
            10,
        )
        &&& after.window == self.window
    }

    /// Takes in the outcome of a prediction.
    pub fn update(&mut self, prediction: Amount, actual: Amount, confidence: Amount)
        requires
            old(self).wf(),
            old(self).total_predictions < usize::MAX,
        ensures
            final(self).wf(),
            old(self).updated(final(self), prediction, actual, confidence),
    {
        let d: i128 = prediction.units as i128 - actual.units as i128;
        let error: i64 = saturate(if d < 0 { -d } else { d });
        self.total_predictions = self.total_predictions + 1;
        self.cumulative_error = Amount {
            units: saturate(self.cumulative_error.units as i128 + error as i128),
        };
        if error < CORRECT_WITHIN {
            self.correct_predictions = self.correct_predictions + 1;
        }
        self.last_n_errors.push_back(Amount { units: error });
        if self.last_n_errors.len() > self.window {
            let _ = self.last_n_errors.pop_front();
        }
        assert(self.last_n_errors@ =~= newest(
            old(self).last_n_errors@.push(Amount { units: error }),
            old(self).window as nat,
        ));
        self.win_rate = Amount {
            units: share_of(self.correct_predictions as i128, self.total_predictions as u128),
        };
        let weighed: i128 = confidence.units as i128 + 9 * (self.avg_confidence.units as i128);
        self.avg_confidence = Amount { units: divide_truncated(weighed, 10) as i64 };
    }

    /// The mean of the squares of the newest errors, or one where there are
    /// none.
    pub open spec fn mse(&self) -> int {
        if self.last_n_errors@.len() == 0 {
            UNITS_PER_ONE as int
        } else {
            square_sum(self.last_n_errors@) / self.last_n_errors@.len() as int
        }
    }

    /// The mean of the squares of the newest errors, or one where there are
    /// none.
    pub fn recent_mse(&self) -> (r: Amount)
        ensures
            r.units == self.mse(),
    {
        let n: usize = self.last_n_errors.len();
        if n == 0 {
            return Amount { units: UNITS_PER_ONE };
        }
        let ghost s = self.last_n_errors@;
        let mut sum: u128 = 0;
        let mut i: usize = 0;
        assert(s.take(0) =~= Seq::empty());
        while i < n
            invariant
                i <= n,
                n == s.len(),
                s == self.last_n_errors@,
                sum == square_sum(s.take(i as int)),
            decreases n - i,
        {
            proof {
                assert(s.take(i + 1).drop_last() =~= s.take(i as int));
                assert(s.take(i + 1).last() == s[i as int]);
                lemma_square_sum_bounds(s.take(i as int));
                let bound = i as int;
                assert(bound * i64::MAX <= 0x1_0000_0000_0000_0000 * i64::MAX)
                    by (nonlinear_arith)
                    requires
                        0 <= bound <= 0x1_0000_0000_0000_0000,
                ;
                let e = s[i as int].units as int;
                assert(e * e >= 0) by (nonlinear_arith);
            }
            let e: i64 = self.last_n_errors[i].units;
            sum = sum + product_of(e, e) as u128;
            i += 1;
        }
        proof {
            assert(s.take(n as int) =~= s);
            lemma_square_sum_bounds(s);
            let total = sum as int;
            let count = n as int;
            assert(0 <= total / count <= i64::MAX) by (nonlinear_arith)
                requires
                    0 <= total <= count * i64::MAX,
                    count > 0,
            ;
        }
        Amount { units: (sum / n as u128) as i64 }
    }
}

/// A weight for each kind of models.
#[derive(Debug, Clone, Copy, PartialEq, Eq, Structural)]
pub struct ModelWeights {
    pub supervised: Amount,
    pub deep_learning: Amount,
    pub reinforcement: Amount,
}

impl ModelWeights {
    /// The sum of the weights.
    pub open spec fn total(self) -> int {
        self.supervised.units + self.deep_learning.units + self.reinforcement.units
    }

    /// The weight of a kind of models.
    pub open spec fn of(self, kind: ModelType) -> Amount {
        match kind {
            ModelType::Supervised => self.supervised,
            ModelType::DeepLearning => self.deep_learning,
            ModelType::Reinforcement => self.reinforcement,
        }
    }

    /// A weight of one for each.
    pub open spec fn all_equal() -> ModelWeights {
        ModelWeights {
            supervised: Amount { units: UNITS_PER_ONE },
            deep_learning: Amount { units: UNITS_PER_ONE },
            reinforcement: Amount { units: UNITS_PER_ONE },
        }
    }

    /// Each weight as a part of the sum; a weight of one for each where the sum
    /// is zero.
    pub open spec fn normalized(self) -> ModelWeights {
        if self.total() == 0 {
            Self::all_equal()
        } else {
            ModelWeights {
                supervised: Amount {
                    units: ratio(self.supervised.units as int, self.total()) as i64,
                },
                deep_learning: Amount {
                    units: ratio(self.deep_learning.units as int, self.total()) as i64,
                },
                reinforcement: Amount {
                    units: ratio(self.reinforcement.units as int, self.total()) as i64,
                },
            }
        }
    }

    /// A weight of one for each.
    pub fn equal() -> (w: Self)
        ensures
            w == Self::all_equal(),
    {
        ModelWeights {
            supervised: Amount { units: UNITS_PER_ONE },
            deep_learning: Amount { units: UNITS_PER_ONE },
            reinforcement: Amount { units: UNITS_PER_ONE },
        }
    }

    /// Each weight as a part of the sum; a weight of one for each where the sum
    /// is zero.
    pub fn normalize(&self) -> (w: Self)
        ensures
            w == self.normalized(),
    {
        let total: i128 = self.supervised.units as i128 + self.deep_learning.units as i128
            + self.reinforcement.units as i128;
        if total == 0 {
            return Self::equal();
        }
        ModelWeights {
            supervised: Amount { units: ratio_of(self.supervised.units as i128, total) },
            deep_learning: Amount { units: ratio_of(self.deep_learning.units as i128, total) },
            reinforcement: Amount { units: ratio_of(self.reinforcement.units as i128, total) },
        }
    }
}

/// Settings of an ensemble.
#[derive(Debug, Clone, Copy, PartialEq, Eq, Structural)]
pub struct EnsembleConfig {
    pub performance_window: usize,
    /// From this many predictions on the record weighs in.
    pub min_predictions_for_weight: usize,
    pub base_weights: ModelWeights,
    pub regime_adaptive: bool,
    /// Predictions of less confidence do not vote.
    pub confidence_threshold: Amount,
    /// How strongly errors lower the weight of a record.
    pub decay_factor: Amount,
}

impl Default for EnsembleConfig {
    fn default() -> (c: Self)
        ensures
            c.performance_window == 100,
            c.min_predictions_for_weight == 10,
            c.base_weights == ModelWeights::all_equal(),
            c.regime_adaptive,
            c.confidence_threshold.units == 50_000_000,
            c.decay_factor.units == 2 * UNITS_PER_ONE,
    {
        EnsembleConfig {
            performance_window: 100,
            min_predictions_for_weight: 10,
            base_weights: ModelWeights::equal(),
            regime_adaptive: true,
            confidence_threshold: Amount { units: 50_000_000 },
            decay_factor: Amount::whole(2),
        }
    }
}

/// Who voted for what with which weight, and the outcome. All is zero where a
/// kind of models did not vote.
#[derive(Debug, Clone, Copy, PartialEq, Eq, Structural)]
pub struct VoteBreakdown {
    pub supervised_vote: Amount,
    pub supervised_weight: Amount,
    pub deep_learning_vote: Amount,
    pub deep_learning_weight: Amount,
    pub reinforcement_vote: Amount,
    pub reinforcement_weight: Amount,
    pub final_prediction: Amount,
    pub final_confidence: Amount,
}

/// An aggregate and when it was made.
#[derive(Debug, Clone, Copy, PartialEq, Eq, Structural)]
pub struct CachedAggregate {
    pub prediction: Amount,
    pub confidence: Amount,
    pub timestamp_ns: u64,
    pub votes: VoteBreakdown,
}

/// How many predictions are kept.
pub const BUFFER_SIZE: usize = 1000;

/// An aggregate is good for this long, in nanoseconds.
pub const CACHE_LIFETIME_NS: u64 = 1_000_000;

/// The kind of models that an identifier belongs to.
pub open spec fn kind_of(id: Seq<char>) -> Option<ModelType> {
    if contains_part(id, "supervised"@) || contains_part(id, "xgb"@) || contains_part(
        id,
        "lgb"@,
    ) {
        Some(ModelType::Supervised)
    } else if contains_part(id, "deep"@) || contains_part(id, "lstm"@) || contains_part(
        id,
        "transformer"@,
    ) {
        Some(ModelType::DeepLearning)
    } else if contains_part(id, "rl"@) || contains_part(id, "reinforcement"@) {
        Some(ModelType::Reinforcement)
    } else {
        None
    }
}

/// The kind of models that an identifier belongs to.
pub fn model_kind(model_id: &str) -> (r: Option<ModelType>)
    ensures
        r == kind_of(model_id@),
{
    if contains(model_id, "supervised") || contains(model_id, "xgb") || contains(model_id, "lgb") {
        Some(ModelType::Supervised)
    } else if contains(model_id, "deep") || contains(model_id, "lstm") || contains(
        model_id,
        "transformer",
    ) {
        Some(ModelType::DeepLearning)
    } else if contains(model_id, "rl") || contains(model_id, "reinforcement") {
        Some(ModelType::Reinforcement)
    } else {
        None
    }
}

/// The kind of models that does best in a state of the market.
pub open spec fn favoured(regime: MarketRegime) -> Option<ModelType> {
    match regime {
        MarketRegime::Trending => Some(ModelType::DeepLearning),
        MarketRegime::Ranging => Some(ModelType::Supervised),
        MarketRegime::Volatile => Some(ModelType::Reinforcement),
        MarketRegime::Unknown => None,
    }
}

/// Where the newest prediction of a kind stands, or a negative number.
pub open spec fn latest_index(s: Seq<ModelPrediction>, kind: ModelType) -> int
    decreases s.len(),
{
    if s.len() == 0 {
        -1
    } else if s.last().model_type == kind {
        s.len() - 1
    } else {
        latest_index(s.drop_last(), kind)
    }
}

/// The newest prediction of a kind is of that kind, and none behind it is.
pub proof fn law_latest(s: Seq<ModelPrediction>, kind: ModelType)
    ensures
        -1 <= latest_index(s, kind) < s.len(),
        latest_index(s, kind) >= 0 ==> s[latest_index(s, kind)].model_type == kind,
        forall|i: int| latest_index(s, kind) < i < s.len() ==> (#[trigger] s[i]).model_type != kind,
    decreases s.len(),
{
    if s.len() > 0 && s.last().model_type != kind {
        law_latest(s.drop_last(), kind);
        assert forall|i: int| latest_index(s, kind) < i < s.len() implies (
        #[trigger] s[i]).model_type != kind by {
            if i < s.len() - 1 {
                assert(s.drop_last()[i] == s[i]);
            }
        }
    }
}

/// What the weight of the favoured kind is multiplied by: six fifths.
pub const FAVOUR: i64 = 120_000_000;

/// What a vote adds to the sum of predictions and of confidences, and to the
/// weight.
pub open spec fn ballot(vote: Option<(Amount, Amount)>, weight: Amount) -> (int, int, int) {
    match vote {
        Some(v) => (
            v.0.units * weight.units,
            v.1.units * weight.units,
            weight.units as int,
        ),
        None => (0, 0, 0),
    }
}

/// The prediction that was voted for, or zero.
pub open spec fn voted(vote: Option<(Amount, Amount)>) -> Amount {
    match vote {
        Some(v) => v.0,
        None => Amount { units: 0 },
    }
}

/// The weight of a vote that was cast, or zero.
pub open spec fn weighed(vote: Option<(Amount, Amount)>, weight: Amount) -> Amount {
    match vote {
        Some(v) => weight,
        None => Amount { units: 0 },
    }
}

/// The outcome of a vote: the averages of the predictions and of the
/// confidences, by weight. There is none where the votes weigh nothing.
pub open spec fn tally(
    supervised: Option<(Amount, Amount)>,
    deep_learning: Option<(Amount, Amount)>,
    reinforcement: Option<(Amount, Amount)>,
    w: ModelWeights,
) -> Option<VoteBreakdown> {
    let s = ballot(supervised, w.supervised);
    let d = ballot(deep_learning, w.deep_learning);
    let r = ballot(reinforcement, w.reinforcement);
    let total = s.2 + d.2 + r.2;
    if total == 0 {
        None
    } else {
        Some(
            VoteBreakdown {
                supervised_vote: voted(supervised),
                supervised_weight: weighed(supervised, w.supervised),
                deep_learning_vote: voted(deep_learning),
                deep_learning_weight: weighed(deep_learning, w.deep_learning),
                reinforcement_vote: voted(reinforcement),
                reinforcement_weight: weighed(reinforcement, w.reinforcement),
                final_prediction: Amount {
                    units: saturated(quotient(s.0 + d.0 + r.0, total)) as i64,
                },
                final_confidence: Amount {
                    units: saturated(quotient(s.1 + d.1 + r.1, total)) as i64,
                },
            },
        )
    }
}

/// The outcome of a vote.
pub fn count_votes(
    supervised: Option<(Amount, Amount)>,
    deep_learning: Option<(Amount, Amount)>,
    reinforcement: Option<(Amount, Amount)>,
    w: ModelWeights,
) -> (r: Option<VoteBreakdown>)
    ensures
        r == tally(supervised, deep_learning, reinforcement, w),
{
    let zero = Amount::zero();
    let mut votes = VoteBreakdown {
        supervised_vote: zero,
        supervised_weight: zero,
        deep_learning_vote: zero,
        deep_learning_weight: zero,
        reinforcement_vote: zero,
        reinforcement_weight: zero,
        final_prediction: zero,
        final_confidence: zero,
    };
    let mut predictions = ProductSum::new();
    let mut confidences = ProductSum::new();
    let mut total: i128 = 0;
    if let Some((prediction, confidence)) = supervised {
        votes.supervised_vote = prediction;
        votes.supervised_weight = w.supervised;
        predictions.add_product(prediction.units, w.supervised.units);
        confidences.add_product(confidence.units, w.supervised.units);
        total = total + w.supervised.units as i128;
    }
    if let Some((prediction, confidence)) = deep_learning {
        votes.deep_learning_vote = prediction;
        votes.deep_learning_weight = w.deep_learning;
        predictions.add_product(prediction.units, w.deep_learning.units);
        confidences.add_product(confidence.units, w.deep_learning.units);
        total = total + w.deep_learning.units as i128;
    }
    if let Some((prediction, confidence)) = reinforcement {
        votes.reinforcement_vote = prediction;
        votes.reinforcement_weight = w.reinforcement;
        predictions.add_product(prediction.units, w.reinforcement.units);
        confidences.add_product(confidence.units, w.reinforcement.units);
        total = total + w.reinforcement.units as i128;
    }
    if total == 0 {
        return None;
    }
    votes.final_prediction = Amount { units: predictions.divided_by(total) };
    votes.final_confidence = Amount { units: confidences.divided_by(total) };
    Some(votes)
}

/// Where only one kind of models votes, it decides.
pub proof fn law_lone_vote_decides(kind: ModelType, vote: (Amount, Amount), w: ModelWeights)
    requires
        w.of(kind).units != 0,
    ensures
        tally(
            if kind == ModelType::Supervised {
                Some(vote)
            } else {
                None
            },
            if kind == ModelType::DeepLearning {
                Some(vote)
            } else {
                None
            },
            if kind == ModelType::Reinforcement {
                Some(vote)
            } else {
                None
            },
            w,
        ) matches Some(v) && v.final_prediction == vote.0 && v.final_confidence == vote.1,
{
    lemma_quotient_of_product(vote.0.units as int, w.of(kind).units as int);
    lemma_quotient_of_product(vote.1.units as int, w.of(kind).units as int);
}

proof fn lemma_quotient_of_product(x: int, y: int)
    requires
        y != 0,
    ensures
        quotient(x * y, y) == x,
{
    let d = if y < 0 {
        -y
    } else {
        y
    };
    let n = if x < 0 {
        -x
    } else {
        x
    };
    assert((n * d) / d == n) by (nonlinear_arith)
        requires
            d > 0,
    ;
    assert(n * d >= 0) by (nonlinear_arith)
        requires
            n >= 0,
            d > 0,
    ;
    assert(x * y == n * d || x * y == -(n * d)) by (nonlinear_arith)
        requires
            n == x || n == -x,
            d == y || d == -y,
    ;
    assert(x > 0 ==> n * d > 0) by (nonlinear_arith)
        requires
            x > 0 ==> n > 0,
            d > 0,
    ;
    assert((x >= 0 && y > 0) ==> x * y == n * d) by (nonlinear_arith)
        requires
            x >= 0 ==> n == x,
            y > 0 ==> d == y,
    ;
    assert((x < 0 && y > 0) ==> x * y == -(n * d)) by (nonlinear_arith)
        requires
            x < 0 ==> n == -x,
            y > 0 ==> d == y,
    ;
    assert((x >= 0 && y < 0) ==> -(x * y) == n * d) by (nonlinear_arith)
        requires
            x >= 0 ==> n == x,
            y < 0 ==> d == -y,
    ;
    assert((x < 0 && y < 0) ==> -(x * y) == -(n * d)) by (nonlinear_arith)
        requires
            x < 0 ==> n == -x,
            y < 0 ==> d == -y,
    ;
    assert(x < 0 ==> n * d > 0) by (nonlinear_arith)
        requires
            x < 0 ==> n > 0,
            d > 0,
    ;
}

/// With weights that are not negative, the outcome lies between the lowest and
/// the highest prediction that was voted for.
pub proof fn law_outcome_between_votes(
    supervised: Option<(Amount, Amount)>,
    deep_learning: Option<(Amount, Amount)>,
    reinforcement: Option<(Amount, Amount)>,
    w: ModelWeights,
    low: i64,
    high: i64,
)
    requires
        w.supervised.units >= 0,
        w.deep_learning.units >= 0,
        w.reinforcement.units >= 0,
        supervised matches Some(v) ==> low <= v.0.units <= high,
        deep_learning matches Some(v) ==> low <= v.0.units <= high,
        reinforcement matches Some(v) ==> low <= v.0.units <= high,
    ensures
        tally(supervised, deep_learning, reinforcement, w) matches Some(v) ==> low
            <= v.final_prediction.units <= high,
{
    let s = ballot(supervised, w.supervised);
    let d = ballot(deep_learning, w.deep_learning);
    let r = ballot(reinforcement, w.reinforcement);
    lemma_ballot_between(supervised, w.supervised, low, high);
    lemma_ballot_between(deep_learning, w.deep_learning, low, high);
    lemma_ballot_between(reinforcement, w.reinforcement, low, high);
    let total = s.2 + d.2 + r.2;
    let sum = s.0 + d.0 + r.0;
    if total != 0 {
        assert(low * s.2 + low * d.2 + low * r.2 == low * total) by (nonlinear_arith)
            requires
                total == s.2 + d.2 + r.2,
        ;
        assert(high * s.2 + high * d.2 + high * r.2 == high * total) by (nonlinear_arith)
            requires
                total == s.2 + d.2 + r.2,
        ;
        let a = low as int;
        let b = high as int;
        if sum >= 0 {
            assert(a <= sum / total <= b) by (nonlinear_arith)
                requires
                    a * total <= sum <= b * total,
                    total > 0,
                    sum >= 0,
            ;
        } else {
            let m = -sum;
            assert(-b <= m / total <= -a) by (nonlinear_arith)
                requires
                    a * total <= -m <= b * total,
                    total > 0,
                    m > 0,
            ;
        }
    }
}

proof fn lemma_ballot_between(
    vote: Option<(Amount, Amount)>,
    weight: Amount,
    low: i64,
    high: i64,
)
    requires
        weight.units >= 0,
        vote matches Some(v) ==> low <= v.0.units <= high,
    ensures
        ballot(vote, weight).2 >= 0,
        low * ballot(vote, weight).2 <= ballot(vote, weight).0 <= high * ballot(vote, weight).2,
{
    if let Some(v) = vote {
        let x = v.0.units as int;
        let y = weight.units as int;
        assert(low * y <= x * y <= high * y) by (nonlinear_arith)
            requires
                low <= x <= high,
                y >= 0,
        ;
    } else {
        assert(low * 0 == 0 && high * 0 == 0) by (nonlinear_arith);
    }
}

/// Weights that are not negative become parts of one that do not exceed it
/// together.
pub proof fn law_normalized_weights(w: ModelWeights)
    requires
        w.supervised.units >= 0,
        w.deep_learning.units >= 0,
        w.reinforcement.units >= 0,
        w.total() > 0,
    ensures
        w.normalized().supervised.units >= 0,
        w.normalized().deep_learning.units >= 0,
        w.normalized().reinforcement.units >= 0,
        UNITS_PER_ONE - 3 < w.normalized().total() <= UNITS_PER_ONE,
{
    let t = w.total();
    lemma_part(w.supervised.units as int, t);
    lemma_part(w.deep_learning.units as int, t);
    lemma_part(w.reinforcement.units as int, t);
    let a = ratio(w.supervised.units as int, t);
    let b = ratio(w.deep_learning.units as int, t);
    let c = ratio(w.reinforcement.units as int, t);
    assert(a + b + c <= 100_000_000 && a + b + c > 100_000_000 - 3) by (nonlinear_arith)
        requires
            a * t <= w.supervised.units * 100_000_000 < (a + 1) * t,
            b * t <= w.deep_learning.units * 100_000_000 < (b + 1) * t,
            c * t <= w.reinforcement.units * 100_000_000 < (c + 1) * t,
            t == w.supervised.units + w.deep_learning.units + w.reinforcement.units,
            t > 0,
    ;
}

proof fn lemma_part(x: int, t: int)
    requires
        0 <= x <= t,
        t > 0,
    ensures
        0 <= ratio(x, t) <= 100_000_000,
        ratio(x, t) * t <= x * 100_000_000 < (ratio(x, t) + 1) * t,
{
    let q = (x * 100_000_000) / t;
    vstd::arithmetic::div_mod::lemma_fundamental_div_mod(x * 100_000_000, t);
    vstd::arithmetic::div_mod::lemma_mod_bound(x * 100_000_000, t);
    assert(0 <= q <= 100_000_000 && q * t <= x * 100_000_000 < (q + 1) * t) by (nonlinear_arith)
        requires
            x * 100_000_000 == t * q + (x * 100_000_000) % t,
            0 <= (x * 100_000_000) % t < t,
            0 <= x <= t,
            t > 0,
    ;
}

/// Aggregates the predictions of models.
pub struct ModelEnsemble {
    pub config: EnsembleConfig,
    pub current_regime: MarketRegime,
    pub is_active: bool,
    pub supervised_perf: ModelPerformance,
    pub deep_learning_perf: ModelPerformance,
    pub reinforcement_perf: ModelPerformance,
    /// Predictions, oldest first.
    pub predictions_buffer: VecDeque<ModelPrediction>,
    pub cached_aggregate: Option<CachedAggregate>,
}

impl ModelEnsemble {
    /// The records are sound, and the buffer keeps its bound.
    pub open spec fn wf(&self) -> bool {
        &&& self.supervised_perf.wf()
        &&& self.deep_learning_perf.wf()
        &&& self.reinforcement_perf.wf()
        &&& self.predictions_buffer@.len() <= BUFFER_SIZE
    }

    /// The record of a kind of models.
    pub open spec fn perf(&self, kind: ModelType) -> ModelPerformance {
        match kind {
            ModelType::Supervised => self.supervised_perf,
            ModelType::DeepLearning => self.deep_learning_perf,
            ModelType::Reinforcement => self.reinforcement_perf,
        }
    }

    /// An active ensemble without predictions.
    pub fn new(config: EnsembleConfig) -> (e: Self)
        ensures
            e.wf(),
            e.config == config,
            e.current_regime == MarketRegime::Unknown,
            e.is_active,
            forall|k: ModelType|
                (#[trigger] e.perf(k)).is_empty() && e.perf(k).window == config.performance_window,
            e.predictions_buffer@.len() == 0,
            e.cached_aggregate is None,
    {
        ModelEnsemble {
            config,
            current_regime: MarketRegime::Unknown,
            is_active: true,
            supervised_perf: ModelPerformance::new(config.performance_window),
            deep_learning_perf: ModelPerformance::new(config.performance_window),
            reinforcement_perf: ModelPerformance::new(config.performance_window),
            predictions_buffer: VecDeque::with_capacity(BUFFER_SIZE),
            cached_aggregate: None,
        }
    }

    /// Takes in a prediction, unless the ensemble is not active. The aggregate
    /// is void then.
    pub fn submit_prediction(&mut self, prediction: ModelPrediction)
        requires
            old(self).wf(),
        ensures
            final(self).wf(),
            !old(self).is_active ==> *final(self) == *old(self),
            old(self).is_active ==> final(self).predictions_buffer@ == newest(
                old(self).predictions_buffer@.push(prediction),
                BUFFER_SIZE as nat,
            ) && *final(self) == (ModelEnsemble {
                predictions_buffer: final(self).predictions_buffer,
                cached_aggregate: None,
                ..*old(self)
            }),
    {
        if !self.is_active {
            return;
        }
        if self.predictions_buffer.len() >= BUFFER_SIZE {
            let _ = self.predictions_buffer.pop_front();
        }
        self.predictions_buffer.push_back(prediction);
        self.cached_aggregate = None;
        assert(self.predictions_buffer@ =~= newest(
            old(self).predictions_buffer@.push(prediction),
            BUFFER_SIZE as nat,
        ));
    }

    /// Takes in the outcome of a prediction. An identifier of no known kind is
    /// passed over.
    pub fn record_outcome(
        &mut self,
        model_id: &str,
        prediction: Amount,
        actual: Amount,
        confidence: Amount,
    )
        requires
            old(self).wf(),
            forall|k: ModelType| (#[trigger] old(self).perf(k)).total_predictions < usize::MAX,
        ensures
            final(self).wf(),
            forall|k: ModelType|
                Some(k) != kind_of(model_id@) ==> #[trigger] final(self).perf(k) == old(self).perf(k),
            kind_of(model_id@) matches Some(k) ==> old(self).perf(k).updated(
                &final(self).perf(k),
                prediction,
                actual,
                confidence,
            ),
            final(self).config == old(self).config,
            final(self).current_regime == old(self).current_regime,
            final(self).is_active == old(self).is_active,
            final(self).predictions_buffer == old(self).predictions_buffer,
            final(self).cached_aggregate == old(self).cached_aggregate,
    {
        match model_kind(model_id) {
            Some(ModelType::Supervised) => {
                assert(old(self).perf(ModelType::Supervised).total_predictions < usize::MAX);
                self.supervised_perf.update(prediction, actual, confidence);
            },
            Some(ModelType::DeepLearning) => {
                assert(old(self).perf(ModelType::DeepLearning).total_predictions < usize::MAX);
                self.deep_learning_perf.update(prediction, actual, confidence);
            },
            Some(ModelType::Reinforcement) => {
                assert(old(self).perf(ModelType::Reinforcement).total_predictions < usize::MAX);
                self.reinforcement_perf.update(prediction, actual, confidence);
            },
            None => {},
        }
    }

    /// Takes note of the state of the market. The aggregate is void then.
    pub fn update_regime(&mut self, regime: MarketRegime)
        ensures
            *final(self) == (ModelEnsemble {
                current_regime: regime,
                cached_aggregate: None,
                ..*old(self)
            }),
    {
        self.current_regime = regime;
        self.cached_aggregate = None;
    }

    /// Whether there is an aggregate that is still good at `now`.
    pub open spec fn fresh_at(&self, now: u64) -> bool {
        self.cached_aggregate is Some && now - self.cached_aggregate->0.timestamp_ns
            < CACHE_LIFETIME_NS
    }

    /// The newest prediction of a kind.
    pub fn latest(&self, kind: ModelType) -> (r: Option<&ModelPrediction>)
        ensures
            r is Some <==> latest_index(self.predictions_buffer@, kind) >= 0,
            r matches Some(p) ==> *p == self.predictions_buffer@[latest_index(
                self.predictions_buffer@,
                kind,
            )],
    {
        let ghost s = self.predictions_buffer@;
        let mut i: usize = self.predictions_buffer.len();
        assert(s.take(s.len() as int) =~= s);
        while i > 0
            invariant
                i <= s.len(),
                s == self.predictions_buffer@,
                latest_index(s, kind) == latest_index(s.take(i as int), kind),
            decreases i,
        {
            i -= 1;
            assert(s.take(i + 1).drop_last() =~= s.take(i as int));
            assert(s.take(i + 1).last() == s[i as int]);
            if self.predictions_buffer[i].model_type == kind {
                return Some(&self.predictions_buffer[i]);
            }
        }
        assert(s.take(0) =~= Seq::empty());
        None
    }

    /// What a kind of models votes for, and how confidently: its newest
    /// prediction, unless it is not confident enough.
    pub open spec fn vote(&self, kind: ModelType) -> Option<(Amount, Amount)> {
        let i = latest_index(self.predictions_buffer@, kind);
        if i >= 0 && self.predictions_buffer@[i].confidence.units
            >= self.config.confidence_threshold.units {
            Some((self.predictions_buffer@[i].prediction, self.predictions_buffer@[i].confidence))
        } else {
            None
        }
    }

    fn vote_of(&self, kind: ModelType) -> (r: Option<(Amount, Amount)>)
        ensures
            r == self.vote(kind),
    {
        match self.latest(kind) {
            Some(p) => {
                if p.confidence.units >= self.config.confidence_threshold.units {
                    Some((p.prediction, p.confidence))
                } else {
                    None
                }
            },
            None => None,
        }
    }

    /// The weight of a kind before the weights are made parts of their sum: the
    /// base weight, times that of the record where there is enough of it, and a
    /// fifth more for the kind that the state of the market favours.
    pub open spec fn raw_weight(&self, kind: ModelType, record: ModelWeights) -> int {
        let base = self.config.base_weights.of(kind).units as int;
        let recorded = if self.perf(kind).total_predictions
            >= self.config.min_predictions_for_weight {
            product(base, record.of(kind).units as int)
        } else {
            base
        };
        if self.config.regime_adaptive && favoured(self.current_regime) == Some(kind) {
            product(recorded, FAVOUR as int)
        } else {
            recorded
        }
    }

    /// The weights of the votes.
    pub open spec fn weights(&self, record: ModelWeights) -> ModelWeights {
        ModelWeights {
            supervised: Amount { units: self.raw_weight(ModelType::Supervised, record) as i64 },
            deep_learning: Amount {
                units: self.raw_weight(ModelType::DeepLearning, record) as i64,
            },
            reinforcement: Amount {
                units: self.raw_weight(ModelType::Reinforcement, record) as i64,
            },
        }.normalized()
    }

    fn weight_of(&self, kind: ModelType, base: Amount, total: usize, record: Amount) -> (w: Amount)
        requires
            base == self.config.base_weights.of(kind),
            total == self.perf(kind).total_predictions,
        ensures
            forall|r: ModelWeights|
                r.of(kind) == record ==> w.units == #[trigger] self.raw_weight(kind, r),
    {
        let recorded: i64 = if total >= self.config.min_predictions_for_weight {
            product_of(base.units, record.units)
        } else {
            base.units
        };
        if self.config.regime_adaptive && self.favoured_model() == Some(kind) {
            Amount { units: product_of(recorded, FAVOUR) }
        } else {
            Amount { units: recorded }
        }
    }

    /// The weights of the votes, given the weight that each record deserves.
    pub fn calculate_dynamic_weights(&self, record: ModelWeights) -> (w: ModelWeights)
        ensures
            w == self.weights(record),
    {
        let base = self.config.base_weights;
        let raw = ModelWeights {
            supervised: self.weight_of(
                ModelType::Supervised,
                base.supervised,
                self.supervised_perf.total_predictions,
                record.supervised,
            ),
            deep_learning: self.weight_of(
                ModelType::DeepLearning,
                base.deep_learning,
                self.deep_learning_perf.total_predictions,
                record.deep_learning,
            ),
            reinforcement: self.weight_of(
                ModelType::Reinforcement,
                base.reinforcement,
                self.reinforcement_perf.total_predictions,
                record.reinforcement,
            ),
        };
        assert(raw.supervised.units == self.raw_weight(ModelType::Supervised, record));
        assert(raw.deep_learning.units == self.raw_weight(ModelType::DeepLearning, record));
        assert(raw.reinforcement.units == self.raw_weight(ModelType::Reinforcement, record));
        raw.normalize()
    }

    /// The outcome of the vote, where the votes weigh anything.
    pub open spec fn outcome(&self, record: ModelWeights) -> Option<VoteBreakdown> {
        tally(
            self.vote(ModelType::Supervised),
            self.vote(ModelType::DeepLearning),
            self.vote(ModelType::Reinforcement),
            self.weights(record),
        )
    }

    /// What an aggregation at `now` gives: the aggregate that is still good, or
    /// the outcome of the vote.
    pub open spec fn answer(&self, record: ModelWeights, now: u64) -> Option<
        (Amount, Amount, VoteBreakdown),
    > {
        if self.fresh_at(now) {
            let c = self.cached_aggregate->0;
            Some((c.prediction, c.confidence, c.votes))
        } else {
            match self.outcome(record) {
                Some(v) => Some((v.final_prediction, v.final_confidence, v)),
                None => None,
            }
        }
    }

    /// The ensemble after an aggregation at `now`: the outcome of a vote is kept.
    pub open spec fn after_aggregate(self, record: ModelWeights, now: u64) -> Self {
        match self.outcome(record) {
            Some(v) if !self.fresh_at(now) => ModelEnsemble {
                cached_aggregate: Some(
                    CachedAggregate {
                        prediction: v.final_prediction,
                        confidence: v.final_confidence,
                        timestamp_ns: now,
                        votes: v,
                    },
                ),
                ..self
            },
            _ => self,
        }
    }

    /// Aggregates at `now`, given the weight that each record deserves. An
    /// aggregate that is still good stays; otherwise the newest prediction of
    /// each kind votes, and the outcome is kept. There is none where nobody
    /// votes or the votes weigh nothing.
    pub fn aggregate_at(&mut self, record: ModelWeights, now: u64) -> (r: Option<
        (Amount, Amount, VoteBreakdown),
    >)
        ensures
            r == old(self).answer(record, now),
            *final(self) == old(self).after_aggregate(record, now),
    {
        if let Some(c) = self.cached_aggregate {
            if now.saturating_sub(c.timestamp_ns) < CACHE_LIFETIME_NS {
                return Some((c.prediction, c.confidence, c.votes));
            }
        }
        let weights = self.calculate_dynamic_weights(record);
        let outcome = count_votes(
            self.vote_of(ModelType::Supervised),
            self.vote_of(ModelType::DeepLearning),
            self.vote_of(ModelType::Reinforcement),
            weights,
        );
        match outcome {
            Some(votes) => {
                self.cached_aggregate = Some(
                    CachedAggregate {
                        prediction: votes.final_prediction,
                        confidence: votes.final_confidence,
                        timestamp_ns: now,
                        votes,
                    },
                );
                Some((votes.final_prediction, votes.final_confidence, votes))
            },
            None => None,
        }
    }

    /// Aggregates, given the weight that each record deserves.
    pub fn aggregate(&mut self, record: ModelWeights) -> (r: Option<
        (Amount, Amount, VoteBreakdown),
    >)
        ensures
            exists|now: u64|
                r == #[trigger] old(self).answer(record, now) && *final(self) == old(
                    self,
                ).after_aggregate(record, now),
    {
        let now: u64 = now_ns();
        let r = self.aggregate_at(record, now);
        assert(r == old(self).answer(record, now));
        r
    }

    /// The kind of models whose weight the state of the market raises.
    fn favoured_model(&self) -> (r: Option<ModelType>)
        ensures
            r == favoured(self.current_regime),
    {
        match self.current_regime {
            MarketRegime::Trending => Some(ModelType::DeepLearning),
            MarketRegime::Ranging => Some(ModelType::Supervised),
            MarketRegime::Volatile => Some(ModelType::Reinforcement),
            MarketRegime::Unknown => None,
        }
    }

    /// Activates or deactivates the ensemble.
    pub fn set_active(&mut self, active: bool)
        ensures
            *final(self) == (ModelEnsemble { is_active: active, ..*old(self) }),
    {
        self.is_active = active;
    }

    /// Whether the ensemble is active.
    pub fn is_active(&self) -> (r: bool)
        ensures
            r == self.is_active,
    {
        self.is_active
    }

    /// The part of the predictions that was right, for each kind of models.
    pub fn get_performance_summary(&self) -> (r: (Amount, Amount, Amount))
        ensures
            r == (
                self.supervised_perf.win_rate,
                self.deep_learning_perf.win_rate,
                self.reinforcement_perf.win_rate,
            ),
    {
        (
            self.supervised_perf.win_rate,
            self.deep_learning_perf.win_rate,
            self.reinforcement_perf.win_rate,
        )
    }
}

} // verus!
