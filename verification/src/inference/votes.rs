//! How events are batched and how models vote.

use vstd::prelude::*;
use crate::base::amount::Amount;
use crate::base::numbers::{product, truncated_div};
use crate::base::rounding::{law_division_cuts_off, law_product, law_ratio};
use crate::base::text::contains_part;
use crate::inference::batch_scheduler::{
    batch_due, batch_events, elapsed_ms, enqueued, others_left, throttled, urgent_left,
    BatchScheduler, BatchSchedulerConfig, TickEvent,
};
use crate::inference::model_ensemble::{
    error_of, favoured, kind_of, square_sum, tally, CachedAggregate, MarketRegime, ModelEnsemble,
    ModelPerformance, ModelType, ModelWeights, VoteBreakdown,
};
use crate::inference::onnx_runtime::{halves, refusal};

verus! {

/// Times are told in whole milliseconds, none where the second lies before the
/// first; an event is stale once more than the given ones passed.
pub proof fn law_elapsed<D>(from: u64, to: u64, e: TickEvent<D>, longest: u64)
    ensures
        to >= from ==> elapsed_ms(from, to) * 1_000_000 <= to - from < (elapsed_ms(from, to) + 1)
            * 1_000_000,
        to < from ==> elapsed_ms(from, to) == 0,
        to >= e.timestamp_ns ==> (e.stale_at(longest, to) <==> to - e.timestamp_ns >= (longest + 1)
            * 1_000_000),
{
}

/// A new event is the last in its queue; a full queue drops its oldest, and only
/// that.
pub proof fn law_queue_drops_oldest<D>(q: Seq<TickEvent<D>>, e: TickEvent<D>, limit: usize)
    ensures
        enqueued(q, e, limit).len() > 0,
        enqueued(q, e, limit).last() == e,
        q.len() < limit ==> enqueued(q, e, limit) == q.push(e),
        q.len() == limit && limit > 0 ==> enqueued(q, e, limit).len() == limit && forall|i: int|
            0 <= i < limit - 1 ==> #[trigger] enqueued(q, e, limit)[i] == q[i + 1],
{
}

/// A batch is due once enough events wait, or one of them has waited too long,
/// but never without events and never sooner than the least interval after the
/// last one.
pub proof fn law_batch_comes_due<D>(
    eq: Seq<TickEvent<D>>,
    pq: Seq<TickEvent<D>>,
    c: BatchSchedulerConfig,
    last: Option<u64>,
    target: usize,
    now: u64,
)
    requires
        target > 0,
    ensures
        eq.len() + pq.len() == 0 ==> !batch_due(eq, pq, c, last, target, now),
        last is Some && c.min_batch_interval_ms > 0 && now < last->0 + c.min_batch_interval_ms
            * 1_000_000 ==> !batch_due(eq, pq, c, last, target, now),
        last is None && eq.len() + pq.len() > 0 && eq.len() + pq.len() >= c.min_batch_size
            ==> batch_due(eq, pq, c, last, target, now),
        last is None && eq.len() + pq.len() >= target ==> batch_due(eq, pq, c, last, target, now),
        last is None && eq.len() > 0 && eq[0].stale_at(c.max_wait_time_ms, now) ==> batch_due(
            eq,
            pq,
            c,
            last,
            target,
            now,
        ),
        forall|i: int|
            last is None && 0 <= i < pq.len() && (#[trigger] pq[i]).stale_at(
                c.max_wait_time_ms,
                now,
            ) ==> batch_due(eq, pq, c, last, target, now),
        throttled(last, c, now) ==> last is Some,
        last is Some && now >= last->0 + c.min_batch_interval_ms * 1_000_000 ==> batch_due(
            eq,
            pq,
            c,
            last,
            target,
            now,
        ) == batch_due(eq, pq, c, None, target, now),
{
}

/// A batch takes the urgent events first, then the others, each in order, up to
/// the target; it is short of it only where nothing is left.
pub proof fn law_urgent_first<D>(
    eq: Seq<TickEvent<D>>,
    pq: Seq<TickEvent<D>>,
    target: usize,
    i: int,
)
    requires
        0 <= i < batch_events(eq, pq, target).len(),
    ensures
        i < pq.len() ==> batch_events(eq, pq, target)[i] == pq[i],
        i >= pq.len() ==> batch_events(eq, pq, target)[i] == eq[i - pq.len()],
        batch_events(eq, pq, target).len() == (if eq.len() + pq.len() <= target {
            eq.len() + pq.len()
        } else {
            target as nat
        }),
        urgent_left(pq, target).len() > 0 ==> others_left(eq, pq, target) == eq,
{
    if urgent_left(pq, target).len() > 0 {
        assert(others_left(eq, pq, target) =~= eq);
    }
}

/// An error is how far a prediction is from what came, whichever is larger.
pub proof fn law_error_is_distance(prediction: Amount, actual: Amount)
    requires
        -0x3fff_ffff_ffff_ffff <= prediction.units <= 0x3fff_ffff_ffff_ffff,
        -0x3fff_ffff_ffff_ffff <= actual.units <= 0x3fff_ffff_ffff_ffff,
    ensures
        prediction.units >= actual.units ==> actual.units + error_of(prediction, actual)
            == prediction.units,
        prediction.units <= actual.units ==> prediction.units + error_of(prediction, actual)
            == actual.units,
{
}

/// A prediction is counted, as correct where it is less than a hundredth off;
/// the rate is that of the correct ones, and the confidence moves by a tenth.
pub proof fn law_prediction_recorded(
    before: ModelPerformance,
    after: ModelPerformance,
    prediction: Amount,
    actual: Amount,
    confidence: Amount,
)
    requires
        before.wf(),
        before.updated(&after, prediction, actual, confidence),
        before.window > 0,
        0 <= confidence.units,
        0 <= before.avg_confidence.units,
    ensures
        after.total_predictions == before.total_predictions + 1,
        error_of(prediction, actual) < 1_000_000 ==> after.correct_predictions
            == before.correct_predictions + 1,
        error_of(prediction, actual) >= 1_000_000 ==> after.correct_predictions
            == before.correct_predictions,
        after.win_rate.units * after.total_predictions <= after.correct_predictions * 100_000_000
            < after.win_rate.units * after.total_predictions + after.total_predictions,
        10 * after.avg_confidence.units <= confidence.units + 9 * before.avg_confidence.units < 10
            * after.avg_confidence.units + 10,
        after.last_n_errors@.len() > 0,
        after.last_n_errors@.last().units == error_of(prediction, actual),
{
    let c = after.correct_predictions as int;
    let t = after.total_predictions as int;
    assert(-0x8000_0000_0000_0000 * t <= c * 100_000_000 <= 0x7fff_ffff_ffff_ffff * t)
        by (nonlinear_arith)
        requires
            0 <= c <= t,
            t > 0,
    ;
    law_ratio(c, t);
    law_division_cuts_off(confidence.units + 9 * before.avg_confidence.units, 10);
    let s = before.last_n_errors@.push(Amount { units: error_of(prediction, actual) as i64 });
    let n = before.window as int;
    if s.len() > n {
        assert(s.skip(s.len() - n).last() == s.last());
    }
}

/// Squares of errors add up; without errors the mean of squares is one.
pub proof fn law_squares_add_up(s: Seq<Amount>, x: Amount, p: ModelPerformance)
    ensures
        square_sum(Seq::empty()) == 0,
        square_sum(s.push(x)) == square_sum(s) + product(x.units as int, x.units as int),
        p.last_n_errors@.len() == 0 ==> p.mse() == 100_000_000,
        p.last_n_errors@.len() > 0 ==> p.mse() * p.last_n_errors@.len() <= square_sum(
            p.last_n_errors@,
        ) < (p.mse() + 1) * p.last_n_errors@.len(),
{
    assert(s.push(x).drop_last() =~= s);
    if p.last_n_errors@.len() > 0 {
        let a = square_sum(p.last_n_errors@);
        let n = p.last_n_errors@.len() as int;
        let q = a / n;
        assert(q * n <= a < (q + 1) * n) by (nonlinear_arith)
            requires
                n > 0,
                q == a / n,
        ;
    }
}

/// Each kind of model has its own weight and its own record.
pub proof fn law_kinds_kept_apart(w: ModelWeights, e: ModelEnsemble)
    ensures
        w.of(ModelType::Supervised) == w.supervised,
        w.of(ModelType::DeepLearning) == w.deep_learning,
        w.of(ModelType::Reinforcement) == w.reinforcement,
        e.perf(ModelType::Supervised) == e.supervised_perf,
        e.perf(ModelType::DeepLearning) == e.deep_learning_perf,
        e.perf(ModelType::Reinforcement) == e.reinforcement_perf,
{
}

/// Weights are each a part of their sum; of nothing they are all one.
pub proof fn law_weights_are_parts(w: ModelWeights)
    requires
        w.supervised.units >= 0,
        w.deep_learning.units >= 0,
        w.reinforcement.units >= 0,
    ensures
        w.total() == w.supervised.units + w.deep_learning.units + w.reinforcement.units,
        w.total() > 0 ==> {
            let n = w.normalized();
            let t = w.total();
            &&& n.supervised.units * t <= w.supervised.units * 100_000_000 < n.supervised.units * t
                + t
            &&& n.deep_learning.units * t <= w.deep_learning.units * 100_000_000
                < n.deep_learning.units * t + t
            &&& n.reinforcement.units * t <= w.reinforcement.units * 100_000_000
                < n.reinforcement.units * t + t
        },
        w.total() == 0 ==> w.normalized().supervised.units == 100_000_000
            && w.normalized().deep_learning.units == 100_000_000
            && w.normalized().reinforcement.units == 100_000_000,
{
    let t = w.total();
    if t > 0 {
        let a = w.supervised.units as int;
        let b = w.deep_learning.units as int;
        let c = w.reinforcement.units as int;
        assert(a * 100_000_000 <= 0x7fff_ffff_ffff_ffff * t && b * 100_000_000
            <= 0x7fff_ffff_ffff_ffff * t && c * 100_000_000 <= 0x7fff_ffff_ffff_ffff * t
            && -0x8000_0000_0000_0000 * t <= 0) by (nonlinear_arith)
            requires
                0 <= a <= t,
                0 <= b <= t,
                0 <= c <= t,
                t > 0,
        ;
        law_ratio(a, t);
        law_ratio(b, t);
        law_ratio(c, t);
    }
}

/// Trends favour deep learning, ranges supervised models and volatile markets
/// reinforcement; an unknown market favours none.
pub proof fn law_regimes_favour()
    ensures
        favoured(MarketRegime::Trending) == Some(ModelType::DeepLearning),
        favoured(MarketRegime::Ranging) == Some(ModelType::Supervised),
        favoured(MarketRegime::Volatile) == Some(ModelType::Reinforcement),
        favoured(MarketRegime::Unknown) is None,
{
}

/// Names tell the kind of a model, supervised before deep before reinforcement.
pub proof fn law_names_tell_kinds(id: Seq<char>)
    ensures
        ({
            let s = contains_part(id, "supervised"@) || contains_part(id, "xgb"@) || contains_part(
                id,
                "lgb"@,
            );
            let d = contains_part(id, "deep"@) || contains_part(id, "lstm"@) || contains_part(
                id,
                "transformer"@,
            );
            let r = contains_part(id, "rl"@) || contains_part(id, "reinforcement"@);
            &&& kind_of(id) == Some(ModelType::Supervised) <==> s
            &&& kind_of(id) == Some(ModelType::DeepLearning) <==> !s && d
            &&& kind_of(id) == Some(ModelType::Reinforcement) <==> !s && !d && r
            &&& kind_of(id) is None <==> !s && !d && !r
        }),
{
}

/// The outcome of a vote weighs each prediction and each confidence by the
/// weight of its own kind, and tells each vote under its own kind.
pub proof fn law_votes_weighed(
    s: (Amount, Amount),
    d: (Amount, Amount),
    r: (Amount, Amount),
    w: ModelWeights,
)
    requires
        w.supervised.units >= 0,
        w.deep_learning.units >= 0,
        w.reinforcement.units >= 0,
        w.total() > 0,
        s.0.units >= 0 && d.0.units >= 0 && r.0.units >= 0,
        s.1.units >= 0 && d.1.units >= 0 && r.1.units >= 0,
    ensures
        tally(Some(s), Some(d), Some(r), w) is Some,
        ({
            let v = tally(Some(s), Some(d), Some(r), w)->0;
            let predicted = s.0.units * w.supervised.units + d.0.units * w.deep_learning.units
                + r.0.units * w.reinforcement.units;
            let sure = s.1.units * w.supervised.units + d.1.units * w.deep_learning.units
                + r.1.units * w.reinforcement.units;
            &&& v.final_prediction.units * w.total() <= predicted < v.final_prediction.units
                * w.total() + w.total()
            &&& v.final_confidence.units * w.total() <= sure < v.final_confidence.units * w.total()
                + w.total()
            &&& v.supervised_vote == s.0
            &&& v.deep_learning_vote == d.0
            &&& v.reinforcement_vote == r.0
            &&& v.supervised_weight == w.supervised
            &&& v.deep_learning_weight == w.deep_learning
            &&& v.reinforcement_weight == w.reinforcement
        }),
        tally(None, None, None, w) is None,
{
    lemma_weighed(
        s.0.units as int,
        d.0.units as int,
        r.0.units as int,
        w.supervised.units as int,
        w.deep_learning.units as int,
        w.reinforcement.units as int,
    );
    lemma_weighed(
        s.1.units as int,
        d.1.units as int,
        r.1.units as int,
        w.supervised.units as int,
        w.deep_learning.units as int,
        w.reinforcement.units as int,
    );
}

proof fn lemma_weighed(x: int, y: int, z: int, a: int, b: int, c: int)
    requires
        0 <= x <= 0x7fff_ffff_ffff_ffff,
        0 <= y <= 0x7fff_ffff_ffff_ffff,
        0 <= z <= 0x7fff_ffff_ffff_ffff,
        a >= 0,
        b >= 0,
        c >= 0,
        a + b + c > 0,
    ensures
        ({
            let sum = x * a + y * b + z * c;
            let q = truncated_div(sum, a + b + c);
            0 <= q <= 0x7fff_ffff_ffff_ffff && q * (a + b + c) <= sum < q * (a + b + c) + (a + b
                + c)
        }),
{
    let sum = x * a + y * b + z * c;
    let t = a + b + c;
    assert(0 <= x * a <= 0x7fff_ffff_ffff_ffff * a) by (nonlinear_arith)
        requires
            0 <= x <= 0x7fff_ffff_ffff_ffff,
            a >= 0,
    ;
    assert(0 <= y * b <= 0x7fff_ffff_ffff_ffff * b) by (nonlinear_arith)
        requires
            0 <= y <= 0x7fff_ffff_ffff_ffff,
            b >= 0,
    ;
    assert(0 <= z * c <= 0x7fff_ffff_ffff_ffff * c) by (nonlinear_arith)
        requires
            0 <= z <= 0x7fff_ffff_ffff_ffff,
            c >= 0,
    ;
    law_division_cuts_off(sum, t);
    let q = truncated_div(sum, t);
    assert(q <= 0x7fff_ffff_ffff_ffff) by (nonlinear_arith)
        requires
            q * t <= sum,
            sum <= 0x7fff_ffff_ffff_ffff * t,
            t > 0,
    ;
}

/// A model votes with its latest prediction, where that is confident enough.
pub proof fn law_latest_prediction_votes(e: ModelEnsemble, kind: ModelType, i: int)
    requires
        0 <= i < e.predictions_buffer@.len(),
        e.predictions_buffer@[i].model_type == kind,
        forall|j: int|
            i < j < e.predictions_buffer@.len() ==> (
            #[trigger] e.predictions_buffer@[j]).model_type != kind,
    ensures
        e.predictions_buffer@[i].confidence.units >= e.config.confidence_threshold.units ==> e.vote(
            kind,
        ) == Some((e.predictions_buffer@[i].prediction, e.predictions_buffer@[i].confidence)),
        e.predictions_buffer@[i].confidence.units < e.config.confidence_threshold.units ==> e.vote(
            kind,
        ) is None,
{
    crate::inference::model_ensemble::law_latest(e.predictions_buffer@, kind);
}

/// A favoured kind weighs a fifth more; one with enough predictions weighs by
/// its record.
pub proof fn law_favoured_kind_weighs_more(e: ModelEnsemble, kind: ModelType, record: ModelWeights)
    requires
        0 <= e.config.base_weights.of(kind).units <= 0xffff_ffff_ffff,
        e.perf(kind).total_predictions < e.config.min_predictions_for_weight,
    ensures
        e.config.regime_adaptive && favoured(e.current_regime) == Some(kind) ==> 5 * e.raw_weight(
            kind,
            record,
        ) <= 6 * e.config.base_weights.of(kind).units < 5 * e.raw_weight(kind, record) + 5,
        !e.config.regime_adaptive || favoured(e.current_regime) != Some(kind) ==> e.raw_weight(
            kind,
            record,
        ) == e.config.base_weights.of(kind).units,
{
    law_product(e.config.base_weights.of(kind).units as int, 120_000_000);
}

/// With enough predictions and no favour, a kind weighs its base times its
/// record.
pub proof fn law_record_counts(e: ModelEnsemble, kind: ModelType, record: ModelWeights)
    requires
        e.perf(kind).total_predictions >= e.config.min_predictions_for_weight,
        !e.config.regime_adaptive || favoured(e.current_regime) != Some(kind),
    ensures
        e.raw_weight(kind, record) == product(
            e.config.base_weights.of(kind).units as int,
            record.of(kind).units as int,
        ),
{
}

/// An answer less than a millisecond old is given again; otherwise the models
/// vote, and their outcome is kept with its time.
pub proof fn law_recent_answer_given_again(e: ModelEnsemble, record: ModelWeights, now: u64)
    ensures
        e.cached_aggregate matches Some(c) ==> (now < c.timestamp_ns + 1_000_000 ==> e.answer(
            record,
            now,
        ) == Some((c.prediction, c.confidence, c.votes)) && e.after_aggregate(record, now) == e),
        e.cached_aggregate matches Some(c) ==> (now >= c.timestamp_ns + 1_000_000 ==> !e.fresh_at(
            now,
        )),
        !e.fresh_at(now) ==> (e.answer(record, now) is Some <==> e.outcome(record) is Some),
        !e.fresh_at(now) ==> (e.outcome(record) matches Some(v) ==> e.answer(record, now) == Some(
            (v.final_prediction, v.final_confidence, v),
        ) && e.after_aggregate(record, now).cached_aggregate == Some(
            CachedAggregate {
                prediction: v.final_prediction,
                confidence: v.final_confidence,
                timestamp_ns: now,
                votes: v,
            },
        )),
{
}

/// A session refuses to run before it is set up, and without inputs; the check
/// of the set-up comes first.
pub proof fn law_refusals(initialized: bool, inputs: nat)
    ensures
        initialized && inputs > 0 ==> refusal(initialized, inputs) is None,
        !initialized ==> refusal(initialized, inputs) == Some(
            "Inference error: Session not initialized"@,
        ),
        initialized && inputs == 0 ==> refusal(initialized, inputs) == Some(
            "Input mismatch: No inputs provided"@,
        ),
{
}

/// Outputs are the inputs halved, one for one.
pub proof fn law_halves(s: Seq<Amount>, i: int)
    requires
        0 <= i < s.len(),
        s[i].units >= 0,
    ensures
        halves(s).len() == s.len(),
        2 * halves(s)[i].units <= s[i].units < 2 * halves(s)[i].units + 2,
{
    law_division_cuts_off(s[i].units as int, 2);
}

/// An event of priority five or more waits with the urgent ones, any other with
/// the rest; it is the last there, and each is counted. What a full queue drops
/// is counted too.
pub proof fn law_urgent_events_wait_apart<D>(
    before: BatchScheduler<D>,
    after: BatchScheduler<D>,
    e: TickEvent<D>,
)
    requires
        after.took(before, e),
        before.stats.total_events_received < u64::MAX,
        before.stats.total_events_dropped < u64::MAX,
    ensures
        e.priority >= 5 ==> after.event_queue@ == before.event_queue@
            && after.priority_queue@.len() > 0 && after.priority_queue@.last() == e,
        e.priority < 5 ==> after.priority_queue@ == before.priority_queue@
            && after.event_queue@.len() > 0 && after.event_queue@.last() == e,
        after.stats.total_events_received == before.stats.total_events_received + 1,
        e.priority < 5 && before.event_queue@.len() < before.config.max_queue_size
            ==> after.event_queue@ == before.event_queue@.push(e)
            && after.stats.total_events_dropped == before.stats.total_events_dropped,
        e.priority < 5 && before.event_queue@.len() >= before.config.max_queue_size
            ==> after.stats.total_events_dropped == before.stats.total_events_dropped + 1,
        e.priority >= 5 && 4 * (before.priority_queue@.len() + 1) <= before.config.max_queue_size
            ==> after.priority_queue@ == before.priority_queue@.push(e),
{
}

/// A target stays between the least batch and a hundred and twenty-eight.
pub proof fn law_target_bounds<D>(s: BatchScheduler<D>, target: usize)
    requires
        s.config.min_batch_size <= 128,
    ensures
        s.config.min_batch_size <= s.allowed_target(target) <= 128,
        s.config.min_batch_size <= target <= 128 ==> s.allowed_target(target) == target,
{
}

} // verus!
