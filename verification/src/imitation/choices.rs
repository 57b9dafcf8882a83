//! What the cloned policy computes and when it is followed.

use vstd::prelude::*;
use crate::base::amount::Amount;
use crate::base::numbers::{product, truncated_div};
use crate::base::rounding::{law_division_cuts_off, law_ratio};
use crate::imitation::behavioral_cloning::{
    aggressiveness, confidence_sum, deviations, fallbacks, participation, weighted_sum, BCAction,
    HybridExecutor, LearnedAction, LinearLayer,
};

verus! {

/// A logit below minus one half is passive, one of a half or more aggressive,
/// and one in between neither.
pub proof fn law_aggressiveness(logit: Amount)
    ensures
        aggressiveness(logit) == 0 <==> logit.units < -50_000_000,
        aggressiveness(logit) == 1 <==> -50_000_000 <= logit.units < 50_000_000,
        aggressiveness(logit) == 2 <==> logit.units >= 50_000_000,
{
}

/// An output between minus one and one becomes a rate between zero and one,
/// halfway at zero.
pub proof fn law_participation(output: Amount)
    ensures
        output.units <= -100_000_000 ==> participation(output) == 0,
        output.units >= 100_000_000 ==> participation(output) == 100_000_000,
        -100_000_000 <= output.units <= 100_000_000 ==> 2 * participation(output) <= output.units
            + 100_000_000 < 2 * participation(output) + 2,
{
    law_division_cuts_off(output.units + 100_000_000, 2);
}

/// A value lies as many deviations from the mean as its distance has of them,
/// on either side.
pub proof fn law_deviations(value: Amount, mean: Amount, std: Amount)
    requires
        std.units >= 0,
        0 <= value.units <= 0x7fff_ffff_ffff_ffff,
        0 <= mean.units,
        deviations(value, mean, std) < 0x7fff_ffff_ffff_ffff,
        (value.units - mean.units) * 100_000_000 <= 0x7fff_ffff_ffff_ffff * (std.units + 100),
    ensures
        value.units >= mean.units ==> deviations(value, mean, std) * (std.units + 100) <= (
        value.units - mean.units) * 100_000_000 < deviations(value, mean, std) * (std.units + 100)
            + (std.units + 100),
        deviations(value, mean, std) == deviations(mean, value, std),
        deviations(value, mean, std) >= 0,
{
    let d = if value.units >= mean.units {
        value.units - mean.units
    } else {
        mean.units - value.units
    };
    let s = std.units + 100;
    assert(-0x8000_0000_0000_0000 * s <= 0) by (nonlinear_arith)
        requires
            s > 0,
    ;
    if value.units >= mean.units {
        law_ratio(d, s);
    } else {
        crate::base::rounding::law_ratio_at_end(d, s);
    }
}

/// A sum adds each input times its own weight.
pub proof fn law_weighted_sum(input: Seq<Amount>, weights: Seq<Amount>, start: int, n: nat)
    ensures
        weighted_sum(input, weights, start, 0) == 0,
        weighted_sum(input, weights, start, n + 1) == weighted_sum(input, weights, start, n)
            + product(input[n as int].units as int, weights[start + n].units as int),
{
}

/// An output is the bias with the weighted inputs of its own row, and never
/// negative.
pub proof fn law_layer_outputs(l: LinearLayer, input: Seq<Amount>, i: int)
    requires
        l.wf(),
        0 <= i < l.output_dim,
    ensures
        l.outputs(input).len() == l.output_dim,
        l.outputs(input)[i].units >= 0,
        ({
            let sum = l.biases@[i].units + weighted_sum(
                input,
                l.weights@,
                i * l.input_dim,
                l.input_dim as nat,
            );
            &&& 0 <= sum <= 0x7fff_ffff_ffff_ffff ==> l.outputs(input)[i].units == sum
            &&& sum <= 0 ==> l.outputs(input)[i].units == 0
        }),
{
}

/// A learned action that is confident enough is followed as it is; otherwise the
/// cloned one is, and marked.
pub proof fn law_confident_action_followed(
    e: HybridExecutor,
    learned: LearnedAction,
    cloned: BCAction,
)
    ensures
        learned.confidence.units >= e.confidence_threshold.units ==> {
            let c = e.chosen(Some(learned), cloned);
            &&& c.participation_rate == learned.participation_rate
            &&& c.aggressiveness == learned.aggressiveness
            &&& c.confidence == learned.confidence
            &&& !c.is_fallback
        },
        learned.confidence.units < e.confidence_threshold.units ==> {
            let c = e.chosen(Some(learned), cloned);
            &&& c.participation_rate == cloned.participation_rate
            &&& c.aggressiveness == cloned.aggressiveness
            &&& c.confidence == cloned.confidence
            &&& c.is_fallback
        },
        e.chosen(None, cloned).is_fallback,
        e.chosen(None, cloned).participation_rate == cloned.participation_rate,
{
}

/// Fallbacks are counted and confidences added, each action once.
pub proof fn law_actions_add_up(s: Seq<BCAction>, a: BCAction)
    ensures
        fallbacks(Seq::empty()) == 0,
        a.is_fallback ==> fallbacks(s.push(a)) == fallbacks(s) + 1,
        !a.is_fallback ==> fallbacks(s.push(a)) == fallbacks(s),
        confidence_sum(Seq::empty()) == 0,
        confidence_sum(s.push(a)) == confidence_sum(s) + a.confidence.units,
{
    assert(s.push(a).drop_last() =~= s);
}

} // verus!
