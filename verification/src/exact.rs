use crate::rule::{simpson_weights, trapezoid_weights, RuleKind, RuleView};
use vstd::prelude::*;

verus! {

/// The sum of `weights[i] * samples[i]` over all points.
pub open spec fn weighted_sum(weights: Seq<int>, samples: Seq<int>) -> int
    decreases weights.len(),
{
    if weights.len() == 0 || samples.len() == 0 {
        0
    } else {
        weighted_sum(weights.drop_last(), samples.drop_last()) + weights.last() * samples.last()
    }
}

/// The sum of all weights.
pub open spec fn total_weight(weights: Seq<int>) -> int
    decreases weights.len(),
{
    if weights.len() == 0 {
        0
    } else {
        total_weight(weights.drop_last()) + weights.last()
    }
}

/// The sum over all panels of the two samples at the panel's ends:
/// `(s[0] + s[1]) + (s[1] + s[2]) + ...`, each panel once.
pub open spec fn panel_sum(samples: Seq<int>) -> int
    decreases samples.len(),
{
    if samples.len() < 2 {
        0
    } else {
        panel_sum(samples.drop_last()) + samples[samples.len() - 2] + samples[samples.len() - 1]
    }
}

/// The sum over all pairs of panels of Simpson's three-point formula:
/// `(s[0] + 4 s[1] + s[2]) + (s[2] + 4 s[3] + s[4]) + ...`, each pair once.
pub open spec fn pair_sum(samples: Seq<int>) -> int
    decreases samples.len(),
{
    if samples.len() < 3 {
        0
    } else {
        pair_sum(samples.take(samples.len() - 2)) + samples[samples.len() - 3] + 4
            * samples[samples.len() - 2] + samples[samples.len() - 1]
    }
}

/// The samples of a function that is `value` everywhere.
pub open spec fn constant_samples(count: nat, value: int) -> Seq<int> {
    Seq::new(count, |i: int| value)
}

/// The samples of `x * x` at `lower`, `lower + step`, `lower + 2 * step`, ...
pub open spec fn square_samples(count: nat, lower: int, step: int) -> Seq<int> {
    Seq::new(count, |i: int| (lower + i * step) * (lower + i * step))
}

/// In exact arithmetic, `estimate` is what `rule` gives for `samples` taken
/// on an interval of width `width`:
/// `estimate == width / steps / divisor * weighted_sum`, written without
/// division.
pub open spec fn is_estimate(rule: RuleView, width: int, samples: Seq<int>, estimate: int) -> bool {
    estimate * (rule.divisor() * rule.steps) == width * weighted_sum(rule.weights(), samples)
}

proof fn lemma_single_point(weights: Seq<int>, samples: Seq<int>)
    requires
        weights.len() == 1,
        samples.len() == 1,
    ensures
        weighted_sum(weights, samples) == weights[0] * samples[0],
        total_weight(weights) == weights[0],
{
    assert(weighted_sum(weights.drop_last(), samples.drop_last()) == 0);
    assert(total_weight(weights.drop_last()) == 0);
}

proof fn lemma_reweigh_last(weights: Seq<int>, samples: Seq<int>, weight: int)
    requires
        weights.len() == samples.len(),
        weights.len() > 0,
    ensures
        weighted_sum(weights.update(weights.len() - 1, weight), samples) == weighted_sum(
            weights,
            samples,
        ) + (weight - weights.last()) * samples.last(),
        total_weight(weights.update(weights.len() - 1, weight)) == total_weight(weights) + weight
            - weights.last(),
{
    let changed = weights.update(weights.len() - 1, weight);
    assert(changed.drop_last() =~= weights.drop_last());
    assert(changed.last() == weight);
    assert((weight - weights.last()) * samples.last() == weight * samples.last() - weights.last()
        * samples.last()) by (nonlinear_arith);
}

proof fn lemma_weighted_sum_of_constant(weights: Seq<int>, value: int)
    ensures
        weighted_sum(weights, constant_samples(weights.len(), value)) == value * total_weight(
            weights,
        ),
    decreases weights.len(),
{
    if weights.len() > 0 {
        let samples = constant_samples(weights.len(), value);
        assert(samples.drop_last() =~= constant_samples(weights.drop_last().len(), value));
        lemma_weighted_sum_of_constant(weights.drop_last(), value);
        assert(value * (total_weight(weights.drop_last()) + weights.last()) == value
            * total_weight(weights.drop_last()) + weights.last() * value) by (nonlinear_arith);
    }
}

proof fn lemma_trapezoid_weights_step(num_subintervals: nat)
    requires
        num_subintervals >= 1,
    ensures
        trapezoid_weights(num_subintervals + 1).drop_last() == trapezoid_weights(
            num_subintervals,
        ).update(num_subintervals as int, 2),
        trapezoid_weights(num_subintervals + 1).last() == 1,
        trapezoid_weights(num_subintervals).last() == 1,
{
    assert(trapezoid_weights(num_subintervals + 1).drop_last() =~= trapezoid_weights(
        num_subintervals,
    ).update(num_subintervals as int, 2));
}

proof fn lemma_simpson_weights_step(num_pairs: nat)
    requires
        num_pairs >= 1,
    ensures
        simpson_weights(num_pairs + 1).drop_last().drop_last() == simpson_weights(
            num_pairs,
        ).update(2 * num_pairs as int, 2),
        simpson_weights(num_pairs + 1).last() == 1,
        simpson_weights(num_pairs + 1).drop_last().last() == 4,
        simpson_weights(num_pairs).last() == 1,
{
    assert(simpson_weights(num_pairs + 1).drop_last().drop_last() =~= simpson_weights(
        num_pairs,
    ).update(2 * num_pairs as int, 2));
}

/// The trapezoidal weights add up to twice the number of panels.
pub proof fn lemma_trapezoid_total_weight(num_subintervals: nat)
    requires
        num_subintervals >= 1,
    ensures
        total_weight(trapezoid_weights(num_subintervals)) == 2 * num_subintervals,
    decreases num_subintervals,
{
    if num_subintervals == 1 {
        let w = trapezoid_weights(1);
        lemma_single_point(w.drop_last(), constant_samples(1, 0));
    } else {
        let fewer = (num_subintervals - 1) as nat;
        lemma_trapezoid_total_weight(fewer);
        lemma_trapezoid_weights_step(fewer);
        lemma_reweigh_last(trapezoid_weights(fewer), constant_samples(fewer + 1, 0), 2);
    }
}

/// Simpson's weights add up to six times the number of pairs of panels.
pub proof fn lemma_simpson_total_weight(num_pairs: nat)
    requires
        num_pairs >= 1,
    ensures
        total_weight(simpson_weights(num_pairs)) == 6 * num_pairs,
    decreases num_pairs,
{
    if num_pairs == 1 {
        let w = simpson_weights(1);
        lemma_single_point(w.drop_last().drop_last(), constant_samples(1, 0));
        assert(total_weight(w.drop_last()) == 5);
    } else {
        let fewer = (num_pairs - 1) as nat;
        lemma_simpson_total_weight(fewer);
        lemma_simpson_weights_step(fewer);
        lemma_reweigh_last(simpson_weights(fewer), constant_samples(2 * fewer + 1, 0), 2);
        let w = simpson_weights(num_pairs);
        assert(total_weight(w) == total_weight(w.drop_last()) + 1);
        assert(total_weight(w.drop_last()) == total_weight(w.drop_last().drop_last()) + 4);
    }
}

/// The weights of a rule add up to its divisor times its number of steps:
/// this is what makes the rule return the area of a rectangle unchanged.
pub proof fn lemma_total_weight(rule: RuleView)
    requires
        rule.wf(),
    ensures
        total_weight(rule.weights()) == rule.divisor() * rule.steps,
{
    match rule.kind {
        RuleKind::Trapezoid => {
            lemma_trapezoid_total_weight(rule.steps);
        },
        RuleKind::Simpson => {
            lemma_simpson_total_weight(rule.steps / 2);
        },
    }
}

/// The weighted form of the trapezoidal rule counts every panel exactly
/// once: it equals the sum, panel by panel, of the samples at the panel's
/// two ends.
pub proof fn lemma_trapezoid_counts_each_panel_once(samples: Seq<int>)
    requires
        samples.len() >= 2,
    ensures
        weighted_sum(trapezoid_weights((samples.len() - 1) as nat), samples) == panel_sum(samples),
    decreases samples.len(),
{
    let n = (samples.len() - 1) as nat;
    let w = trapezoid_weights(n);
    if n == 1 {
        lemma_single_point(w.drop_last(), samples.drop_last());
        assert(panel_sum(samples.drop_last()) == 0);
        assert(w.drop_last()[0] == 1 && w.last() == 1);
        assert(samples.drop_last()[0] == samples[0]);
        assert(weighted_sum(w.drop_last(), samples.drop_last()) == 1 * samples[0]);
        assert(weighted_sum(w, samples) == weighted_sum(w.drop_last(), samples.drop_last()) + 1
            * samples[1]);
        assert(panel_sum(samples) == samples[0] + samples[1]);
    } else {
        let fewer = (n - 1) as nat;
        let earlier = samples.drop_last();
        lemma_trapezoid_counts_each_panel_once(earlier);
        lemma_trapezoid_weights_step(fewer);
        lemma_reweigh_last(trapezoid_weights(fewer), earlier, 2);
        assert(earlier.last() == samples[samples.len() - 2]);
        assert(weighted_sum(w.drop_last(), earlier) == panel_sum(earlier) + earlier.last());
        assert(weighted_sum(w, samples) == weighted_sum(w.drop_last(), earlier) + 1
            * samples.last());
    }
}

/// The weighted form of Simpson's rule counts every pair of panels exactly
/// once: it equals the sum, pair by pair, of the three-point formula
/// `first + 4 * middle + last`.
pub proof fn lemma_simpson_counts_each_pair_once(num_pairs: nat, samples: Seq<int>)
    requires
        num_pairs >= 1,
        samples.len() == 2 * num_pairs + 1,
    ensures
        weighted_sum(simpson_weights(num_pairs), samples) == pair_sum(samples),
    decreases num_pairs,
{
    let w = simpson_weights(num_pairs);
    if num_pairs == 1 {
        lemma_single_point(w.drop_last().drop_last(), samples.drop_last().drop_last());
        assert(weighted_sum(w.drop_last(), samples.drop_last()) == samples[0] + 4 * samples[1]);
        assert(pair_sum(samples.take(1)) == 0);
    } else {
        let fewer = (num_pairs - 1) as nat;
        let earlier = samples.take(samples.len() - 2);
        assert(earlier =~= samples.drop_last().drop_last());
        lemma_simpson_counts_each_pair_once(fewer, earlier);
        lemma_simpson_weights_step(fewer);
        lemma_reweigh_last(simpson_weights(fewer), earlier, 2);
        assert(earlier.last() == samples[samples.len() - 3]);
        assert(weighted_sum(w, samples) == weighted_sum(w.drop_last(), samples.drop_last()) + 1
            * samples.last());
        assert(weighted_sum(w.drop_last(), samples.drop_last()) == weighted_sum(
            w.drop_last().drop_last(),
            earlier,
        ) + 4 * samples[samples.len() - 2]);
    }
}

/// A constant function is integrated exactly: on an interval of width
/// `width`, the one estimate that a rule gives for the constant `value` is
/// `value * width`, whatever the number of steps.
pub proof fn lemma_constant_is_integrated_exactly(
    rule: RuleView,
    width: int,
    value: int,
    estimate: int,
)
    requires
        rule.wf(),
    ensures
        is_estimate(rule, width, constant_samples(rule.steps + 1, value), estimate) <==> estimate
            == value * width,
{
    let scale = rule.divisor() * rule.steps;
    let sum = weighted_sum(rule.weights(), constant_samples(rule.steps + 1, value));
    lemma_total_weight(rule);
    assert(rule.weights().len() == rule.steps + 1);
    lemma_weighted_sum_of_constant(rule.weights(), value);
    assert(sum == value * scale);
    assert(scale >= 1) by (nonlinear_arith)
        requires
            scale == rule.divisor() * rule.steps,
            rule.divisor() >= 2,
            rule.steps >= 1,
    ;
    assert(width * (value * scale) == (value * width) * scale) by (nonlinear_arith);
    assert(estimate * scale == (value * width) * scale ==> estimate == value * width)
        by (nonlinear_arith)
        requires
            scale >= 1,
    ;
}

/// An interval of no width has no area: the one estimate that a rule gives
/// on it is zero, whatever the samples and the number of steps.
pub proof fn lemma_degenerate_interval_has_no_area(
    rule: RuleView,
    samples: Seq<int>,
    estimate: int,
)
    requires
        rule.wf(),
    ensures
        is_estimate(rule, 0, samples, estimate) <==> estimate == 0,
{
    let scale = rule.divisor() * rule.steps;
    assert(scale >= 1) by (nonlinear_arith)
        requires
            scale == rule.divisor() * rule.steps,
            rule.divisor() >= 2,
            rule.steps >= 1,
    ;
    assert(estimate * scale == 0 <==> estimate == 0) by (nonlinear_arith)
        requires
            scale >= 1,
    ;
}

/// Simpson's three-point formula is exact on `x * x`, so the pairs
/// telescope: `step * pair_sum` is the difference of the cubes of the
/// interval's two ends.
proof fn lemma_pair_sum_of_squares(num_pairs: nat, lower: int, step: int)
    ensures
        step * pair_sum(square_samples(2 * num_pairs + 1, lower, step)) == (lower + 2 * num_pairs
            * step) * (lower + 2 * num_pairs * step) * (lower + 2 * num_pairs * step) - lower
            * lower * lower,
    decreases num_pairs,
{
    let samples = square_samples(2 * num_pairs + 1, lower, step);
    if num_pairs == 0 {
        assert(pair_sum(samples) == 0);
        assert(lower + 2 * 0 * step == lower);
        assert(step * 0 == 0);
    } else {
        let fewer = (num_pairs - 1) as nat;
        let earlier = samples.take(samples.len() - 2);
        assert(earlier =~= square_samples(2 * fewer + 1, lower, step));
        lemma_pair_sum_of_squares(fewer, lower, step);
        let x = lower + 2 * fewer * step;
        let y = lower + (2 * fewer + 1) * step;
        let z = lower + (2 * fewer + 2) * step;
        assert(y == x + step && z == x + 2 * step) by (nonlinear_arith)
            requires
                x == lower + 2 * fewer * step,
                y == lower + (2 * fewer + 1) * step,
                z == lower + (2 * fewer + 2) * step,
        ;
        assert(samples[samples.len() - 3] == x * x);
        assert(samples[samples.len() - 2] == y * y);
        assert(samples[samples.len() - 1] == z * z);
        assert(2 * num_pairs == 2 * fewer + 2);
        assert(pair_sum(samples) == pair_sum(earlier) + x * x + 4 * (y * y) + z * z);
        assert(step * (x * x + 4 * (y * y) + z * z) == z * z * z - x * x * x)
            by (nonlinear_arith)
            requires
                y == x + step,
                z == x + 2 * step,
        ;
        assert(step * (pair_sum(earlier) + x * x + 4 * (y * y) + z * z) == step * pair_sum(
            earlier,
        ) + step * (x * x + 4 * (y * y) + z * z)) by (nonlinear_arith);
    }
}

/// Simpson's rule is exact on `x * x`: over `[lower, upper]` cut into
/// `2 * num_pairs` steps of width `step`, the one estimate that it gives is
/// a third of `upper^3 - lower^3`, the integral itself, whatever
/// `num_pairs`.
pub proof fn lemma_simpson_is_exact_on_squares(
    num_pairs: nat,
    lower: int,
    step: int,
    estimate: int,
)
    requires
        num_pairs >= 1,
    ensures
        ({
            let upper = lower + 2 * num_pairs * step;
            let rule = RuleView { kind: RuleKind::Simpson, steps: 2 * num_pairs };
            is_estimate(
                rule,
                upper - lower,
                square_samples(2 * num_pairs + 1, lower, step),
                estimate,
            ) <==> 3 * estimate == upper * upper * upper - lower * lower * lower
        }),
{
    let upper = lower + 2 * num_pairs * step;
    let steps = 2 * num_pairs;
    let rule = RuleView { kind: RuleKind::Simpson, steps };
    let samples = square_samples(steps + 1, lower, step);
    let sum = weighted_sum(rule.weights(), samples);
    let cubes = upper * upper * upper - lower * lower * lower;
    assert(rule.weights() == simpson_weights(num_pairs));
    lemma_simpson_counts_each_pair_once(num_pairs, samples);
    lemma_pair_sum_of_squares(num_pairs, lower, step);
    assert(step * sum == cubes);
    assert(upper - lower == steps * step);
    assert((steps * step) * sum == steps * cubes) by (nonlinear_arith)
        requires
            step * sum == cubes,
    ;
    assert(estimate * (3 * steps) == steps * (3 * estimate)) by (nonlinear_arith);
    assert(steps * (3 * estimate) == steps * cubes <==> 3 * estimate == cubes)
        by (nonlinear_arith)
        requires
            steps >= 1,
    ;
}

} // verus!
