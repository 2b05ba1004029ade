use crate::error::IntegrationError;
use vstd::prelude::*;

verus! {

/// How many of the trials fell below the curve.
pub open spec fn count_below(outcomes: Seq<bool>) -> nat
    decreases outcomes.len(),
{
    if outcomes.len() == 0 {
        0
    } else {
        count_below(outcomes.drop_last()) + if outcomes.last() {
            1nat
        } else {
            0nat
        }
    }
}

/// What a tally is, mathematically: the number of trials asked for, and the
/// outcome of each trial made so far, in the order in which they were made.
/// An outcome is `true` where the sampled point fell below the curve.
pub struct TallyView {
    pub iterations: nat,
    pub outcomes: Seq<bool>,
}

impl TallyView {
    /// At least one trial is asked for, and no more are made than asked for.
    pub open spec fn wf(self) -> bool {
        1 <= self.iterations && self.outcomes.len() <= self.iterations
    }

    /// All the trials asked for have been made.
    pub open spec fn is_complete(self) -> bool {
        self.outcomes.len() == self.iterations
    }

    /// In exact arithmetic, `estimate` is what the finished tally gives for a
    /// bounding rectangle of the given width and height: the rectangle's area
    /// times the fraction of trials that fell below the curve, written
    /// without division.
    pub open spec fn is_estimate(self, width: int, max_value: int, estimate: int) -> bool {
        estimate * self.iterations == count_below(self.outcomes) * (width * max_value)
    }
}

/// The running count of a rejection-sampling estimate: the caller draws a
/// point in the bounding rectangle, says whether it fell below the curve,
/// and the tally keeps count until the trials asked for are made.
pub struct MonteCarloTally {
    iterations: usize,
    trials: usize,
    below: usize,
    outcomes: Ghost<Seq<bool>>,
}

impl View for MonteCarloTally {
    type V = TallyView;

    closed spec fn view(&self) -> TallyView {
        TallyView { iterations: self.iterations as nat, outcomes: self.outcomes@ }
    }
}

impl MonteCarloTally {
    #[verifier::type_invariant]
    spec fn inv(self) -> bool {
        &&& self@.wf()
        &&& self.trials == self.outcomes@.len()
        &&& self.below == count_below(self.outcomes@)
    }

    /// A tally of `iterations` trials, none of them made yet.
    ///
    /// An estimate from no trial does not exist: zero is an invalid argument.
    pub fn new(iterations: usize) -> (result: Result<MonteCarloTally, IntegrationError>)
        ensures
            match result {
                Ok(tally) => iterations >= 1 && tally@ == (TallyView {
                    iterations: iterations as nat,
                    outcomes: Seq::empty(),
                }),
                Err(e) => iterations == 0 && e == IntegrationError::InvalidArgument,
            },
    {
        if iterations == 0 {
            Err(IntegrationError::InvalidArgument)
        } else {
            Ok(MonteCarloTally { iterations, trials: 0, below: 0, outcomes: Ghost(Seq::empty()) })
        }
    }

    /// The number of trials asked for.
    pub fn iterations(&self) -> (result: usize)
        ensures
            result == self@.iterations,
            self@.wf(),
    {
        proof {
            use_type_invariant(self);
        }
        self.iterations
    }

    /// The number of trials made so far.
    pub fn trials(&self) -> (result: usize)
        ensures
            result == self@.outcomes.len(),
    {
        proof {
            use_type_invariant(self);
        }
        self.trials
    }

    /// The number of trials so far that fell below the curve.
    pub fn below(&self) -> (result: usize)
        ensures
            result == count_below(self@.outcomes),
            result <= self@.outcomes.len(),
    {
        proof {
            use_type_invariant(self);
            lemma_count_below_bounds(self@.outcomes);
        }
        self.below
    }

    /// Whether all the trials asked for have been made.
    pub fn is_complete(&self) -> (result: bool)
        ensures
            result == self@.is_complete(),
    {
        proof {
            use_type_invariant(self);
        }
        self.trials == self.iterations
    }

    /// Counts one trial: `below_curve` says whether the sampled point fell
    /// below the curve. A finished tally takes no more trials and stays as
    /// it is; the result says whether the trial was counted.
    pub fn record(&mut self, below_curve: bool) -> (counted: bool)
        ensures
            counted == !old(self)@.is_complete(),
            counted ==> final(self)@ == (TallyView {
                iterations: old(self)@.iterations,
                outcomes: old(self)@.outcomes.push(below_curve),
            }),
            !counted ==> final(self)@ == old(self)@,
    {
        proof {
            use_type_invariant(&*self);
            lemma_count_below_bounds(self@.outcomes);
        }
        if self.trials == self.iterations {
            return false;
        }
        let below: usize = if below_curve {
            self.below + 1
        } else {
            self.below
        };
        let ghost outcomes = self.outcomes@.push(below_curve);
        proof {
            assert(outcomes.drop_last() =~= self.outcomes@);
        }
        *self = MonteCarloTally {
            iterations: self.iterations,
            trials: self.trials + 1,
            below,
            outcomes: Ghost(outcomes),
        };
        true
    }
}

/// No more trials fall below the curve than were made.
pub proof fn lemma_count_below_bounds(outcomes: Seq<bool>)
    ensures
        count_below(outcomes) <= outcomes.len(),
    decreases outcomes.len(),
{
    if outcomes.len() > 0 {
        lemma_count_below_bounds(outcomes.drop_last());
    }
}

/// Where every trial falls below the curve, all of them are counted; where
/// none does, none is.
pub proof fn lemma_count_below_unanimous(outcomes: Seq<bool>, below_curve: bool)
    requires
        forall|i: int| 0 <= i < outcomes.len() ==> outcomes[i] == below_curve,
    ensures
        count_below(outcomes) == if below_curve {
            outcomes.len()
        } else {
            0
        },
    decreases outcomes.len(),
{
    if outcomes.len() > 0 {
        lemma_count_below_unanimous(outcomes.drop_last(), below_curve);
    }
}

/// On a non-negative bounding rectangle the estimate lies between zero and
/// the rectangle's area.
pub proof fn lemma_estimate_within_rectangle(
    tally: TallyView,
    width: int,
    max_value: int,
    estimate: int,
)
    requires
        tally.wf(),
        0 <= width,
        0 <= max_value,
        tally.is_estimate(width, max_value, estimate),
    ensures
        0 <= estimate <= width * max_value,
{
    lemma_count_below_bounds(tally.outcomes);
    let hits = count_below(tally.outcomes) as int;
    let area = width * max_value;
    let n = tally.iterations as int;
    assert(0 <= area) by (nonlinear_arith)
        requires
            area == width * max_value,
            0 <= width,
            0 <= max_value,
    ;
    assert(0 <= estimate <= area) by (nonlinear_arith)
        requires
            estimate * n == hits * area,
            0 <= hits <= n,
            1 <= n,
            0 <= area,
    ;
}

/// Where the curve fills the bounding rectangle, as a constant function
/// does whose value is the rectangle's height, every trial falls below it,
/// and the one estimate of a finished tally is the rectangle's area.
pub proof fn lemma_full_rectangle_is_integrated_exactly(
    tally: TallyView,
    width: int,
    max_value: int,
    estimate: int,
)
    requires
        tally.wf(),
        forall|i: int| 0 <= i < tally.outcomes.len() ==> tally.outcomes[i],
        tally.is_complete(),
    ensures
        tally.is_estimate(width, max_value, estimate) <==> estimate == width * max_value,
{
    lemma_count_below_unanimous(tally.outcomes, true);
    let area = width * max_value;
    let n = tally.iterations as int;
    assert(estimate * n == n * area <==> estimate == area) by (nonlinear_arith)
        requires
            1 <= n,
    ;
}

/// An interval of no width has no area: the one estimate that a tally gives
/// on it is zero, whatever the outcomes.
pub proof fn lemma_degenerate_interval_has_no_area(
    tally: TallyView,
    max_value: int,
    estimate: int,
)
    requires
        tally.wf(),
    ensures
        tally.is_estimate(0, max_value, estimate) <==> estimate == 0,
{
    let n = tally.iterations as int;
    let hits = count_below(tally.outcomes) as int;
    assert(hits * (0 * max_value) == 0) by (nonlinear_arith);
    assert(estimate * n == 0 <==> estimate == 0) by (nonlinear_arith)
        requires
            1 <= n,
    ;
}

} // verus!
