use crate::error::IntegrationError;
use crate::grid::{even_grid, even_grid_points, GridPoint};
use vstd::prelude::*;

verus! {

/// The two composite rules that weigh samples taken on an even grid.
#[derive(Clone, Copy, Debug, PartialEq, Eq, Structural)]
pub enum RuleKind {
    /// Straight lines between neighbouring samples.
    Trapezoid,
    /// Parabolas through each pair of neighbouring subintervals.
    Simpson,
}

/// The weights of the composite trapezoidal rule on `num_subintervals`
/// panels: 1 for the two endpoints, 2 for every point between them, since
/// each inner point closes one panel and opens the next.
pub open spec fn trapezoid_weights(num_subintervals: nat) -> Seq<int> {
    Seq::new(
        num_subintervals + 1,
        |i: int|
            if i == 0 || i == num_subintervals {
                1int
            } else {
                2int
            },
    )
}

/// The weights of the composite Simpson rule on `num_pairs` pairs of
/// subintervals: 1 for the two endpoints, 4 for the odd indices, 2 for the
/// even indices between the endpoints.
pub open spec fn simpson_weights(num_pairs: nat) -> Seq<int> {
    Seq::new(
        2 * num_pairs + 1,
        |i: int|
            if i == 0 || i == 2 * num_pairs {
                1int
            } else if i % 2 == 1 {
                4int
            } else {
                2int
            },
    )
}

/// What a rule is, mathematically: its kind and the number of equal steps
/// into which it cuts the interval.
pub struct RuleView {
    pub kind: RuleKind,
    pub steps: nat,
}

impl RuleView {
    /// A rule has at least one step; Simpson's takes its steps in pairs.
    pub open spec fn wf(self) -> bool {
        &&& self.steps >= 1
        &&& self.kind == RuleKind::Simpson ==> self.steps % 2 == 0
    }

    /// The weight of each grid point, in grid order.
    pub open spec fn weights(self) -> Seq<int> {
        match self.kind {
            RuleKind::Trapezoid => trapezoid_weights(self.steps),
            RuleKind::Simpson => simpson_weights(self.steps / 2),
        }
    }

    /// The number by which the step width is divided before it scales the
    /// weighted sum of the samples.
    pub open spec fn divisor(self) -> int {
        match self.kind {
            RuleKind::Trapezoid => 2,
            RuleKind::Simpson => 3,
        }
    }
}

/// A composite quadrature rule on an even grid. The estimate that it stands
/// for is `step_width / divisor * sum(weight[i] * sample[i])`.
#[derive(Clone, Copy, Debug)]
pub struct QuadratureRule {
    kind: RuleKind,
    steps: usize,
}

impl View for QuadratureRule {
    type V = RuleView;

    closed spec fn view(&self) -> RuleView {
        RuleView { kind: self.kind, steps: self.steps as nat }
    }
}

impl QuadratureRule {
    #[verifier::type_invariant]
    spec fn inv(self) -> bool {
        self@.wf() && self.steps < usize::MAX
    }

    /// The composite trapezoidal rule on `num_subintervals` equal panels.
    ///
    /// A rule without a panel does not exist: zero is an invalid argument.
    pub fn trapezoid(num_subintervals: usize) -> (result: Result<QuadratureRule, IntegrationError>)
        requires
            num_subintervals < usize::MAX,
        ensures
            match result {
                Ok(rule) => num_subintervals >= 1 && rule@ == (RuleView {
                    kind: RuleKind::Trapezoid,
                    steps: num_subintervals as nat,
                }),
                Err(e) => num_subintervals == 0 && e == IntegrationError::InvalidArgument,
            },
    {
        if num_subintervals == 0 {
            Err(IntegrationError::InvalidArgument)
        } else {
            Ok(QuadratureRule { kind: RuleKind::Trapezoid, steps: num_subintervals })
        }
    }

    /// The composite Simpson rule on `num_pairs` pairs of equal subintervals,
    /// that is on `2 * num_pairs` steps.
    ///
    /// A rule without a pair does not exist: zero is an invalid argument.
    pub fn simpson(num_pairs: usize) -> (result: Result<QuadratureRule, IntegrationError>)
        requires
            2 * num_pairs < usize::MAX,
        ensures
            match result {
                Ok(rule) => num_pairs >= 1 && rule@ == (RuleView {
                    kind: RuleKind::Simpson,
                    steps: (2 * num_pairs) as nat,
                }),
                Err(e) => num_pairs == 0 && e == IntegrationError::InvalidArgument,
            },
    {
        if num_pairs == 0 {
            Err(IntegrationError::InvalidArgument)
        } else {
            Ok(QuadratureRule { kind: RuleKind::Simpson, steps: 2 * num_pairs })
        }
    }

    /// Which rule this is.
    pub fn kind(&self) -> (result: RuleKind)
        ensures
            result == self@.kind,
    {
        self.kind
    }

    /// The number of equal steps into which the rule cuts the interval.
    pub fn steps(&self) -> (result: usize)
        ensures
            result == self@.steps,
            self@.wf(),
    {
        proof {
            use_type_invariant(self);
        }
        self.steps
    }

    /// The number of points at which the rule samples the function.
    pub fn point_count(&self) -> (result: usize)
        ensures
            result == self@.steps + 1,
            result == self@.weights().len(),
    {
        proof {
            use_type_invariant(self);
        }
        self.steps + 1
    }

    /// The number by which the step width is divided.
    pub fn divisor(&self) -> (result: u64)
        ensures
            result == self@.divisor(),
    {
        match self.kind {
            RuleKind::Trapezoid => 2,
            RuleKind::Simpson => 3,
        }
    }

    fn weight_within(&self, index: usize) -> (result: u64)
        requires
            index <= self@.steps,
        ensures
            result == self@.weights()[index as int],
    {
        proof {
            use_type_invariant(self);
        }
        if index == 0 || index == self.steps {
            1
        } else {
            match self.kind {
                RuleKind::Trapezoid => 2,
                RuleKind::Simpson => if index % 2 == 1 {
                    4
                } else {
                    2
                },
            }
        }
    }

    /// The weight of the grid point `index`, or `None` where the grid has no
    /// such point.
    pub fn weight(&self, index: usize) -> (result: Option<u64>)
        ensures
            match result {
                Some(w) => index <= self@.steps && w == self@.weights()[index as int],
                None => index > self@.steps,
            },
    {
        if index <= self.steps {
            Some(self.weight_within(index))
        } else {
            None
        }
    }

    /// The weights of all grid points, in grid order.
    pub fn weights(&self) -> (result: Vec<u64>)
        ensures
            result@.map_values(|w: u64| w as int) == self@.weights(),
    {
        proof {
            use_type_invariant(self);
        }
        let mut weights: Vec<u64> = Vec::new();
        let mut index: usize = 0;
        while index <= self.steps
            invariant
                self.steps < usize::MAX,
                self@.steps == self.steps,
                index <= self.steps + 1,
                weights@.len() == index,
                forall|j: int| 0 <= j < index ==> #[trigger] weights@[j] == self@.weights()[j],
            decreases self.steps + 1 - index,
        {
            weights.push(self.weight_within(index));
            index = index + 1;
        }
        assert(weights@.map_values(|w: u64| w as int) =~= self@.weights());
        weights
    }

    /// The grid points at which the rule samples the function, in order.
    pub fn grid(&self) -> (result: Vec<GridPoint>)
        ensures
            result@ == even_grid(self@.steps),
    {
        proof {
            use_type_invariant(self);
        }
        even_grid_points(self.steps)
    }
}

} // verus!
