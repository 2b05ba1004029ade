use crate::error::IntegrationError;
use vstd::prelude::*;

verus! {

/// One point of an evenly spaced grid over a closed interval `[lower, upper]`:
/// the point that lies `index` steps of `steps` equal steps above `lower`.
///
/// The point is kept as the exact fraction `index / steps` of the interval's
/// width, so that nothing is rounded before the caller places it.
#[derive(Clone, Copy, Debug, PartialEq, Eq, Structural)]
pub struct GridPoint {
    pub index: usize,
    pub steps: usize,
}

impl GridPoint {
    /// A grid has at least one step, and no point lies beyond its last step.
    pub open spec fn wf(self) -> bool {
        1 <= self.steps && self.index <= self.steps
    }

    /// In exact arithmetic, `x` is the place of this point in `[lower, upper]`:
    /// `x == lower + index * (upper - lower) / steps`, written without division.
    pub open spec fn lies_at(self, lower: int, upper: int, x: int) -> bool {
        self.steps * (x - lower) == self.index * (upper - lower)
    }

    /// Whether this is the grid's first point, the interval's lower bound.
    pub fn is_lower_bound(&self) -> (result: bool)
        ensures
            result == (self.index == 0),
    {
        self.index == 0
    }

    /// Whether this is the grid's last point, the interval's upper bound.
    pub fn is_upper_bound(&self) -> (result: bool)
        ensures
            result == (self.index == self.steps),
    {
        self.index == self.steps
    }
}

/// The grid of `num_steps` equal steps: its `num_steps + 1` points in rising
/// order, point `i` being `i` steps above the lower bound.
pub open spec fn even_grid(num_steps: nat) -> Seq<GridPoint> {
    Seq::new(
        num_steps + 1,
        |i: int| GridPoint { index: i as usize, steps: num_steps as usize },
    )
}

/// The `num_steps + 1` evenly spaced points that cut an interval into
/// `num_steps` equal steps, from the lower bound to the upper bound inclusive.
///
/// A grid of zero steps does not exist: that request is an invalid argument.
pub fn range_in_bounds(num_steps: usize) -> (result: Result<Vec<GridPoint>, IntegrationError>)
    requires
        num_steps < usize::MAX,
    ensures
        match result {
            Ok(points) => num_steps >= 1 && points@ == even_grid(num_steps as nat),
            Err(e) => num_steps == 0 && e == IntegrationError::InvalidArgument,
        },
{
    if num_steps == 0 {
        Err(IntegrationError::InvalidArgument)
    } else {
        Ok(even_grid_points(num_steps))
    }
}

pub(crate) fn even_grid_points(num_steps: usize) -> (points: Vec<GridPoint>)
    requires
        1 <= num_steps < usize::MAX,
    ensures
        points@ == even_grid(num_steps as nat),
{
    let mut points: Vec<GridPoint> = Vec::new();
    let mut index: usize = 0;
    while index <= num_steps
        invariant
            num_steps < usize::MAX,
            index <= num_steps + 1,
            points@.len() == index,
            forall|j: int|
                0 <= j < index ==> #[trigger] points@[j] == (GridPoint {
                    index: j as usize,
                    steps: num_steps,
                }),
        decreases num_steps + 1 - index,
    {
        points.push(GridPoint { index, steps: num_steps });
        index = index + 1;
    }
    assert(points@ =~= even_grid(num_steps as nat));
    points
}

/// A grid of `num_steps` steps has `num_steps + 1` points, each well formed;
/// the first is the lower bound and the last is the upper bound, whatever
/// the interval.
pub proof fn lemma_grid_spans_interval(num_steps: nat, lower: int, upper: int)
    requires
        1 <= num_steps <= usize::MAX,
    ensures
        even_grid(num_steps).len() == num_steps + 1,
        forall|i: int| 0 <= i <= num_steps ==> (#[trigger] even_grid(num_steps)[i]).wf(),
        even_grid(num_steps).first().lies_at(lower, upper, lower),
        even_grid(num_steps).last().lies_at(lower, upper, upper),
        forall|x: int| even_grid(num_steps).first().lies_at(lower, upper, x) ==> x == lower,
        forall|x: int| even_grid(num_steps).last().lies_at(lower, upper, x) ==> x == upper,
{
    let grid = even_grid(num_steps);
    assert(grid.first().index == 0);
    assert(grid.last().index == num_steps);
    assert(grid.last().steps == num_steps);
    assert forall|x: int| grid.first().lies_at(lower, upper, x) implies x == lower by {
        assert(num_steps * (x - lower) == 0);
        assert(x - lower == 0) by (nonlinear_arith)
            requires
                num_steps * (x - lower) == 0,
                num_steps >= 1,
        ;
    }
    assert forall|x: int| grid.last().lies_at(lower, upper, x) implies x == upper by {
        assert(x - lower == upper - lower) by (nonlinear_arith)
            requires
                num_steps * (x - lower) == num_steps * (upper - lower),
                num_steps >= 1,
        ;
    }
}

/// The points of a grid are evenly spaced: in exact arithmetic, neighbouring
/// points lie one `steps`-th of the interval's width apart.
pub proof fn lemma_grid_evenly_spaced(
    num_steps: nat,
    i: int,
    lower: int,
    upper: int,
    x: int,
    y: int,
)
    requires
        1 <= num_steps <= usize::MAX,
        0 <= i < num_steps,
        even_grid(num_steps)[i].lies_at(lower, upper, x),
        even_grid(num_steps)[i + 1].lies_at(lower, upper, y),
    ensures
        num_steps * (y - x) == upper - lower,
{
    assert(num_steps * (y - x) == upper - lower) by (nonlinear_arith)
        requires
            num_steps * (x - lower) == i * (upper - lower),
            num_steps * (y - lower) == (i + 1) * (upper - lower),
    ;
}

} // verus!
