use random_integration::error::IntegrationError;
use random_integration::grid::{range_in_bounds, GridPoint};

fn place(point: &GridPoint, lower: f64, upper: f64) -> f64 {
    lower + (point.index as f64) * (upper - lower) / (point.steps as f64)
}

#[test]
fn range_in_bounds_has_one_point_more_than_steps() {
    for n in [1usize, 2, 3, 10, 1000] {
        let points = range_in_bounds(n).unwrap();
        assert_eq!(points.len(), n + 1);
    }
}

#[test]
fn range_in_bounds_numbers_points_in_order() {
    let points = range_in_bounds(4).unwrap();
    assert_eq!(
        points,
        vec![
            GridPoint { index: 0, steps: 4 },
            GridPoint { index: 1, steps: 4 },
            GridPoint { index: 2, steps: 4 },
            GridPoint { index: 3, steps: 4 },
            GridPoint { index: 4, steps: 4 },
        ]
    );
}

#[test]
fn range_in_bounds_single_step_is_the_two_bounds() {
    let points = range_in_bounds(1).unwrap();
    assert_eq!(points.len(), 2);
    assert!(points[0].is_lower_bound());
    assert!(!points[0].is_upper_bound());
    assert!(points[1].is_upper_bound());
    assert!(!points[1].is_lower_bound());
}

#[test]
fn range_in_bounds_starts_at_lower_and_ends_at_upper() {
    let (lower, upper) = (-1.0f64, 1.0f64);
    for n in [1usize, 7, 1000] {
        let points = range_in_bounds(n).unwrap();
        let first = &points[0];
        let last = &points[points.len() - 1];
        assert!(first.is_lower_bound());
        assert!(last.is_upper_bound());
        assert_eq!(place(first, lower, upper), lower);
        assert!((place(last, lower, upper) - upper).abs() < 1e-12);
    }
}

#[test]
fn range_in_bounds_places_points_evenly() {
    let (lower, upper) = (2.0f64, 4.0f64);
    let points = range_in_bounds(4).unwrap();
    let xs: Vec<f64> = points.iter().map(|p| place(p, lower, upper)).collect();
    assert_eq!(xs, vec![2.0, 2.5, 3.0, 3.5, 4.0]);
}

#[test]
fn range_in_bounds_inner_points_are_no_bounds() {
    let points = range_in_bounds(3).unwrap();
    assert!(!points[1].is_lower_bound());
    assert!(!points[1].is_upper_bound());
    assert!(!points[2].is_lower_bound());
    assert!(!points[2].is_upper_bound());
}

#[test]
fn range_in_bounds_rejects_zero_steps() {
    assert_eq!(range_in_bounds(0), Err(IntegrationError::InvalidArgument));
}

#[test]
fn range_in_bounds_gives_the_same_points_each_time() {
    assert_eq!(range_in_bounds(12), range_in_bounds(12));
}
