use rand::rngs::StdRng;
use rand::{Rng, SeedableRng};
use random_integration::error::IntegrationError;
use random_integration::tally::MonteCarloTally;

fn monte_carlo(
    f: fn(f64) -> f64,
    lower: f64,
    upper: f64,
    iterations: usize,
    max_value: f64,
    rng: &mut StdRng,
) -> f64 {
    let mut tally = MonteCarloTally::new(iterations).unwrap();
    while !tally.is_complete() {
        let x = lower + rng.gen::<f64>() * (upper - lower);
        let y = rng.gen::<f64>() * max_value;
        tally.record(y < f(x));
    }
    (tally.below() as f64) / (tally.iterations() as f64) * (upper - lower) * max_value
}

fn quarter_circle(x: f64) -> f64 {
    (1.0 - x * x).sqrt()
}

fn parabola(x: f64) -> f64 {
    x * x
}

fn seven_halves(_x: f64) -> f64 {
    3.5
}

#[test]
fn tally_rejects_zero_iterations() {
    assert!(matches!(MonteCarloTally::new(0), Err(IntegrationError::InvalidArgument)));
}

#[test]
fn new_tally_has_made_no_trial() {
    let tally = MonteCarloTally::new(5).unwrap();
    assert_eq!(tally.iterations(), 5);
    assert_eq!(tally.trials(), 0);
    assert_eq!(tally.below(), 0);
    assert!(!tally.is_complete());
}

#[test]
fn tally_counts_the_trials_below_the_curve() {
    let mut tally = MonteCarloTally::new(4).unwrap();
    assert!(tally.record(true));
    assert!(tally.record(false));
    assert!(tally.record(true));
    assert_eq!(tally.trials(), 3);
    assert_eq!(tally.below(), 2);
    assert!(!tally.is_complete());
    assert!(tally.record(false));
    assert_eq!(tally.trials(), 4);
    assert_eq!(tally.below(), 2);
    assert!(tally.is_complete());
}

#[test]
fn finished_tally_takes_no_more_trials() {
    let mut tally = MonteCarloTally::new(1).unwrap();
    assert!(tally.record(true));
    assert!(tally.is_complete());
    assert!(!tally.record(true));
    assert!(!tally.record(false));
    assert_eq!(tally.trials(), 1);
    assert_eq!(tally.below(), 1);
    assert_eq!(tally.iterations(), 1);
}

#[test]
fn tally_makes_every_trial_asked_for() {
    let mut tally = MonteCarloTally::new(1000).unwrap();
    let mut made = 0usize;
    while !tally.is_complete() {
        tally.record(made % 4 == 0);
        made += 1;
    }
    assert_eq!(made, 1000);
    assert_eq!(tally.trials(), 1000);
    assert_eq!(tally.below(), 250);
    let estimate = (tally.below() as f64) / (tally.iterations() as f64) * 2.0 * 3.0;
    assert_eq!(estimate, 1.5);
}

#[test]
fn tally_with_no_trial_below_estimates_zero() {
    let mut tally = MonteCarloTally::new(10).unwrap();
    while !tally.is_complete() {
        tally.record(false);
    }
    assert_eq!(tally.below(), 0);
}

#[test]
fn monte_carlo_constant_function_fills_the_rectangle() {
    let mut rng = StdRng::seed_from_u64(7);
    for iterations in [1usize, 10, 1000] {
        let value = monte_carlo(seven_halves, 1.0, 5.0, iterations, 3.5, &mut rng);
        assert!((value - 3.5 * (5.0 - 1.0)).abs() < 1e-12);
    }
}

#[test]
fn monte_carlo_degenerate_interval_has_no_area() {
    let mut rng = StdRng::seed_from_u64(11);
    let value = monte_carlo(parabola, 3.0, 3.0, 100, 9.0, &mut rng);
    assert_eq!(value, 0.0);
}

#[test]
fn monte_carlo_parabola_is_two_thirds() {
    let mut rng = StdRng::seed_from_u64(2024);
    let value = monte_carlo(parabola, -1.0, 1.0, 1_000_000, 1.0, &mut rng);
    assert!((value - 2.0 / 3.0).abs() < 1e-2);
}

#[test]
fn monte_carlo_quarter_circle_approaches_a_quarter_of_pi() {
    let expected = std::f64::consts::PI / 4.0;
    let mut rng = StdRng::seed_from_u64(1);
    let mut errors: Vec<f64> = Vec::new();
    for iterations in [1_000usize, 10_000, 100_000] {
        let runs = 20;
        let mut total = 0.0f64;
        for _ in 0..runs {
            let value = monte_carlo(quarter_circle, 0.0, 1.0, iterations, 1.0, &mut rng);
            total += (value - expected).abs();
        }
        errors.push(total / runs as f64);
    }
    assert!(errors[0] >= errors[1]);
    assert!(errors[1] >= errors[2]);
    assert!(errors[2] < 1e-2);
}

#[test]
fn monte_carlo_estimate_lies_within_the_rectangle() {
    let mut rng = StdRng::seed_from_u64(3);
    for iterations in [1usize, 2, 3, 50] {
        let value = monte_carlo(quarter_circle, 0.0, 1.0, iterations, 1.0, &mut rng);
        assert!(0.0 <= value && value <= 1.0);
    }
}
