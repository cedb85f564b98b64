use dice_trials::analytics::Reporter;
use dice_trials::simulation::naive_run;
use dice_trials::simulation::run_simulations;
use dice_trials::simulation::run_trial;
use dice_trials::simulation::TrialTotals;
use dice_trials::simulation::ROLLS_PER_TRIAL;

#[test]
fn a_trial_score_never_exceeds_the_roll_count() {
    for _ in 0..100 {
        assert!(run_trial() <= ROLLS_PER_TRIAL);
    }
}

#[test]
fn recording_a_perfect_trial_counts_a_win() {
    let mut totals = TrialTotals::new();
    totals.record_trial(ROLLS_PER_TRIAL);
    assert_eq!(totals.iterations, 1);
    assert_eq!(totals.high_score, ROLLS_PER_TRIAL);
    assert_eq!(totals.wins, 1);
}

#[test]
fn recording_tracks_the_running_maximum() {
    let mut totals = TrialTotals::new();
    totals.record_trial(5);
    totals.record_trial(3);
    totals.record_trial(9);
    assert_eq!(totals.iterations, 3);
    assert_eq!(totals.high_score, 9);
    assert_eq!(totals.wins, 0);
}

#[test]
fn a_worker_publishes_exactly_its_budget() {
    let mut reporter = Reporter::new(500);
    assert_eq!(reporter.desired_iterations(), 500);
    run_simulations(500, &mut reporter);
    assert_eq!(reporter.read_current_iterations(), 500);
    assert!(reporter.read_high_score() <= ROLLS_PER_TRIAL);
    assert!(reporter.read_wins() <= 500);
}

#[test]
fn a_large_run_converges_to_a_plausible_best_outcome() {
    // With 20,000 trials of 231 rolls at success chance 1/4, the best score
    // lands far inside [40, 110] except with negligible probability.
    let mut reporter = Reporter::new(20_000);
    run_simulations(20_000, &mut reporter);
    let best = reporter.read_high_score();
    assert!(best >= 40, "best outcome {best} implausibly low");
    assert!(best <= 110, "best outcome {best} implausibly high");
}

#[test]
fn the_naive_loop_stops_immediately_on_a_zero_threshold() {
    let out = naive_run(0, 100);
    assert_eq!(out.sessions, 0);
    assert_eq!(out.max_ones, 0);
}

#[test]
fn the_naive_loop_runs_to_the_cap_when_the_threshold_is_unreachable() {
    let out = naive_run(ROLLS_PER_TRIAL + 1, 50);
    assert_eq!(out.sessions, 50);
    assert!(out.max_ones <= ROLLS_PER_TRIAL);
}

#[test]
fn the_naive_loop_stops_early_once_the_threshold_is_met() {
    let out = naive_run(1, 1_000_000);
    assert!(out.sessions < 1_000_000);
    assert!(out.max_ones >= 1);
}
