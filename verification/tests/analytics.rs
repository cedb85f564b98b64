use dice_trials::analytics::reduce;
use dice_trials::analytics::ReportHandler;
use dice_trials::analytics::Sample;
use dice_trials::analytics::Snapshot;
use dice_trials::analytics::TickAction;
use dice_trials::partition::split_budgets;
use dice_trials::simulation::run_simulations;

#[test]
fn reducing_no_samples_yields_zeros() {
    let handler = ReportHandler::new(100);
    let snapshot = handler.refresh();
    assert_eq!(snapshot, Snapshot { position: 0, high_score: 0, wins: 0 });
}

#[test]
fn reduction_sums_progress_and_wins_and_maximises_the_best_outcome() {
    let samples = vec![
        Sample { progress: 1, high_score: 5, wins: 0 },
        Sample { progress: 2, high_score: 3, wins: 1 },
        Sample { progress: 4, high_score: 4, wins: 2 },
    ];
    let snapshot = reduce(&samples);
    assert_eq!(snapshot, Snapshot { position: 7, high_score: 5, wins: 3 });
}

#[test]
fn reduction_saturates_instead_of_overflowing() {
    let samples = vec![
        Sample { progress: u64::MAX, high_score: 0, wins: u64::MAX },
        Sample { progress: u64::MAX, high_score: 1, wins: 1 },
    ];
    let snapshot = reduce(&samples);
    assert_eq!(snapshot.position, u64::MAX);
    assert_eq!(snapshot.high_score, 1);
    assert_eq!(snapshot.wins, u64::MAX);
}

#[test]
fn a_refresh_reflects_what_the_workers_published() {
    let mut handler = ReportHandler::new(30);
    let mut first = handler.add_reporter(10);
    let mut second = handler.add_reporter(20);
    first.write_current_iterations(4);
    first.write_high_score(9);
    second.write_current_iterations(6);
    second.write_wins(1);
    let snapshot = handler.refresh();
    assert_eq!(snapshot.position, 10);
    assert_eq!(snapshot.high_score, 9);
    assert_eq!(snapshot.wins, 1);
}

#[test]
fn the_stop_signal_drives_the_final_render_and_only_it() {
    let mut handler = ReportHandler::new(0);
    assert_eq!(handler.observe(false), TickAction::Render);
    assert_eq!(handler.observe(false), TickAction::Render);
    assert_eq!(handler.observe(true), TickAction::FinalizeRender);
    handler.close();
}

#[test]
fn later_ticks_never_lower_the_reduction() {
    let mut handler = ReportHandler::new(100);
    let mut first = handler.add_reporter(60);
    let mut second = handler.add_reporter(40);
    first.write_current_iterations(10);
    first.write_high_score(50);
    let tick_one = handler.refresh();
    second.write_current_iterations(5);
    second.write_high_score(48);
    let tick_two = handler.refresh();
    first.write_current_iterations(60);
    first.write_high_score(61);
    second.write_current_iterations(40);
    let tick_three = handler.refresh();
    assert!(tick_one.position <= tick_two.position);
    assert!(tick_two.position <= tick_three.position);
    assert!(tick_one.high_score <= tick_two.high_score);
    assert!(tick_two.high_score <= tick_three.high_score);
    assert_eq!(tick_three.position, 100);
    assert_eq!(tick_three.high_score, 61);
}

#[test]
fn a_full_run_of_1000_trials_on_4_workers_aggregates_to_1000() {
    let total = 1000u64;
    let workers = 4usize;
    let budgets = split_budgets(total, workers);
    assert_eq!(budgets, vec![250, 250, 250, 250]);
    let mut handler = ReportHandler::new(total);
    for budget in budgets {
        let mut reporter = handler.add_reporter(budget);
        run_simulations(budget, &mut reporter);
        assert_eq!(reporter.read_current_iterations(), budget);
    }
    let snapshot = handler.refresh();
    assert_eq!(snapshot.position, 1000);
    assert!(snapshot.high_score <= 231);
}
