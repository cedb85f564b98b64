use dice_trials::partition::planned_worker_count;
use dice_trials::partition::resolve_worker_count;
use dice_trials::partition::split_budgets;

#[test]
fn budgets_for_1000_trials_on_4_workers() {
    let budgets = split_budgets(1000, 4);
    assert_eq!(budgets, vec![250, 250, 250, 250]);
    let total: u64 = budgets.iter().sum();
    assert_eq!(total, 1000);
}

#[test]
fn remainder_goes_entirely_to_the_first_worker() {
    let budgets = split_budgets(10, 3);
    assert_eq!(budgets, vec![4, 3, 3]);
    let total: u64 = budgets.iter().sum();
    assert_eq!(total, 10);
}

#[test]
fn single_worker_carries_everything() {
    assert_eq!(split_budgets(7, 1), vec![7]);
}

#[test]
fn zero_trials_split_into_zero_budgets() {
    let budgets = split_budgets(0, 5);
    assert_eq!(budgets, vec![0, 0, 0, 0, 0]);
}

#[test]
fn fewer_workers_than_remainder_never_loses_trials() {
    let budgets = split_budgets(u64::MAX, 7);
    assert_eq!(budgets.len(), 7);
    let total: u64 = budgets.iter().copied().fold(0u64, |acc, b| acc.checked_add(b).unwrap());
    assert_eq!(total, u64::MAX);
}

#[test]
fn worker_count_is_clamped_to_at_least_one() {
    assert_eq!(resolve_worker_count(0), 1);
    assert_eq!(resolve_worker_count(1), 1);
    assert_eq!(resolve_worker_count(2), 1);
    assert_eq!(resolve_worker_count(12), 11);
}

#[test]
fn planned_worker_count_is_at_least_one() {
    assert!(planned_worker_count() >= 1);
}
