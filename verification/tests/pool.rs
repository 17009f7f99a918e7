use std::time::Duration;
use valve::pool::{warm_target, warm_workers, PrunePass, WarmOutcome};

const SECOND: u128 = 1_000_000_000;

fn sweep(size: usize, n_min: usize, max_age_secs: u64, idle: &[u128]) -> Vec<bool> {
    match PrunePass::begin(size, n_min, max_age_secs) {
        Some(mut pass) => idle.iter().map(|nanos| pass.retain(*nanos)).collect(),
        None => idle.iter().map(|_| true).collect(),
    }
}

#[test]
fn warm_target_is_n_min_within_bounds() {
    assert_eq!(warm_target(1, 3), 1);
    assert_eq!(warm_target(3, 3), 3);
    assert_eq!(warm_target(5, 3), 3);
    assert_eq!(warm_target(0, 3), 1);
    assert_eq!(warm_target(0, 0), 1);
    assert_eq!(warm_target(7, 0), 1);
    assert_eq!(warm_target(usize::MAX, usize::MAX), usize::MAX);
}

#[test]
fn warm_workers_are_counted() {
    assert_eq!(warm_workers(&vec![]), 0);
    assert_eq!(warm_workers(&vec![WarmOutcome::PoolError, WarmOutcome::TaskPanicked]), 0);
    assert_eq!(
        warm_workers(&vec![WarmOutcome::Worker, WarmOutcome::PoolError, WarmOutcome::Worker]),
        2
    );
}

#[test]
fn pool_starts_with_n_min_workers() {
    let outcomes = vec![WarmOutcome::Worker; warm_target(4, 10)];
    assert_eq!(warm_workers(&outcomes), 4);
}

#[test]
fn no_pass_over_a_small_pool() {
    assert!(PrunePass::begin(0, 0, 10).is_none());
    assert!(PrunePass::begin(2, 2, 10).is_none());
    assert!(PrunePass::begin(1, 2, 10).is_none());
    assert_eq!(PrunePass::begin(5, 2, 10).unwrap().removable, 3);
}

#[test]
fn quiet_pool_is_pruned_to_n_min_and_no_further() {
    let flags = sweep(5, 2, 10, &[100 * SECOND; 5]);
    assert_eq!(flags, vec![false, false, false, true, true]);
}

#[test]
fn only_expired_workers_go() {
    let flags = sweep(4, 0, 10, &[10 * SECOND, 10 * SECOND - 1, 0, 11 * SECOND]);
    assert_eq!(flags, vec![false, true, true, false]);
}

#[test]
fn first_expired_workers_go_first() {
    let flags = sweep(3, 1, 1, &[0, 5 * SECOND, 6 * SECOND]);
    assert_eq!(flags, vec![true, false, false]);
    let flags = sweep(3, 2, 1, &[0, 5 * SECOND, 6 * SECOND]);
    assert_eq!(flags, vec![true, false, true]);
}

#[test]
fn n_min_is_kept_over_many_passes() {
    let mut size: usize = 9;
    for _ in 0..5 {
        let idle = vec![60 * SECOND; size];
        let removed = sweep(size, 3, 60, &idle).iter().filter(|keep| !**keep).count();
        size -= removed;
        assert!(size >= 3);
    }
    assert_eq!(size, 3);
}

#[test]
fn age_is_compared_as_durations_are() {
    let spans = [
        Duration::new(0, 0),
        Duration::new(9, 999_999_999),
        Duration::new(10, 0),
        Duration::new(10, 1),
        Duration::new(u64::MAX, 999_999_999),
    ];
    for max_age in [0, 10, u64::MAX] {
        for span in spans {
            let keep = PrunePass::begin(1, 0, max_age).unwrap().retain(span.as_nanos());
            assert_eq!(keep, span < Duration::from_secs(max_age));
        }
    }
}

#[test]
fn second_pass_lets_none_go() {
    let idle = [60 * SECOND, 0, 61 * SECOND, 62 * SECOND];
    for n_min in 0..4 {
        let flags = sweep(4, n_min, 60, &idle);
        let left: Vec<u128> = (0..4).filter(|i| flags[*i]).map(|i| idle[i]).collect();
        assert!(left.len() >= n_min);
        assert!(sweep(left.len(), n_min, 60, &left).iter().all(|keep| *keep));
    }
}
