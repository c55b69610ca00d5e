use speech_gateway::evict::{
    is_too_old, oldest_first, sum_sizes, CacheFile, EvictionWalk, MAX_AGE_NANOS, MAX_TOTAL_BYTES,
    RUN_INTERVAL_SECS,
};

const DAY: i128 = 86_400_000_000_000;
const NOW: i128 = 1_700_000_000_000_000_000;
const MIB: u64 = 1024 * 1024;

fn file(age: i128, size: u64) -> CacheFile {
    CacheFile { modified: NOW - age, size }
}

/// Runs the walk to its end; `fails` lists the places whose deletion fails.
fn run(files: &[CacheFile], fails: &[usize]) -> (Vec<usize>, u128) {
    let mut walk = EvictionWalk::new(files.to_vec(), NOW);
    let mut removed = Vec::new();
    let mut steps = 0;
    while let Some(place) = walk.candidate() {
        let ok = !fails.contains(&place);
        if ok {
            removed.push(place);
        }
        walk = walk.after_removal(ok);
        steps += 1;
        assert!(steps <= files.len());
    }
    (removed, walk.total())
}

#[test]
fn thresholds_are_three_days_and_one_gibibyte() {
    assert_eq!(MAX_AGE_NANOS, 3 * DAY);
    assert_eq!(MAX_TOTAL_BYTES, 1024 * MIB);
    assert_eq!(RUN_INTERVAL_SECS, 3600);
}

#[test]
fn old_files_are_removed_whatever_the_total() {
    let files = [file(DAY, 1), file(4 * DAY, 1), file(0, 1), file(3 * DAY + 1, 1)];
    let (removed, total) = run(&files, &[]);
    assert_eq!(removed, vec![1, 3]);
    assert_eq!(total, 2);
}

#[test]
fn nothing_is_removed_within_both_bounds() {
    let files = [file(DAY, 100 * MIB), file(2 * DAY, 100 * MIB), file(3 * DAY, 100 * MIB)];
    let (removed, total) = run(&files, &[]);
    assert_eq!(removed, Vec::<usize>::new());
    assert_eq!(total, 300 * MIB as u128);
}

#[test]
fn empty_directory_needs_no_work() {
    let (removed, total) = run(&[], &[]);
    assert_eq!(removed, Vec::<usize>::new());
    assert_eq!(total, 0);
}

#[test]
fn oldest_files_go_first_until_the_total_fits() {
    // 1.5 GiB in three files: removing the oldest brings the total to 1 GiB.
    let files = [file(100, 512 * MIB), file(300, 512 * MIB), file(200, 512 * MIB)];
    let (removed, total) = run(&files, &[]);
    assert_eq!(removed, vec![1]);
    assert_eq!(total, 1024 * MIB as u128);
}

#[test]
fn removal_goes_on_while_the_total_is_over_budget() {
    let files = [
        file(10, 600 * MIB),
        file(40, 600 * MIB),
        file(30, 600 * MIB),
        file(20, 600 * MIB),
    ];
    let (removed, total) = run(&files, &[]);
    assert_eq!(removed, vec![1, 2, 3]);
    assert_eq!(total, 600 * MIB as u128);
}

#[test]
fn a_single_file_over_budget_is_removed() {
    let files = [file(0, 2048 * MIB)];
    let (removed, total) = run(&files, &[]);
    assert_eq!(removed, vec![0]);
    assert_eq!(total, 0);
}

#[test]
fn a_failed_deletion_leaves_the_total_and_the_walk_goes_on() {
    let files = [file(100, 512 * MIB), file(300, 512 * MIB), file(200, 512 * MIB)];
    let (removed, total) = run(&files, &[1]);
    assert_eq!(removed, vec![2]);
    assert_eq!(total, 1024 * MIB as u128);
}

#[test]
fn failed_deletions_never_end_the_run_early() {
    let files = [file(4 * DAY, 1), file(5 * DAY, 1), file(6 * DAY, 1)];
    let (removed, total) = run(&files, &[0, 1, 2]);
    assert_eq!(removed, Vec::<usize>::new());
    assert_eq!(total, 3);
}

#[test]
fn walk_stops_at_the_first_file_within_bounds() {
    let files = [file(5 * DAY, 10), file(DAY, 10), file(4 * DAY, 10)];
    let mut walk = EvictionWalk::new(files.to_vec(), NOW);
    assert_eq!(walk.candidate(), Some(0));
    walk = walk.after_removal(true);
    assert_eq!(walk.candidate(), Some(2));
    walk = walk.after_removal(true);
    assert_eq!(walk.candidate(), None);
    walk = walk.after_removal(true);
    assert_eq!(walk.candidate(), None);
    assert_eq!(walk.total(), 10);
}

#[test]
fn files_of_equal_age_keep_the_order_of_the_listing() {
    let files = vec![file(5, 1), file(9, 1), file(5, 1), file(9, 1), file(7, 1), file(5, 1)];
    assert_eq!(oldest_first(&files), vec![1, 3, 4, 0, 2, 5]);
    assert_eq!(oldest_first(&Vec::new()), Vec::<usize>::new());
}

#[test]
fn sizes_add_up_beyond_sixty_four_bits() {
    let files = vec![file(0, u64::MAX), file(0, u64::MAX), file(0, 2)];
    assert_eq!(sum_sizes(&files), 2 * (u64::MAX as u128) + 2);
}

#[test]
fn retention_is_three_days_to_the_nanosecond() {
    assert!(!is_too_old(NOW, NOW - 3 * DAY));
    assert!(is_too_old(NOW, NOW - 3 * DAY - 1));
    assert!(!is_too_old(NOW, NOW));
}

#[test]
fn a_file_from_the_future_has_age_zero() {
    assert!(!is_too_old(NOW, NOW + 10 * DAY));
    assert!(!is_too_old(i128::MIN, i128::MAX));
    assert!(is_too_old(i128::MAX, i128::MIN));
    assert!(is_too_old(0, -3 * DAY - 1));
    assert!(!is_too_old(i128::MAX, i128::MAX - 3 * DAY));
}
