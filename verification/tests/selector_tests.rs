use fast_lottery_engine::selector::{in_bounds, roll_limit, select, sum_weights};

#[test]
fn selector_picks_first_prize_for_low_roll() {
    let weights = vec![50, 30];
    assert_eq!(select(&weights, 10), Some(0));
}

#[test]
fn selector_picks_second_prize_past_first_weight() {
    let weights = vec![50, 30];
    assert_eq!(select(&weights, 55), Some(1));
}

#[test]
fn selector_gives_no_win_past_total_weight() {
    let weights = vec![50, 30];
    assert_eq!(sum_weights(&weights), 80);
    assert_eq!(roll_limit(80), 100);
    assert_eq!(select(&weights, 85), None);
}

#[test]
fn selector_boundaries_belong_to_the_earlier_prize() {
    let weights = vec![50, 30];
    assert_eq!(select(&weights, 1), Some(0));
    assert_eq!(select(&weights, 50), Some(0));
    assert_eq!(select(&weights, 51), Some(1));
    assert_eq!(select(&weights, 80), Some(1));
    assert_eq!(select(&weights, 81), None);
    assert_eq!(select(&weights, 100), None);
}

#[test]
fn selector_on_empty_list_never_wins() {
    let weights: Vec<i32> = Vec::new();
    assert_eq!(sum_weights(&weights), 0);
    assert_eq!(roll_limit(0), 100);
    for roll in 1..=100 {
        assert_eq!(select(&weights, roll), None);
    }
}

#[test]
fn selector_counts_negative_weights_as_zero() {
    let weights = vec![-5, 40, -1, 10];
    assert_eq!(sum_weights(&weights), 50);
    assert_eq!(select(&weights, 1), Some(1));
    assert_eq!(select(&weights, 40), Some(1));
    assert_eq!(select(&weights, 41), Some(3));
    assert_eq!(select(&weights, 50), Some(3));
    assert_eq!(select(&weights, 51), None);
}

#[test]
fn roll_limit_is_the_scale_or_the_total() {
    assert_eq!(roll_limit(0), 100);
    assert_eq!(roll_limit(99), 100);
    assert_eq!(roll_limit(100), 100);
    assert_eq!(roll_limit(101), 101);
    assert_eq!(roll_limit(250), 250);
}

#[test]
fn bounds_of_a_roll() {
    let weights = vec![50, 30];
    assert!(!in_bounds(&weights, 0));
    assert!(in_bounds(&weights, 1));
    assert!(in_bounds(&weights, 100));
    assert!(!in_bounds(&weights, 101));
    let heavy = vec![100, 100];
    assert!(in_bounds(&heavy, 200));
    assert!(!in_bounds(&heavy, 201));
}

#[test]
fn sum_of_many_large_weights_does_not_overflow() {
    let weights = vec![i32::MAX; 1000];
    assert_eq!(sum_weights(&weights), 1000 * (i32::MAX as i128));
    assert_eq!(select(&weights, 1000 * (i32::MAX as i128)), Some(999));
}
