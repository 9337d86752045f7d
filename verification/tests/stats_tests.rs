//! The order statistics: sorting, medians and outlier rejection.

use fontquant::stats::{median, reject_outliers, sort_values};

#[test]
fn sorts_values_ascending() {
    let v = vec![5i64, -2, 9, 0, 5];
    let s = sort_values(&v);
    assert_eq!(s, vec![-2i64, 0, 5, 5, 9]);
}

#[test]
fn median_of_odd_list_is_middle() {
    let v = vec![9i64, 1, 5];
    assert_eq!(median(&v), 5);
}

#[test]
fn median_of_even_list_is_midpoint() {
    let v = vec![4i64, 1, 2, 9];
    assert_eq!(median(&v), 3);
}

#[test]
fn median_of_single_value() {
    let v = vec![42i64];
    assert_eq!(median(&v), 42);
}

#[test]
fn rejection_of_two_values_is_a_no_op() {
    let v = vec![1_000_000i64, -1_000_000];
    assert_eq!(reject_outliers(&v), v);
}

#[test]
fn rejection_of_empty_list_is_a_no_op() {
    let v: Vec<i64> = Vec::new();
    assert_eq!(reject_outliers(&v), v);
}

#[test]
fn values_within_one_iqr_of_the_median_all_stay() {
    // Median 12 with an interquartile range of 2: every value lies within
    // one range of the median, so nothing is rejected.
    let v = vec![10i64, 11, 12, 13, 14];
    assert_eq!(reject_outliers(&v), v);
}

#[test]
fn rejection_drops_a_far_value() {
    // Quartiles are both 10, so only the exact value 10 stays.
    let v = vec![10i64, 10, 10, 10, 1000];
    assert_eq!(reject_outliers(&v), vec![10i64, 10, 10, 10]);
}

#[test]
fn rejection_keeps_order_of_survivors() {
    let v = vec![14i64, 10, 1000, 12, 11, 13, 12];
    let kept = reject_outliers(&v);
    assert_eq!(kept, vec![14i64, 10, 12, 11, 13, 12]);
}
