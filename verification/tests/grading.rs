use trainer::reputation::grade;

#[test]
fn perfect_prediction_from_zero() {
    // rate = max(100 - |50 - 50|, 0) = 100; new = (0 + 100) / 2 = 50
    assert_eq!(grade(0, 50, 50), 50);
}

#[test]
fn repeated_perfect_predictions_converge() {
    let p1 = grade(0, 50, 50);
    assert_eq!(p1, 50);
    let p2 = grade(p1, 50, 50);
    assert_eq!(p2, 75);
    let p3 = grade(p2, 50, 50);
    assert_eq!(p3, 87);
    // keeps approaching 100 without ever reaching it
    let mut p = p3;
    for _ in 0..100 {
        p = grade(p, 50, 50);
        assert!(p < 100);
    }
    assert_eq!(p, 99);
}

#[test]
fn far_prediction_earns_nothing() {
    // rate = max(100 - |0 - 200|, 0) = 0; new = (0 + 0) / 2 = 0
    assert_eq!(grade(0, 0, 200), 0);
}

#[test]
fn far_prediction_decays_existing_score() {
    // rate 0 halves the running score
    assert_eq!(grade(80, 0, 200), 40);
}

#[test]
fn partial_credit_within_one_hundred_units() {
    // |30 - 25| = 5; rate = 95; new = (10 + 95) / 2 = 52 (floor)
    assert_eq!(grade(10, 30, 25), 52);
    // distance in the other direction earns the same rate
    assert_eq!(grade(10, 20, 25), 52);
}

#[test]
fn distance_of_exactly_one_hundred_earns_nothing() {
    assert_eq!(grade(0, 100, 0), 0);
    assert_eq!(grade(0, 99, 0), 0); // (0 + 1) / 2 floors to 0
    assert_eq!(grade(2, 99, 0), 1); // (2 + 1) / 2 floors to 1
}

#[test]
fn extreme_values_do_not_overflow() {
    // the widest possible distance earns nothing
    assert_eq!(grade(0, i64::MIN, i64::MAX), 0);
    assert_eq!(grade(0, i64::MAX, i64::MIN), 0);
    // a perfect prediction at the extremes earns the full rate
    assert_eq!(grade(0, i64::MIN, i64::MIN), 50);
    // a huge running score is halved toward (score + rate) / 2
    assert_eq!(grade(u64::MAX, 7, 7), 9223372036854775857);
}
