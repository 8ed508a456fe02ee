//! The reputation engine.
//!
//! Grading turns a submitted value and a revealed outcome into a rating in
//! `0 ..= 100` and folds it into the trader's running performance score as a
//! fixed-weight exponential moving average with integer floor division:
//!
//! ```text
//! rate            = max(100 - |value - outcome|, 0)
//! new_performance = (performance + rate) / 2
//! ```
//!
//! Predictions more than 100 units away from the outcome contribute nothing
//! positive (the rating is floored at zero, never a penalty), and repeated
//! perfect predictions approach but never reach a score of 100 because of the
//! floor division.

use vstd::prelude::*;

verus! {

/// The rating a single validation earns against the revealed outcome:
/// 100 for a perfect prediction, falling by one per unit of distance,
/// floored at zero.
pub open spec fn rate_spec(value: i64, outcome: i64) -> int {
    let distance = if value >= outcome {
        value - outcome
    } else {
        outcome - value
    };
    if distance >= 100 {
        0
    } else {
        100 - distance
    }
}

/// The trader's new performance score: the old score and the earned rating
/// averaged with floor division.
pub open spec fn grade_spec(performance: u64, value: i64, outcome: i64) -> u64 {
    (((performance + rate_spec(value, outcome)) / 2) as u64)
}

/// Grades one validation: computes the rating earned by predicting `value`
/// against the revealed `outcome` and folds it into `performance`.
pub fn grade(performance: u64, value: i64, outcome: i64) -> (updated: u64)
    ensures
        updated == grade_spec(performance, value, outcome),
{
    let distance_wide: i128 = value as i128 - outcome as i128;
    let distance: i128 = if distance_wide < 0 {
        -distance_wide
    } else {
        distance_wide
    };
    let rate: u64 = if distance >= 100 {
        0
    } else {
        (100 - distance) as u64
    };
    let sum: u128 = performance as u128 + rate as u128;
    (sum / 2) as u64
}

/// The rating is always in `0 ..= 100`, so one grading step can raise the
/// score by at most 50.
pub proof fn lemma_rate_bounded(value: i64, outcome: i64)
    ensures
        0 <= rate_spec(value, outcome) <= 100,
{
}

/// A score below 100 never decreases under a perfect prediction and never
/// reaches 100: grading converges toward 100 without attaining it.
pub proof fn lemma_grade_converges(performance: u64, value: i64)
    requires
        performance < 100,
    ensures
        performance <= grade_spec(performance, value, value),
        grade_spec(performance, value, value) < 100,
{
}

} // verus!
