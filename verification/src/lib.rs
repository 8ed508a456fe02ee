//! A verified core for a prediction-exercise tracker.
//!
//! An authority publishes an exercise (a content identifier plus a deadline),
//! registered traders submit numeric validations, the authority reveals an
//! outcome, and each validation is graded to fold a rating into the submitting
//! trader's running performance score.  Records live in a ledger keyed by a
//! deterministic derived address, so later calls can re-locate a record from
//! its identifying seeds without a stored pointer.

pub mod address;
pub mod error;
pub mod exercise;
pub mod ledger;
pub mod reputation;
pub mod state;
