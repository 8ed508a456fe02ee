//! The error codes every operation can abort with.
//!
//! Each check is local and immediate: on any failure the call returns one of
//! these codes and commits no mutation, with a single deliberate exception
//! (`ExerciseTimeout` seals the exercise as a side effect of the failing
//! call, so repeated late submissions cannot re-trigger the same check).

use vstd::prelude::*;

verus! {

/// Why an operation was refused.
#[derive(Clone, Copy, Debug, PartialEq, Eq, Structural)]
pub enum ErrorCode {
    /// The caller is not the governance authority.
    WrongAuthority,
    /// An exercise was created with fewer validation slots than policy allows
    /// (and never with zero slots).
    ValidationsCapacityTooSmall,
    /// An exercise was created with a deadline that is not in the future.
    ExpiredTimeout,
    /// The caller is not the authority that created the exercise.
    WrongExerciseCreator,
    /// The submitting principal does not own the named trader record.
    WrongUser,
    /// The stored validation at the given index belongs to another trader.
    WrongValidationIndex,
    /// The submitting trader already has a validation on this exercise.
    DuplicatedValidation,
    /// The validation index is beyond the current bounds of the collection.
    InvalidValidationIndex,
    /// A record creation could not obtain a derived address.
    BumpNotFound,
    /// The exercise deadline has passed; the exercise is sealed as a side
    /// effect of this failure.
    ExerciseTimeout,
    /// The exercise accepts no further validations.
    ExerciseSealed,
    /// The governance minimum for validation capacity must be at least one.
    MinValidationsTooLow,
    /// No disambiguator in the search space yields an acceptable address.
    AddressCollisionExhausted,
    /// No exercise record lives at the given address (the not-found condition
    /// the host reports once an exercise has been destroyed).
    ExerciseNotFound,
    /// No trader record lives at the given address.
    TraderNotFound,
}

} // verus!
