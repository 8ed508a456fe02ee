//! The exercise: a prediction challenge and its lifecycle state machine.
//!
//! An exercise is created open, with a deadline and a bounded validation
//! collection pre-sized for `validations_capacity` entries.  Submissions
//! append validations until the collection is full or the deadline passes;
//! either seals the exercise (a full collection immediately, a passed
//! deadline lazily, as a side effect of the first late call).  Sealing is
//! monotonic: a sealed exercise never reopens.  Grading consumes validations
//! one by one; removal shifts every later entry down one position, so callers
//! holding indices must re-resolve them after each successful check.

use vstd::prelude::*;
use vstd::string::StringSliceAdditionalSpecFns;
use crate::error::ErrorCode;
use crate::reputation::grade;
use crate::reputation::grade_spec;
use crate::state::PRINCIPAL_SPACE;
use crate::state::TAG_SPACE;
use crate::state::Trader;
use crate::state::TraderV;
use crate::state::VALIDATION_SPACE;
use crate::state::Validation;

verus! {

/// A prediction challenge: its deadline, its bounded validation collection,
/// and the authority that may reveal the outcome and grade.
#[derive(Debug)]
pub struct Exercise {
    /// Whether the exercise accepts further validations; monotonic.
    pub sealed: bool,
    /// The deadline, immutable after creation.
    pub timeout: i64,
    /// The content identifier of the published challenge.
    pub cid: String,
    /// The principal that created the exercise.
    pub authority: u64,
    /// The revealed ground truth; zero until revealed, and a later reveal
    /// overwrites it (a deliberate correction allowance).
    pub outcome: i64,
    /// How many validations the collection was pre-sized for; positive.
    pub validations_capacity: u8,
    /// The validations submitted so far, in submission order.
    pub validations: Vec<Validation>,
    /// The disambiguator the exercise's address was derived with.
    pub bump: u8,
}

/// The mathematical value of an exercise record.
#[verifier::ext_equal]
pub ghost struct ExerciseV {
    pub sealed: bool,
    pub timeout: i64,
    pub cid: Seq<char>,
    pub authority: u64,
    pub outcome: i64,
    pub validations_capacity: u8,
    pub validations: Seq<Validation>,
    pub bump: u8,
}

impl View for Exercise {
    type V = ExerciseV;

    open spec fn view(&self) -> ExerciseV {
        ExerciseV {
            sealed: self.sealed,
            timeout: self.timeout,
            cid: self.cid@,
            authority: self.authority,
            outcome: self.outcome,
            validations_capacity: self.validations_capacity,
            validations: self.validations@,
            bump: self.bump,
        }
    }
}

/// Whether some validation in the collection was submitted by `user`.
pub open spec fn has_submitter(validations: Seq<Validation>, user: u64) -> bool {
    exists|i: int| 0 <= i < validations.len() && validations[i].user == user
}

impl ExerciseV {
    /// The exercise's invariant: the capacity is positive, the collection
    /// never exceeds it, and an unsealed exercise always has room (the
    /// moment the collection fills, the exercise seals).
    pub open spec fn wf(self) -> bool {
        &&& self.validations_capacity >= 1
        &&& self.validations.len() <= self.validations_capacity
        &&& (!self.sealed ==> self.validations.len() < self.validations_capacity)
    }
}

/// The freshly created exercise: open, with an empty collection and an
/// outcome of zero until revealed.
pub open spec fn fresh_exercise(
    cid: Seq<char>,
    validations_capacity: u8,
    timeout: i64,
    authority: u64,
    bump: u8,
) -> ExerciseV {
    ExerciseV {
        sealed: false,
        timeout,
        cid,
        authority,
        outcome: 0,
        validations_capacity,
        validations: Seq::empty(),
        bump,
    }
}

/// Whether a creation request passes the policy checks: the capacity must
/// reach the governance minimum (and be positive), and the deadline must be
/// strictly in the future.
pub open spec fn create_check(
    validations_capacity: u8,
    timeout: i64,
    min_validations: u8,
    now: i64,
) -> Result<(), ErrorCode> {
    if validations_capacity < min_validations || validations_capacity == 0 {
        Err(ErrorCode::ValidationsCapacityTooSmall)
    } else if now >= timeout {
        Err(ErrorCode::ExpiredTimeout)
    } else {
        Ok(())
    }
}

/// How a submission is answered: a sealed exercise refuses it outright, a
/// passed deadline refuses it while sealing, and a submitter already present
/// is refused as a duplicate.  The order matters: a timed-out exercise must
/// reject before the duplicate check can accept anything.
pub open spec fn add_validation_check(ex: ExerciseV, user: u64, now: i64) -> Result<
    (),
    ErrorCode,
> {
    if ex.sealed {
        Err(ErrorCode::ExerciseSealed)
    } else if ex.timeout < now {
        Err(ErrorCode::ExerciseTimeout)
    } else if has_submitter(ex.validations, user) {
        Err(ErrorCode::DuplicatedValidation)
    } else {
        Ok(())
    }
}

/// The exercise after a submission: unchanged on refusal, except that the
/// deadline having passed seals it; on acceptance the validation is
/// appended, and reaching capacity seals it.
pub open spec fn add_validation_next(
    ex: ExerciseV,
    value: i64,
    trader: u64,
    user: u64,
    now: i64,
) -> ExerciseV {
    if ex.sealed {
        ex
    } else if ex.timeout < now {
        ExerciseV { sealed: true, ..ex }
    } else if has_submitter(ex.validations, user) {
        ex
    } else {
        let validations = ex.validations.push(Validation { value, trader, user });
        ExerciseV {
            sealed: validations.len() == ex.validations_capacity,
            validations,
            ..ex
        }
    }
}

/// Whether a grading request is admissible: the caller must be the creating
/// authority, the index must be within the current bounds, and the stored
/// validation at that index must belong to the named trader.
pub open spec fn check_validation_check(
    ex: ExerciseV,
    index: u8,
    trader_address: u64,
    authority: u64,
) -> Result<(), ErrorCode> {
    if authority != ex.authority {
        Err(ErrorCode::WrongExerciseCreator)
    } else if index as int >= ex.validations.len() {
        Err(ErrorCode::InvalidValidationIndex)
    } else if ex.validations[index as int].trader != trader_address {
        Err(ErrorCode::WrongValidationIndex)
    } else {
        Ok(())
    }
}

/// The exercise after a successful grading: the validation at `index` is
/// removed, shifting every later entry down one position.
pub open spec fn checked_exercise(ex: ExerciseV, index: u8) -> ExerciseV {
    ExerciseV { validations: ex.validations.remove(index as int), ..ex }
}

/// The trader after a grading step: the earned rating folded into the
/// running performance score.
pub open spec fn graded_trader(trader: TraderV, value: i64, outcome: i64) -> TraderV {
    TraderV { performance: grade_spec(trader.performance, value, outcome), ..trader }
}

/// The exercise after an outcome reveal.
pub open spec fn revealed_exercise(ex: ExerciseV, outcome: i64) -> ExerciseV {
    ExerciseV { outcome, ..ex }
}

/// Appending a validation adds exactly its submitter to the collection's
/// submitters and keeps every other.
pub proof fn lemma_has_submitter_push(validations: Seq<Validation>, v: Validation, user: u64)
    ensures
        has_submitter(validations.push(v), user) <==> (has_submitter(validations, user)
            || v.user == user),
{
    if has_submitter(validations, user) {
        let i = choose|i: int| 0 <= i < validations.len() && validations[i].user == user;
        assert(validations.push(v)[i].user == user);
    }
    if v.user == user {
        assert(validations.push(v)[validations.len() as int].user == user);
    }
    if has_submitter(validations.push(v), user) && v.user != user {
        let i = choose|i: int|
            0 <= i < validations.push(v).len() && validations.push(v)[i].user == user;
        assert(validations[i].user == user);
    }
}

/// A second submission from a trader already present always fails; while the
/// exercise is neither sealed nor past its deadline it fails precisely as a
/// duplicate.  (Once the exercise is sealed or timed out, those refusals
/// come first, so the duplicate is refused under their codes instead.)
pub proof fn lemma_duplicate_always_refused(ex: ExerciseV, user: u64, now: i64)
    requires
        has_submitter(ex.validations, user),
    ensures
        add_validation_check(ex, user, now) !is Ok,
        !ex.sealed && now <= ex.timeout ==> add_validation_check(ex, user, now) == Err::<
            (),
            ErrorCode,
        >(ErrorCode::DuplicatedValidation),
{
}

/// A well-formed exercise whose collection has reached capacity is sealed,
/// and any further submission fails as sealed.
pub proof fn lemma_full_exercise_sealed(ex: ExerciseV, user: u64, now: i64)
    requires
        ex.wf(),
        ex.validations.len() == ex.validations_capacity,
    ensures
        ex.sealed,
        add_validation_check(ex, user, now) == Err::<(), ErrorCode>(ErrorCode::ExerciseSealed),
{
}

/// What never changes: every transition keeps the exercise's identity --
/// its deadline, content identifier, creating authority, capacity and bump
/// -- and sealing is monotonic: no transition reopens a sealed exercise.
pub proof fn lemma_exercise_frame(
    ex: ExerciseV,
    value: i64,
    trader: u64,
    user: u64,
    now: i64,
    index: u8,
    outcome: i64,
)
    ensures
        ({
            let next = add_validation_next(ex, value, trader, user, now);
            &&& next.timeout == ex.timeout
            &&& next.cid == ex.cid
            &&& next.authority == ex.authority
            &&& next.validations_capacity == ex.validations_capacity
            &&& next.bump == ex.bump
            &&& ex.sealed ==> next.sealed
        }),
        ({
            let next = checked_exercise(ex, index);
            &&& next.timeout == ex.timeout
            &&& next.cid == ex.cid
            &&& next.authority == ex.authority
            &&& next.validations_capacity == ex.validations_capacity
            &&& next.bump == ex.bump
            &&& next.sealed == ex.sealed
        }),
        ({
            let next = revealed_exercise(ex, outcome);
            &&& next.timeout == ex.timeout
            &&& next.cid == ex.cid
            &&& next.authority == ex.authority
            &&& next.validations_capacity == ex.validations_capacity
            &&& next.bump == ex.bump
            &&& next.sealed == ex.sealed
        }),
{
}

/// The exercise after a whole sequence of submissions, each answered in
/// turn.
pub open spec fn submit_all(ex: ExerciseV, submissions: Seq<Validation>, now: i64) -> ExerciseV
    decreases submissions.len(),
{
    if submissions.len() == 0 {
        ex
    } else {
        submit_all(
            add_validation_next(
                ex,
                submissions[0].value,
                submissions[0].trader,
                submissions[0].user,
                now,
            ),
            submissions.skip(1),
            now,
        )
    }
}

/// Whether every submission in the sequence is accepted, each against the
/// exercise state the earlier ones produced.
pub open spec fn all_accepted(ex: ExerciseV, submissions: Seq<Validation>, now: i64) -> bool
    decreases submissions.len(),
{
    submissions.len() == 0 || (add_validation_check(ex, submissions[0].user, now) is Ok
        && all_accepted(
        add_validation_next(
            ex,
            submissions[0].value,
            submissions[0].trader,
            submissions[0].user,
            now,
        ),
        submissions.skip(1),
        now,
    ))
}

/// Any sequence of submissions from pairwise-distinct submitters, none of
/// them already present, made before the deadline on an unsealed exercise
/// with room for them all, is accepted call by call, and each call grows the
/// collection by exactly one.
pub proof fn lemma_distinct_submitters_accepted(
    ex: ExerciseV,
    submissions: Seq<Validation>,
    now: i64,
)
    requires
        ex.wf(),
        !ex.sealed,
        now <= ex.timeout,
        ex.validations.len() + submissions.len() <= ex.validations_capacity,
        forall|i: int, j: int|
            0 <= i < j < submissions.len() ==> submissions[i].user != submissions[j].user,
        forall|i: int|
            0 <= i < submissions.len() ==> !has_submitter(
                ex.validations,
                #[trigger] submissions[i].user,
            ),
    ensures
        all_accepted(ex, submissions, now),
        submit_all(ex, submissions, now).validations.len() == ex.validations.len()
            + submissions.len(),
        submit_all(ex, submissions, now).wf(),
    decreases submissions.len(),
{
    if submissions.len() > 0 {
        let sub = submissions[0];
        let rest = submissions.skip(1);
        assert(!has_submitter(ex.validations, submissions[0].user));
        assert(Validation { value: sub.value, trader: sub.trader, user: sub.user } == sub);
        let ex1 = add_validation_next(ex, sub.value, sub.trader, sub.user, now);
        assert(ex1.validations == ex.validations.push(sub));
        assert(submit_all(ex, submissions, now) == submit_all(ex1, rest, now));
        assert(all_accepted(ex, submissions, now) == (add_validation_check(ex, sub.user, now)
            is Ok && all_accepted(ex1, rest, now)));
        if submissions.len() == 1 {
            assert(rest.len() == 0);
            assert(submit_all(ex1, rest, now) == ex1);
            assert(all_accepted(ex1, rest, now));
        } else {
            assert(!ex1.sealed);
            assert forall|i: int, j: int| 0 <= i < j < rest.len() implies rest[i].user
                != rest[j].user by {
                assert(rest[i] == submissions[i + 1]);
                assert(rest[j] == submissions[j + 1]);
            }
            assert forall|i: int| 0 <= i < rest.len() implies !has_submitter(
                ex1.validations,
                #[trigger] rest[i].user,
            ) by {
                assert(rest[i] == submissions[i + 1]);
                lemma_has_submitter_push(ex.validations, sub, rest[i].user);
            }
            lemma_distinct_submitters_accepted(ex1, rest, now);
        }
    }
}

/// Scans the collection for a validation submitted by `user`; the
/// duplicate-submitter check.
pub fn contains_submitter(validations: &Vec<Validation>, user: u64) -> (found: bool)
    ensures
        found == has_submitter(validations@, user),
{
    let n: usize = validations.len();
    for i in 0..n
        invariant
            n == validations@.len(),
            forall|j: int| 0 <= j < i ==> validations@[j].user != user,
    {
        if validations[i].user == user {
            return true;
        }
    }
    false
}

impl Exercise {
    /// Answers one submission.  A sealed or timed-out exercise refuses it
    /// (the latter sealing as a committed side effect), a duplicate
    /// submitter is refused, and an accepted validation is appended; the
    /// exercise seals the moment the collection reaches capacity.
    pub fn add_validation(&mut self, value: i64, trader: u64, user: u64, now: i64) -> (result:
        Result<(), ErrorCode>)
        requires
            old(self)@.wf(),
        ensures
            final(self)@.wf(),
            final(self)@ == add_validation_next(old(self)@, value, trader, user, now),
            result == add_validation_check(old(self)@, user, now),
            result is Ok ==> final(self)@.validations == old(self)@.validations.push(
                Validation { value, trader, user },
            ) && final(self)@.validations.len() == old(self)@.validations.len() + 1,
    {
        if self.sealed {
            return Err(ErrorCode::ExerciseSealed);
        }
        if self.timeout < now {
            self.sealed = true;
            return Err(ErrorCode::ExerciseTimeout);
        }
        if contains_submitter(&self.validations, user) {
            return Err(ErrorCode::DuplicatedValidation);
        }
        self.validations.push(Validation { value, trader, user });
        if self.validations.len() == self.validations_capacity as usize {
            self.sealed = true;
        }
        Ok(())
    }

    /// Stores the revealed outcome; only the creating authority may reveal,
    /// and a second reveal overwrites the first.
    pub fn add_outcome(&mut self, outcome: i64, authority: u64) -> (result: Result<
        (),
        ErrorCode,
    >)
        requires
            old(self)@.wf(),
        ensures
            final(self)@.wf(),
            authority != old(self)@.authority ==> result == Err::<(), ErrorCode>(
                ErrorCode::WrongExerciseCreator,
            ) && final(self)@ == old(self)@,
            authority == old(self)@.authority ==> result == Ok::<(), ErrorCode>(())
                && final(self)@ == revealed_exercise(old(self)@, outcome),
    {
        if self.authority != authority {
            return Err(ErrorCode::WrongExerciseCreator);
        }
        self.outcome = outcome;
        Ok(())
    }

    /// Grades the validation at `index` against the stored outcome: folds
    /// the earned rating into the trader's performance and removes the
    /// validation so it cannot be checked again.  Returns whether the
    /// collection is now empty, in which case the exercise is done and its
    /// record is to be destroyed.  On any refusal both records are left
    /// unmodified.
    pub fn check_validation(
        &mut self,
        index: u8,
        trader: &mut Trader,
        trader_address: u64,
        authority: u64,
    ) -> (result: Result<bool, ErrorCode>)
        requires
            old(self)@.wf(),
        ensures
            final(self)@.wf(),
            check_validation_check(old(self)@, index, trader_address, authority) matches Err(e)
                ==> result == Err::<bool, ErrorCode>(e) && final(self)@ == old(self)@
                && final(trader)@ == old(trader)@,
            check_validation_check(old(self)@, index, trader_address, authority) is Ok ==> ({
                &&& final(self)@ == checked_exercise(old(self)@, index)
                &&& final(trader)@ == graded_trader(
                    old(trader)@,
                    old(self)@.validations[index as int].value,
                    old(self)@.outcome,
                )
                &&& result == Ok::<bool, ErrorCode>(old(self)@.validations.len() == 1)
            }),
    {
        if authority != self.authority {
            return Err(ErrorCode::WrongExerciseCreator);
        }
        if index as usize >= self.validations.len() {
            return Err(ErrorCode::InvalidValidationIndex);
        }
        let validation = self.validations[index as usize];
        if validation.trader != trader_address {
            return Err(ErrorCode::WrongValidationIndex);
        }
        trader.performance = grade(trader.performance, validation.value, self.outcome);
        self.validations.remove(index as usize);
        Ok(self.validations.len() == 0)
    }

    /// The exercise record's serialized size: tag, sealed flag, deadline,
    /// length-prefixed content identifier, authority, outcome, capacity, the
    /// collection pre-sized for `validations_capacity` entries, bump.
    pub fn space(cid: &str, validations_capacity: u8) -> (bytes: usize)
        requires
            cid.spec_bytes().len() + 18427 <= usize::MAX,
        ensures
            bytes == 67 + cid.spec_bytes().len() + validations_capacity * VALIDATION_SPACE,
    {
        TAG_SPACE + 1 + 8 + (4 + cid.len()) + PRINCIPAL_SPACE + 8 + 1 + (4 + (
        validations_capacity as usize) * VALIDATION_SPACE) + 1
    }
}

} // verus!
