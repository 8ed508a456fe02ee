use trainer::error::ErrorCode;
use trainer::exercise::Exercise;
use trainer::ledger::Ledger;
use trainer::state::Params;
use trainer::state::Trader;
use trainer::state::Trainer;

const GOV: u64 = 1;
const ALICE: u64 = 101;
const BOB: u64 = 102;
const CAROL: u64 = 103;
const NOW: i64 = 1_000_000;
const LATER: i64 = 2_000_000;

/// A ledger with one trader per named user, ready for exercises.
fn setup(min_validations: u8) -> (Ledger, u64, u64, u64) {
    let mut ledger = Ledger::initialize_params(min_validations, GOV).unwrap();
    let alice = ledger.create_trader("alice".to_string(), ALICE).unwrap();
    let bob = ledger.create_trader("bob".to_string(), BOB).unwrap();
    let carol = ledger.create_trader("carol".to_string(), CAROL).unwrap();
    (ledger, alice, bob, carol)
}

#[test]
fn fresh_exercise_is_open_and_empty() {
    let (mut ledger, _, _, _) = setup(1);
    let ex = ledger
        .create_exercise("cid-open".to_string(), 3, LATER, GOV, NOW)
        .unwrap();
    let record = ledger.get_exercise(ex).unwrap();
    assert_eq!(record.validations.len(), 0);
    assert!(!record.sealed);
    assert_eq!(record.timeout, LATER);
    assert_eq!(record.authority, GOV);
    assert_eq!(record.validations_capacity, 3);
    assert_eq!(record.outcome, 0);
}

#[test]
fn distinct_submitters_each_grow_the_collection_by_one() {
    let (mut ledger, alice, bob, carol) = setup(1);
    let ex = ledger
        .create_exercise("cid-grow".to_string(), 5, LATER, GOV, NOW)
        .unwrap();
    assert_eq!(ledger.add_validation(ex, 10, alice, ALICE, NOW), Ok(()));
    assert_eq!(ledger.get_exercise(ex).unwrap().validations.len(), 1);
    assert_eq!(ledger.add_validation(ex, 20, bob, BOB, NOW), Ok(()));
    assert_eq!(ledger.get_exercise(ex).unwrap().validations.len(), 2);
    assert_eq!(ledger.add_validation(ex, 30, carol, CAROL, NOW), Ok(()));
    let record = ledger.get_exercise(ex).unwrap();
    assert_eq!(record.validations.len(), 3);
    assert!(!record.sealed);
    assert_eq!(record.validations[0].value, 10);
    assert_eq!(record.validations[1].value, 20);
    assert_eq!(record.validations[2].value, 30);
}

#[test]
fn second_submission_from_the_same_trader_is_a_duplicate() {
    let (mut ledger, alice, _, _) = setup(1);
    let ex = ledger
        .create_exercise("cid-dup".to_string(), 5, LATER, GOV, NOW)
        .unwrap();
    assert_eq!(ledger.add_validation(ex, 10, alice, ALICE, NOW), Ok(()));
    assert_eq!(
        ledger.add_validation(ex, 99, alice, ALICE, NOW),
        Err(ErrorCode::DuplicatedValidation)
    );
    assert_eq!(ledger.get_exercise(ex).unwrap().validations.len(), 1);
}

#[test]
fn reaching_capacity_seals_the_exercise() {
    let (mut ledger, alice, bob, carol) = setup(1);
    let ex = ledger
        .create_exercise("cid-full".to_string(), 2, LATER, GOV, NOW)
        .unwrap();
    assert_eq!(ledger.add_validation(ex, 10, alice, ALICE, NOW), Ok(()));
    assert!(!ledger.get_exercise(ex).unwrap().sealed);
    assert_eq!(ledger.add_validation(ex, 20, bob, BOB, NOW), Ok(()));
    let record = ledger.get_exercise(ex).unwrap();
    assert!(record.sealed);
    assert_eq!(record.validations.len(), 2);
    assert_eq!(
        ledger.add_validation(ex, 30, carol, CAROL, NOW),
        Err(ErrorCode::ExerciseSealed)
    );
    assert_eq!(ledger.get_exercise(ex).unwrap().validations.len(), 2);
}

#[test]
fn passed_deadline_refuses_and_seals_as_a_side_effect() {
    let (mut ledger, alice, bob, _) = setup(1);
    let ex = ledger
        .create_exercise("cid-late".to_string(), 5, LATER, GOV, NOW)
        .unwrap();
    assert_eq!(
        ledger.add_validation(ex, 10, alice, ALICE, LATER + 1),
        Err(ErrorCode::ExerciseTimeout)
    );
    // the failing call committed the seal, so the next refusal is as sealed
    assert!(ledger.get_exercise(ex).unwrap().sealed);
    assert_eq!(
        ledger.add_validation(ex, 20, bob, BOB, LATER + 1),
        Err(ErrorCode::ExerciseSealed)
    );
    // a submission exactly at the deadline is still in time
    let ex2 = ledger
        .create_exercise("cid-on-time".to_string(), 5, LATER, GOV, NOW)
        .unwrap();
    assert_eq!(ledger.add_validation(ex2, 10, alice, ALICE, LATER), Ok(()));
}

#[test]
fn grading_updates_the_trader_and_removes_the_validation() {
    let (mut ledger, alice, _, _) = setup(1);
    let ex = ledger
        .create_exercise("cid-grade".to_string(), 2, LATER, GOV, NOW)
        .unwrap();
    assert_eq!(ledger.add_validation(ex, 50, alice, ALICE, NOW), Ok(()));
    assert_eq!(ledger.add_outcome(ex, 50, GOV), Ok(()));
    assert_eq!(ledger.get_exercise(ex).unwrap().outcome, 50);
    assert_eq!(ledger.check_validation(ex, 0, alice, GOV), Ok(()));
    assert_eq!(ledger.get_trader(alice).unwrap().performance, 50);
}

#[test]
fn grading_the_only_validation_destroys_the_exercise() {
    let (mut ledger, alice, _, _) = setup(1);
    let ex = ledger
        .create_exercise("cid-done".to_string(), 3, LATER, GOV, NOW)
        .unwrap();
    assert_eq!(ledger.add_validation(ex, 50, alice, ALICE, NOW), Ok(()));
    assert_eq!(ledger.add_outcome(ex, 50, GOV), Ok(()));
    assert_eq!(ledger.check_validation(ex, 0, alice, GOV), Ok(()));
    // the record is gone: any further reference reports the not-found condition
    assert!(ledger.get_exercise(ex).is_none());
    assert_eq!(ledger.add_outcome(ex, 1, GOV), Err(ErrorCode::ExerciseNotFound));
    assert_eq!(
        ledger.add_validation(ex, 1, alice, ALICE, NOW),
        Err(ErrorCode::ExerciseNotFound)
    );
    assert_eq!(
        ledger.check_validation(ex, 0, alice, GOV),
        Err(ErrorCode::ExerciseNotFound)
    );
    assert_eq!(ledger.close_exercise(ex, GOV), Err(ErrorCode::ExerciseNotFound));
}

#[test]
fn index_beyond_bounds_leaves_the_collection_unmodified() {
    let (mut ledger, alice, _, _) = setup(1);
    let ex = ledger
        .create_exercise("cid-oob".to_string(), 3, LATER, GOV, NOW)
        .unwrap();
    assert_eq!(ledger.add_validation(ex, 50, alice, ALICE, NOW), Ok(()));
    assert_eq!(
        ledger.check_validation(ex, 1, alice, GOV),
        Err(ErrorCode::InvalidValidationIndex)
    );
    assert_eq!(
        ledger.check_validation(ex, 200, alice, GOV),
        Err(ErrorCode::InvalidValidationIndex)
    );
    let record = ledger.get_exercise(ex).unwrap();
    assert_eq!(record.validations.len(), 1);
    assert_eq!(record.validations[0].value, 50);
}

#[test]
fn removal_shifts_later_indices_down() {
    let (mut ledger, alice, bob, carol) = setup(1);
    let ex = ledger
        .create_exercise("cid-shift".to_string(), 5, LATER, GOV, NOW)
        .unwrap();
    assert_eq!(ledger.add_validation(ex, 10, alice, ALICE, NOW), Ok(()));
    assert_eq!(ledger.add_validation(ex, 20, bob, BOB, NOW), Ok(()));
    assert_eq!(ledger.add_validation(ex, 30, carol, CAROL, NOW), Ok(()));
    assert_eq!(ledger.add_outcome(ex, 10, GOV), Ok(()));
    // removing index 0 shifts bob's and carol's validations down by one
    assert_eq!(ledger.check_validation(ex, 0, alice, GOV), Ok(()));
    let record = ledger.get_exercise(ex).unwrap();
    assert_eq!(record.validations[0].trader, bob);
    assert_eq!(record.validations[1].trader, carol);
    // the stale index 1 no longer names carol's validation
    assert_eq!(
        ledger.check_validation(ex, 1, bob, GOV),
        Err(ErrorCode::WrongValidationIndex)
    );
    assert_eq!(ledger.check_validation(ex, 1, carol, GOV), Ok(()));
    assert_eq!(ledger.check_validation(ex, 0, bob, GOV), Ok(()));
    assert!(ledger.get_exercise(ex).is_none());
}

#[test]
fn submission_rejections_before_any_record_check() {
    let (mut ledger, alice, _, _) = setup(1);
    let ex = ledger
        .create_exercise("cid-route".to_string(), 3, LATER, GOV, NOW)
        .unwrap();
    // the submitting principal must own the named trader record
    assert_eq!(
        ledger.add_validation(ex, 10, alice, BOB, NOW),
        Err(ErrorCode::WrongUser)
    );
    // an unknown trader record is the not-found condition
    assert_eq!(
        ledger.add_validation(ex, 10, 0xdead, ALICE, NOW),
        Err(ErrorCode::TraderNotFound)
    );
    assert_eq!(ledger.get_exercise(ex).unwrap().validations.len(), 0);
}

#[test]
fn creation_policy_checks() {
    let (mut ledger, _, _, _) = setup(3);
    assert_eq!(
        ledger.create_exercise("cid-small".to_string(), 2, LATER, GOV, NOW),
        Err(ErrorCode::ValidationsCapacityTooSmall)
    );
    assert_eq!(
        ledger.create_exercise("cid-past".to_string(), 3, NOW - 1, GOV, NOW),
        Err(ErrorCode::ExpiredTimeout)
    );
    // the deadline must be strictly in the future: equal to now is expired
    assert_eq!(
        ledger.create_exercise("cid-edge".to_string(), 3, NOW, GOV, NOW),
        Err(ErrorCode::ExpiredTimeout)
    );
    assert!(ledger.create_exercise("cid-future".to_string(), 3, NOW + 1, GOV, NOW).is_ok());
}

#[test]
fn zero_capacity_is_refused_even_under_a_zero_floor() {
    let mut ledger = Ledger::initialize_params(0, GOV).unwrap();
    assert_eq!(
        ledger.create_exercise("cid-zero".to_string(), 0, LATER, GOV, NOW),
        Err(ErrorCode::ValidationsCapacityTooSmall)
    );
}

#[test]
fn only_the_creating_authority_reveals_grades_and_closes() {
    let (mut ledger, alice, _, _) = setup(1);
    let ex = ledger
        .create_exercise("cid-auth".to_string(), 3, LATER, GOV, NOW)
        .unwrap();
    assert_eq!(ledger.add_validation(ex, 50, alice, ALICE, NOW), Ok(()));
    assert_eq!(
        ledger.add_outcome(ex, 50, ALICE),
        Err(ErrorCode::WrongExerciseCreator)
    );
    assert_eq!(
        ledger.check_validation(ex, 0, alice, ALICE),
        Err(ErrorCode::WrongExerciseCreator)
    );
    assert_eq!(
        ledger.close_exercise(ex, ALICE),
        Err(ErrorCode::WrongExerciseCreator)
    );
    // the administrative close works for the creator, whatever the state
    assert_eq!(ledger.close_exercise(ex, GOV), Ok(()));
    assert!(ledger.get_exercise(ex).is_none());
}

#[test]
fn grading_checks_the_trader_against_the_stored_validation() {
    let (mut ledger, alice, bob, _) = setup(1);
    let ex = ledger
        .create_exercise("cid-match".to_string(), 3, LATER, GOV, NOW)
        .unwrap();
    assert_eq!(ledger.add_validation(ex, 50, alice, ALICE, NOW), Ok(()));
    assert_eq!(
        ledger.check_validation(ex, 0, bob, GOV),
        Err(ErrorCode::WrongValidationIndex)
    );
    assert_eq!(
        ledger.check_validation(ex, 0, 0xdead, GOV),
        Err(ErrorCode::TraderNotFound)
    );
}

#[test]
fn governance_rotation_and_floor() {
    let mut ledger = Ledger::initialize_params(1, GOV).unwrap();
    assert_eq!(
        ledger.modify_min_validations(ALICE, 5),
        Err(ErrorCode::WrongAuthority)
    );
    assert_eq!(
        ledger.modify_min_validations(GOV, 0),
        Err(ErrorCode::MinValidationsTooLow)
    );
    assert_eq!(ledger.modify_min_validations(GOV, 5), Ok(()));
    assert_eq!(ledger.get_params().min_validations, 5);

    assert_eq!(
        ledger.modify_authority(ALICE, ALICE),
        Err(ErrorCode::WrongAuthority)
    );
    assert_eq!(ledger.modify_authority(GOV, ALICE), Ok(()));
    assert_eq!(ledger.get_params().authority, ALICE);
    // the old authority has lost its powers
    assert_eq!(
        ledger.modify_min_validations(GOV, 2),
        Err(ErrorCode::WrongAuthority)
    );
    assert_eq!(ledger.modify_min_validations(ALICE, 2), Ok(()));
}

#[test]
fn trainer_registration_is_authority_only() {
    let mut ledger = Ledger::initialize_params(1, GOV).unwrap();
    assert_eq!(
        ledger.create_trainer(ALICE, ALICE),
        Err(ErrorCode::WrongAuthority)
    );
    let trainer = ledger.create_trainer(GOV, ALICE).unwrap();
    let record = ledger.get_trainer(trainer).unwrap();
    assert_eq!(record.authority, ALICE);
}

#[test]
fn a_new_trader_starts_from_zero() {
    let (ledger, alice, _, _) = setup(1);
    let record = ledger.get_trader(alice).unwrap();
    assert_eq!(record.performance, 0);
    assert_eq!(record.ranking, 0);
    assert_eq!(record.user, ALICE);
    assert_eq!(record.name, "alice");
}

#[test]
fn capacity_policy_is_not_retroactive() {
    let (mut ledger, alice, bob, _) = setup(1);
    let ex = ledger
        .create_exercise("cid-policy".to_string(), 2, LATER, GOV, NOW)
        .unwrap();
    // raising the floor afterwards does not touch the open exercise
    assert_eq!(ledger.modify_min_validations(GOV, 10), Ok(()));
    assert_eq!(ledger.add_validation(ex, 10, alice, ALICE, NOW), Ok(()));
    assert_eq!(ledger.add_validation(ex, 20, bob, BOB, NOW), Ok(()));
    assert!(ledger.get_exercise(ex).unwrap().sealed);
}

#[test]
fn a_second_reveal_overwrites_the_first() {
    let (mut ledger, alice, _, _) = setup(1);
    let ex = ledger
        .create_exercise("cid-reveal".to_string(), 3, LATER, GOV, NOW)
        .unwrap();
    assert_eq!(ledger.add_validation(ex, 50, alice, ALICE, NOW), Ok(()));
    assert_eq!(ledger.add_outcome(ex, 999, GOV), Ok(()));
    assert_eq!(ledger.add_outcome(ex, 50, GOV), Ok(()));
    assert_eq!(ledger.get_exercise(ex).unwrap().outcome, 50);
    assert_eq!(ledger.check_validation(ex, 0, alice, GOV), Ok(()));
    assert_eq!(ledger.get_trader(alice).unwrap().performance, 50);
}

#[test]
fn space_formulas() {
    assert_eq!(Trader::space("alice"), 62 + 5);
    assert_eq!(Trainer::space(), 41);
    assert_eq!(Params::space(), 42);
    assert_eq!(Exercise::space("cid", 4), 67 + 3 + 4 * 72);
}
