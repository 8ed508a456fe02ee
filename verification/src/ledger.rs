//! The ledger: every record the system owns, keyed by derived address.
//!
//! The host executes each operation as one atomic, serialized unit of work
//! with exclusive access to the records it touches; the ledger models that
//! storage as maps from derived address to record.  Every operation performs
//! all of its failure checks before any mutation, so a failed call leaves the
//! ledger unchanged -- with the one deliberate exception of a submission
//! refused for a passed deadline, which seals the exercise as it fails.
//!
//! Each record kind is addressed by its own seed list: a one-byte kind tag
//! followed by the identifying values, long text seeds truncated into a
//! leading and a leftover segment.

use vstd::hash_map::HashMapWithView;
use vstd::prelude::*;
use vstd::slice::slice_to_vec;
use vstd::utf8::encode_utf8;
use crate::address::candidate_address;
use crate::address::derivation_ok;
use crate::address::derive_address;
use crate::address::reserved_address;
use crate::address::seeds_view;
use crate::address::text_seed;
use crate::address::text_seed_spec;
use crate::address::u64_le_seed;
use crate::address::u64_seed;
use crate::error::ErrorCode;
use crate::exercise::Exercise;
use crate::exercise::ExerciseV;
use crate::exercise::add_validation_check;
use crate::exercise::add_validation_next;
use crate::exercise::check_validation_check;
use crate::exercise::checked_exercise;
use crate::exercise::create_check;
use crate::exercise::fresh_exercise;
use crate::exercise::graded_trader;
use crate::exercise::revealed_exercise;
use crate::state::Params;
use crate::state::Trader;
use crate::state::TraderV;
use crate::state::Trainer;

verus! {

broadcast use vstd::std_specs::hash::group_hash_axioms;

/// The seed tag of the governance record.
pub const PARAMS_SEED_TAG: u8 = 0;

/// The seed tag of a trainer record.
pub const TRAINER_SEED_TAG: u8 = 1;

/// The seed tag of a trader record.
pub const TRADER_SEED_TAG: u8 = 2;

/// The seed tag of an exercise record.
pub const EXERCISE_SEED_TAG: u8 = 3;

/// The seed list addressing the governance record.
pub open spec fn params_seeds_spec() -> Seq<Seq<u8>> {
    seq![seq![PARAMS_SEED_TAG]]
}

/// The seed list addressing the trainer record of one authority.
pub open spec fn trainer_seeds_spec(trainer_authority: u64) -> Seq<Seq<u8>> {
    seq![seq![TRAINER_SEED_TAG], u64_le_seed(trainer_authority)]
}

/// The seed list addressing the trader record of one (name, owner) pair.
pub open spec fn trader_seeds_spec(name: Seq<char>, user: u64) -> Seq<Seq<u8>> {
    seq![
        seq![TRADER_SEED_TAG],
        text_seed_spec(encode_utf8(name), false),
        u64_le_seed(user),
    ]
}

/// The seed list addressing the exercise record of one content identifier:
/// the identifier contributes both its leading and its leftover segment.
pub open spec fn exercise_seeds_spec(cid: Seq<char>) -> Seq<Seq<u8>> {
    seq![
        seq![EXERCISE_SEED_TAG],
        text_seed_spec(encode_utf8(cid), false),
        text_seed_spec(encode_utf8(cid), true),
    ]
}

/// Builds the governance record's seed list.
pub fn params_seeds() -> (seeds: Vec<Vec<u8>>)
    ensures
        seeds_view(seeds@) == params_seeds_spec(),
{
    let mut tag: Vec<u8> = Vec::new();
    tag.push(PARAMS_SEED_TAG);
    let mut seeds: Vec<Vec<u8>> = Vec::new();
    seeds.push(tag);
    proof {
        assert(seeds@[0]@ =~= seq![PARAMS_SEED_TAG]);
        assert(seeds_view(seeds@) =~= params_seeds_spec());
    }
    seeds
}

/// Builds the seed list of one authority's trainer record.
pub fn trainer_seeds(trainer_authority: u64) -> (seeds: Vec<Vec<u8>>)
    ensures
        seeds_view(seeds@) == trainer_seeds_spec(trainer_authority),
{
    let mut tag: Vec<u8> = Vec::new();
    tag.push(TRAINER_SEED_TAG);
    let mut seeds: Vec<Vec<u8>> = Vec::new();
    seeds.push(tag);
    seeds.push(u64_seed(trainer_authority));
    proof {
        assert(seeds@[0]@ =~= seq![TRAINER_SEED_TAG]);
        assert(seeds_view(seeds@) =~= trainer_seeds_spec(trainer_authority));
    }
    seeds
}

/// Builds the seed list of one (name, owner) pair's trader record.
pub fn trader_seeds(name: &str, user: u64) -> (seeds: Vec<Vec<u8>>)
    ensures
        seeds_view(seeds@) == trader_seeds_spec(name@, user),
{
    let mut tag: Vec<u8> = Vec::new();
    tag.push(TRADER_SEED_TAG);
    let mut seeds: Vec<Vec<u8>> = Vec::new();
    seeds.push(tag);
    seeds.push(slice_to_vec(text_seed(name, false)));
    seeds.push(u64_seed(user));
    proof {
        assert(seeds@[0]@ =~= seq![TRADER_SEED_TAG]);
        assert(seeds_view(seeds@) =~= trader_seeds_spec(name@, user));
    }
    seeds
}

/// Builds the seed list of one content identifier's exercise record.
pub fn exercise_seeds(cid: &str) -> (seeds: Vec<Vec<u8>>)
    ensures
        seeds_view(seeds@) == exercise_seeds_spec(cid@),
{
    let mut tag: Vec<u8> = Vec::new();
    tag.push(EXERCISE_SEED_TAG);
    let mut seeds: Vec<Vec<u8>> = Vec::new();
    seeds.push(tag);
    seeds.push(slice_to_vec(text_seed(cid, false)));
    seeds.push(slice_to_vec(text_seed(cid, true)));
    proof {
        assert(seeds@[0]@ =~= seq![EXERCISE_SEED_TAG]);
        assert(seeds_view(seeds@) =~= exercise_seeds_spec(cid@));
    }
    seeds
}

/// The whole system's state: the governance record and the trainer, trader
/// and exercise records, each keyed by its derived address.
pub struct Ledger {
    /// The governance record.
    pub params: Params,
    /// The registered exercise-creating entities.
    pub trainers: HashMapWithView<u64, Trainer>,
    /// The registered participant identities.
    pub traders: HashMapWithView<u64, Trader>,
    /// The live exercises; a finished or closed exercise is removed.
    pub exercises: HashMapWithView<u64, Exercise>,
}

/// The mathematical value of the whole ledger.
#[verifier::ext_equal]
pub ghost struct LedgerV {
    pub params: Params,
    pub trainers: Map<u64, Trainer>,
    pub traders: Map<u64, TraderV>,
    pub exercises: Map<u64, ExerciseV>,
}

impl View for Ledger {
    type V = LedgerV;

    open spec fn view(&self) -> LedgerV {
        LedgerV {
            params: self.params,
            trainers: self.trainers@,
            traders: self.traders@.map_values(|t: Trader| t@),
            exercises: self.exercises@.map_values(|e: Exercise| e@),
        }
    }
}

impl LedgerV {
    /// The ledger's invariant: every exercise is well formed, and every
    /// record's stored bump re-derives exactly the address the record lives
    /// under, so a single hash verifies any stored address.
    pub open spec fn wf(self) -> bool {
        &&& derivation_ok(
            params_seeds_spec(),
            candidate_address(params_seeds_spec(), self.params.bump),
            self.params.bump,
        )
        &&& forall|a: u64|
            self.trainers.contains_key(a) ==> derivation_ok(
                trainer_seeds_spec((#[trigger] self.trainers[a]).authority),
                a,
                self.trainers[a].bump,
            )
        &&& forall|a: u64|
            self.traders.contains_key(a) ==> derivation_ok(
                trader_seeds_spec(
                    (#[trigger] self.traders[a]).name,
                    self.traders[a].user,
                ),
                a,
                self.traders[a].bump,
            )
        &&& forall|a: u64|
            self.exercises.contains_key(a) ==> (#[trigger] self.exercises[a]).wf()
                && derivation_ok(
                exercise_seeds_spec(self.exercises[a].cid),
                a,
                self.exercises[a].bump,
            )
    }
}

/// The ledger with one trainer record added or replaced.
pub open spec fn with_trainer(pre: LedgerV, address: u64, trainer: Trainer) -> LedgerV {
    LedgerV { trainers: pre.trainers.insert(address, trainer), ..pre }
}

/// The ledger with one trader record added or replaced.
pub open spec fn with_trader(pre: LedgerV, address: u64, trader: TraderV) -> LedgerV {
    LedgerV { traders: pre.traders.insert(address, trader), ..pre }
}

/// The ledger with one exercise record added or replaced.
pub open spec fn with_exercise(pre: LedgerV, address: u64, ex: ExerciseV) -> LedgerV {
    LedgerV { exercises: pre.exercises.insert(address, ex), ..pre }
}

/// The ledger with one exercise record destroyed.
pub open spec fn without_exercise(pre: LedgerV, address: u64) -> LedgerV {
    LedgerV { exercises: pre.exercises.remove(address), ..pre }
}

/// How a submission routed through the ledger is answered: the exercise and
/// the trader must exist, the submitter must own the trader record, and the
/// exercise itself must accept the submission.
pub open spec fn add_validation_outcome(
    pre: LedgerV,
    exercise: u64,
    trader: u64,
    user: u64,
    now: i64,
) -> Result<(), ErrorCode> {
    if !pre.exercises.contains_key(exercise) {
        Err(ErrorCode::ExerciseNotFound)
    } else if !pre.traders.contains_key(trader) {
        Err(ErrorCode::TraderNotFound)
    } else if pre.traders[trader].user != user {
        Err(ErrorCode::WrongUser)
    } else {
        add_validation_check(pre.exercises[exercise], user, now)
    }
}

/// The ledger after a submission: once the routing checks pass, the
/// exercise's own transition applies (which seals on a passed deadline even
/// as the call fails); nothing else is touched.
pub open spec fn add_validation_post(
    pre: LedgerV,
    exercise: u64,
    value: i64,
    trader: u64,
    user: u64,
    now: i64,
) -> LedgerV {
    if pre.exercises.contains_key(exercise) && pre.traders.contains_key(trader)
        && pre.traders[trader].user == user {
        with_exercise(
            pre,
            exercise,
            add_validation_next(pre.exercises[exercise], value, trader, user, now),
        )
    } else {
        pre
    }
}

/// How an outcome reveal is answered: the exercise must exist and the caller
/// must be its creating authority.
pub open spec fn add_outcome_outcome(pre: LedgerV, exercise: u64, authority: u64) -> Result<
    (),
    ErrorCode,
> {
    if !pre.exercises.contains_key(exercise) {
        Err(ErrorCode::ExerciseNotFound)
    } else if authority != pre.exercises[exercise].authority {
        Err(ErrorCode::WrongExerciseCreator)
    } else {
        Ok(())
    }
}

/// The ledger after an outcome reveal.
pub open spec fn add_outcome_post(
    pre: LedgerV,
    exercise: u64,
    outcome: i64,
    authority: u64,
) -> LedgerV {
    if add_outcome_outcome(pre, exercise, authority) is Ok {
        with_exercise(pre, exercise, revealed_exercise(pre.exercises[exercise], outcome))
    } else {
        pre
    }
}

/// How a grading call routed through the ledger is answered: the exercise
/// and the trader must exist, and the exercise's own admissibility checks
/// must pass.
pub open spec fn check_validation_outcome(
    pre: LedgerV,
    exercise: u64,
    index: u8,
    trader: u64,
    authority: u64,
) -> Result<(), ErrorCode> {
    if !pre.exercises.contains_key(exercise) {
        Err(ErrorCode::ExerciseNotFound)
    } else if !pre.traders.contains_key(trader) {
        Err(ErrorCode::TraderNotFound)
    } else {
        check_validation_check(pre.exercises[exercise], index, trader, authority)
    }
}

/// The ledger after a successful grading: the trader's score is updated, the
/// graded validation is removed, and an exercise whose collection becomes
/// empty is destroyed.  On any refusal the ledger is unchanged.
pub open spec fn check_validation_post(
    pre: LedgerV,
    exercise: u64,
    index: u8,
    trader: u64,
    authority: u64,
) -> LedgerV {
    if check_validation_outcome(pre, exercise, index, trader, authority) is Ok {
        let ex = pre.exercises[exercise];
        let graded = with_trader(
            pre,
            trader,
            graded_trader(pre.traders[trader], ex.validations[index as int].value, ex.outcome),
        );
        if ex.validations.len() == 1 {
            without_exercise(graded, exercise)
        } else {
            with_exercise(graded, exercise, checked_exercise(ex, index))
        }
    } else {
        pre
    }
}

/// How an administrative close is answered: the exercise must exist and the
/// caller must be its creating authority.
pub open spec fn close_exercise_outcome(pre: LedgerV, exercise: u64, authority: u64) -> Result<
    (),
    ErrorCode,
> {
    if !pre.exercises.contains_key(exercise) {
        Err(ErrorCode::ExerciseNotFound)
    } else if authority != pre.exercises[exercise].authority {
        Err(ErrorCode::WrongExerciseCreator)
    } else {
        Ok(())
    }
}

impl Ledger {
    /// Sets up the system: derives the governance record's address and
    /// stores the authority and the capacity floor, with no records yet.
    /// Fails with `BumpNotFound` only when no bump yields an acceptable
    /// address for the governance seed list.
    pub fn initialize_params(min_validations: u8, authority: u64) -> (result: Result<
        Ledger,
        ErrorCode,
    >)
        ensures
            result matches Ok(ledger) ==> ({
                &&& ledger@.wf()
                &&& ledger@.params.authority == authority
                &&& ledger@.params.min_validations == min_validations
                &&& ledger@.trainers == Map::<u64, Trainer>::empty()
                &&& ledger@.traders == Map::<u64, TraderV>::empty()
                &&& ledger@.exercises == Map::<u64, ExerciseV>::empty()
            }),
            result is Err ==> result == Err::<Ledger, ErrorCode>(ErrorCode::BumpNotFound)
                && forall|b: u8| reserved_address(candidate_address(params_seeds_spec(), b)),
            result is Ok <==> exists|b: u8|
                !reserved_address(candidate_address(params_seeds_spec(), b)),
    {
        let seeds = params_seeds();
        match derive_address(&seeds) {
            Err(_) => Err(ErrorCode::BumpNotFound),
            Ok((_address, bump)) => {
                let ledger = Ledger {
                    params: Params { authority, min_validations, bump },
                    trainers: HashMapWithView::new(),
                    traders: HashMapWithView::new(),
                    exercises: HashMapWithView::new(),
                };
                proof {
                    assert(ledger@.traders =~= Map::<u64, TraderV>::empty());
                    assert(ledger@.exercises =~= Map::<u64, ExerciseV>::empty());
                }
                Ok(ledger)
            },
        }
    }

    /// Rotates the governance authority; only the current authority may.
    pub fn modify_authority(&mut self, caller: u64, new_authority: u64) -> (result: Result<
        (),
        ErrorCode,
    >)
        requires
            old(self)@.wf(),
        ensures
            final(self)@.wf(),
            caller != old(self)@.params.authority ==> result == Err::<(), ErrorCode>(
                ErrorCode::WrongAuthority,
            ) && final(self)@ == old(self)@,
            caller == old(self)@.params.authority ==> result == Ok::<(), ErrorCode>(()) && ({
                &&& final(self)@.params.authority == new_authority
                &&& final(self)@.params.min_validations == old(self)@.params.min_validations
                &&& final(self)@.params.bump == old(self)@.params.bump
                &&& final(self)@.trainers == old(self)@.trainers
                &&& final(self)@.traders == old(self)@.traders
                &&& final(self)@.exercises == old(self)@.exercises
            }),
    {
        if self.params.authority != caller {
            return Err(ErrorCode::WrongAuthority);
        }
        self.params.authority = new_authority;
        proof {
            assert(self@.trainers == old(self)@.trainers);
            assert(self@.traders == old(self)@.traders);
            assert(self@.exercises == old(self)@.exercises);
            assert(self@.params.bump == old(self)@.params.bump);
            assert(self@.wf());
        }
        Ok(())
    }

    /// Lowers or raises the capacity floor for new exercises; only the
    /// authority may, and the floor is at least one.  Open exercises keep
    /// the capacity they were created with.
    pub fn modify_min_validations(&mut self, caller: u64, min_validations: u8) -> (result:
        Result<(), ErrorCode>)
        requires
            old(self)@.wf(),
        ensures
            final(self)@.wf(),
            caller != old(self)@.params.authority ==> result == Err::<(), ErrorCode>(
                ErrorCode::WrongAuthority,
            ) && final(self)@ == old(self)@,
            caller == old(self)@.params.authority && min_validations < 1 ==> result == Err::<
                (),
                ErrorCode,
            >(ErrorCode::MinValidationsTooLow) && final(self)@ == old(self)@,
            caller == old(self)@.params.authority && min_validations >= 1 ==> result == Ok::<
                (),
                ErrorCode,
            >(()) && ({
                &&& final(self)@.params.authority == old(self)@.params.authority
                &&& final(self)@.params.min_validations == min_validations
                &&& final(self)@.params.bump == old(self)@.params.bump
                &&& final(self)@.trainers == old(self)@.trainers
                &&& final(self)@.traders == old(self)@.traders
                &&& final(self)@.exercises == old(self)@.exercises
            }),
    {
        if self.params.authority != caller {
            return Err(ErrorCode::WrongAuthority);
        }
        if min_validations < 1 {
            return Err(ErrorCode::MinValidationsTooLow);
        }
        self.params.min_validations = min_validations;
        proof {
            assert(self@.trainers == old(self)@.trainers);
            assert(self@.traders == old(self)@.traders);
            assert(self@.exercises == old(self)@.exercises);
            assert(self@.params.bump == old(self)@.params.bump);
            assert(self@.wf());
        }
        Ok(())
    }

    /// Registers an entity empowered to create exercises; only the
    /// governance authority may.  The trainer record lives at the address
    /// derived from its authority's seed list.
    pub fn create_trainer(&mut self, caller: u64, trainer_authority: u64) -> (result: Result<
        u64,
        ErrorCode,
    >)
        requires
            old(self)@.wf(),
            forall|a: u64, b: u8|
                derivation_ok(trainer_seeds_spec(trainer_authority), a, b) ==> !old(
                    self,
                )@.trainers.contains_key(a),
        ensures
            final(self)@.wf(),
            caller != old(self)@.params.authority ==> result == Err::<u64, ErrorCode>(
                ErrorCode::WrongAuthority,
            ),
            result matches Err(e) ==> final(self)@ == old(self)@ && (e
                == ErrorCode::WrongAuthority || e == ErrorCode::BumpNotFound),
            caller == old(self)@.params.authority && result is Err ==> result == Err::<
                u64,
                ErrorCode,
            >(ErrorCode::BumpNotFound) && forall|b: u8|
                reserved_address(candidate_address(trainer_seeds_spec(trainer_authority), b)),
            caller == old(self)@.params.authority ==> (result is Ok <==> exists|b: u8|
                !reserved_address(candidate_address(trainer_seeds_spec(trainer_authority), b))),
            result matches Ok(address) ==> ({
                &&& caller == old(self)@.params.authority
                &&& derivation_ok(
                    trainer_seeds_spec(trainer_authority),
                    address,
                    final(self)@.trainers[address].bump,
                )
                &&& final(self)@ == with_trainer(
                    old(self)@,
                    address,
                    (Trainer {
                        authority: trainer_authority,
                        bump: final(self)@.trainers[address].bump,
                    }),
                )
            }),
    {
        if self.params.authority != caller {
            return Err(ErrorCode::WrongAuthority);
        }
        let seeds = trainer_seeds(trainer_authority);
        match derive_address(&seeds) {
            Err(_) => Err(ErrorCode::BumpNotFound),
            Ok((address, bump)) => {
                self.trainers.insert(address, Trainer { authority: trainer_authority, bump });
                proof {
                    assert(self@.traders == old(self)@.traders);
                    assert(self@.exercises == old(self)@.exercises);
                    assert forall|a: u64| self@.trainers.contains_key(a) implies derivation_ok(
                        trainer_seeds_spec((#[trigger] self@.trainers[a]).authority),
                        a,
                        self@.trainers[a].bump,
                    ) by {
                        if a != address {
                            assert(old(self)@.trainers.contains_key(a));
                            assert(self@.trainers[a] == old(self)@.trainers[a]);
                        }
                    }
                }
                Ok(address)
            },
        }
    }

    /// Registers a participant identity with a fresh performance score of
    /// zero.  The trader record lives at the address derived from its name
    /// and owning principal, so exactly one trader exists per (name, owner)
    /// pair.
    pub fn create_trader(&mut self, name: String, user: u64) -> (result: Result<u64, ErrorCode>)
        requires
            old(self)@.wf(),
            forall|a: u64, b: u8|
                derivation_ok(trader_seeds_spec(name@, user), a, b) ==> !old(
                    self,
                )@.traders.contains_key(a),
        ensures
            final(self)@.wf(),
            result matches Err(e) ==> final(self)@ == old(self)@ && e == ErrorCode::BumpNotFound
                && forall|b: u8|
                reserved_address(candidate_address(trader_seeds_spec(name@, user), b)),
            result is Ok <==> exists|b: u8|
                !reserved_address(candidate_address(trader_seeds_spec(name@, user), b)),
            result matches Ok(address) ==> ({
                &&& derivation_ok(
                    trader_seeds_spec(name@, user),
                    address,
                    final(self)@.traders[address].bump,
                )
                &&& final(self)@ == with_trader(
                    old(self)@,
                    address,
                    (TraderV {
                        user,
                        performance: 0,
                        ranking: 0,
                        league: 0,
                        name: name@,
                        bump: final(self)@.traders[address].bump,
                    }),
                )
            }),
    {
        let seeds = trader_seeds(name.as_str(), user);
        match derive_address(&seeds) {
            Err(_) => Err(ErrorCode::BumpNotFound),
            Ok((address, bump)) => {
                let trader = Trader {
                    user,
                    performance: 0,
                    ranking: 0,
                    league: 0,
                    name,
                    bump,
                };
                let ghost tv = trader@;
                self.traders.insert(address, trader);
                proof {
                    assert(self@.trainers == old(self)@.trainers);
                    assert(self@.exercises =~= old(self)@.exercises);
                    assert(self@.traders =~= old(self)@.traders.insert(address, tv));
                    assert forall|a: u64| self@.traders.contains_key(a) implies derivation_ok(
                        trader_seeds_spec(
                            (#[trigger] self@.traders[a]).name,
                            self@.traders[a].user,
                        ),
                        a,
                        self@.traders[a].bump,
                    ) by {
                        if a != address {
                            assert(old(self)@.traders.contains_key(a));
                            assert(self@.traders[a] == old(self)@.traders[a]);
                        }
                    }
                }
                Ok(address)
            },
        }
    }

    /// Publishes an exercise: the capacity must reach the governance floor
    /// (and be positive) and the deadline must be strictly in the future, and the
    /// record lives at the address derived from the content identifier.  The
    /// fresh exercise is open with an empty collection.
    pub fn create_exercise(
        &mut self,
        cid: String,
        validations_capacity: u8,
        timeout: i64,
        authority: u64,
        now: i64,
    ) -> (result: Result<u64, ErrorCode>)
        requires
            old(self)@.wf(),
            forall|a: u64, b: u8|
                derivation_ok(exercise_seeds_spec(cid@), a, b) ==> !old(
                    self,
                )@.exercises.contains_key(a),
        ensures
            final(self)@.wf(),
            result matches Err(e) ==> final(self)@ == old(self)@,
            create_check(
                validations_capacity,
                timeout,
                old(self)@.params.min_validations,
                now,
            ) matches Err(e) ==> result == Err::<u64, ErrorCode>(e),
            create_check(validations_capacity, timeout, old(self)@.params.min_validations, now)
                is Ok ==> (result is Ok <==> exists|b: u8|
                !reserved_address(candidate_address(exercise_seeds_spec(cid@), b))),
            create_check(validations_capacity, timeout, old(self)@.params.min_validations, now)
                is Ok && result is Err ==> result == Err::<u64, ErrorCode>(
                ErrorCode::BumpNotFound,
            ),
            result matches Ok(address) ==> ({
                &&& create_check(
                    validations_capacity,
                    timeout,
                    old(self)@.params.min_validations,
                    now,
                ) is Ok
                &&& derivation_ok(
                    exercise_seeds_spec(cid@),
                    address,
                    final(self)@.exercises[address].bump,
                )
                &&& final(self)@ == with_exercise(
                    old(self)@,
                    address,
                    fresh_exercise(
                        cid@,
                        validations_capacity,
                        timeout,
                        authority,
                        final(self)@.exercises[address].bump,
                    ),
                )
                &&& final(self)@.exercises[address].validations.len() == 0
                &&& !final(self)@.exercises[address].sealed
            }),
    {
        if validations_capacity < self.params.min_validations || validations_capacity == 0 {
            return Err(ErrorCode::ValidationsCapacityTooSmall);
        }
        if now >= timeout {
            return Err(ErrorCode::ExpiredTimeout);
        }
        let seeds = exercise_seeds(cid.as_str());
        match derive_address(&seeds) {
            Err(_) => Err(ErrorCode::BumpNotFound),
            Ok((address, bump)) => {
                let ex = Exercise {
                    sealed: false,
                    timeout,
                    cid,
                    authority,
                    outcome: 0,
                    validations_capacity,
                    validations: Vec::new(),
                    bump,
                };
                let ghost ev = ex@;
                self.exercises.insert(address, ex);
                proof {
                    assert(ev =~= fresh_exercise(
                        ev.cid,
                        validations_capacity,
                        timeout,
                        authority,
                        bump,
                    ));
                    assert(self@.trainers == old(self)@.trainers);
                    assert(self@.traders =~= old(self)@.traders);
                    assert(self@.exercises =~= old(self)@.exercises.insert(address, ev));
                    assert forall|a: u64| self@.exercises.contains_key(a) implies (
                    #[trigger] self@.exercises[a]).wf() && derivation_ok(
                        exercise_seeds_spec(self@.exercises[a].cid),
                        a,
                        self@.exercises[a].bump,
                    ) by {
                        if a != address {
                            assert(old(self)@.exercises.contains_key(a));
                            assert(self@.exercises[a] == old(self)@.exercises[a]);
                        }
                    }
                }
                Ok(address)
            },
        }
    }

    /// Routes one submission to its exercise: the submitting principal must
    /// own the named trader record, and the exercise answers as its own
    /// state machine says.  Every refusal leaves the ledger unchanged except
    /// a passed deadline, which seals the exercise as it fails.
    pub fn add_validation(
        &mut self,
        exercise: u64,
        value: i64,
        trader: u64,
        user: u64,
        now: i64,
    ) -> (result: Result<(), ErrorCode>)
        requires
            old(self)@.wf(),
        ensures
            final(self)@.wf(),
            result == add_validation_outcome(old(self)@, exercise, trader, user, now),
            final(self)@ == add_validation_post(old(self)@, exercise, value, trader, user, now),
            result is Ok ==> final(self)@.exercises[exercise].validations.len() == old(
                self,
            )@.exercises[exercise].validations.len() + 1,
    {
        let ex_opt = self.exercises.remove(&exercise);
        match ex_opt {
            None => Err(ErrorCode::ExerciseNotFound),
            Some(mut ex) => {
                let owner_ok: Option<bool> = match self.traders.get(&trader) {
                    None => None,
                    Some(t) => Some(t.user == user),
                };
                match owner_ok {
                    None => {
                        self.exercises.insert(exercise, ex);
                        proof {
                            assert(self.exercises@ =~= old(self).exercises@);
                            assert(self@ =~= old(self)@);
                        }
                        Err(ErrorCode::TraderNotFound)
                    },
                    Some(false) => {
                        self.exercises.insert(exercise, ex);
                        proof {
                            assert(self.exercises@ =~= old(self).exercises@);
                            assert(self@ =~= old(self)@);
                        }
                        Err(ErrorCode::WrongUser)
                    },
                    Some(true) => {
                        let result = ex.add_validation(value, trader, user, now);
                        let ghost ev = ex@;
                        self.exercises.insert(exercise, ex);
                        proof {
                            assert(self@.traders =~= old(self)@.traders);
                            assert(self@.trainers == old(self)@.trainers);
                            assert(self@.exercises =~= old(self)@.exercises.insert(
                                exercise,
                                ev,
                            ));
                            assert(self@ =~= add_validation_post(
                                old(self)@,
                                exercise,
                                value,
                                trader,
                                user,
                                now,
                            ));
                            assert forall|a: u64| self@.exercises.contains_key(a) implies (
                            #[trigger] self@.exercises[a]).wf() && derivation_ok(
                                exercise_seeds_spec(self@.exercises[a].cid),
                                a,
                                self@.exercises[a].bump,
                            ) by {
                                if a != exercise {
                                    assert(old(self)@.exercises.contains_key(a));
                                    assert(self@.exercises[a] == old(self)@.exercises[a]);
                                } else {
                                    assert(ev.cid == old(self)@.exercises[exercise].cid);
                                    assert(ev.bump == old(self)@.exercises[exercise].bump);
                                }
                            }
                        }
                        result
                    },
                }
            },
        }
    }

    /// Stores the revealed ground truth on an exercise; only its creating
    /// authority may, and a later reveal overwrites the earlier one.
    pub fn add_outcome(&mut self, exercise: u64, outcome: i64, authority: u64) -> (result:
        Result<(), ErrorCode>)
        requires
            old(self)@.wf(),
        ensures
            final(self)@.wf(),
            result == add_outcome_outcome(old(self)@, exercise, authority),
            final(self)@ == add_outcome_post(old(self)@, exercise, outcome, authority),
    {
        let ex_opt = self.exercises.remove(&exercise);
        match ex_opt {
            None => Err(ErrorCode::ExerciseNotFound),
            Some(mut ex) => {
                let result = ex.add_outcome(outcome, authority);
                let ghost ev = ex@;
                self.exercises.insert(exercise, ex);
                proof {
                    assert(self@.traders =~= old(self)@.traders);
                    assert(self@.exercises =~= old(self)@.exercises.insert(exercise, ev));
                    if result is Err {
                        assert(self@ =~= old(self)@);
                    } else {
                        assert(self@ =~= add_outcome_post(old(self)@, exercise, outcome,
                        authority));
                    }
                    assert forall|a: u64| self@.exercises.contains_key(a) implies (
                    #[trigger] self@.exercises[a]).wf() && derivation_ok(
                        exercise_seeds_spec(self@.exercises[a].cid),
                        a,
                        self@.exercises[a].bump,
                    ) by {
                        if a != exercise {
                            assert(old(self)@.exercises.contains_key(a));
                            assert(self@.exercises[a] == old(self)@.exercises[a]);
                        } else {
                            assert(ev.cid == old(self)@.exercises[exercise].cid);
                            assert(ev.bump == old(self)@.exercises[exercise].bump);
                        }
                    }
                }
                result
            },
        }
    }

    /// Grades one stored validation: folds its rating into the submitting
    /// trader's performance and removes the validation; an exercise whose
    /// collection becomes empty is thereby done and its record destroyed, so
    /// any later reference to it reports the not-found condition.  Removal
    /// shifts the indices of every later validation down by one, so callers
    /// must re-resolve indices after each successful check.
    pub fn check_validation(
        &mut self,
        exercise: u64,
        index: u8,
        trader: u64,
        authority: u64,
    ) -> (result: Result<(), ErrorCode>)
        requires
            old(self)@.wf(),
        ensures
            final(self)@.wf(),
            result == check_validation_outcome(old(self)@, exercise, index, trader, authority),
            final(self)@ == check_validation_post(old(self)@, exercise, index, trader,
            authority),
            result is Err ==> final(self)@ == old(self)@,
            result is Ok && old(self)@.exercises[exercise].validations.len() == 1
                ==> !final(self)@.exercises.contains_key(exercise),
    {
        let ex_opt = self.exercises.remove(&exercise);
        match ex_opt {
            None => Err(ErrorCode::ExerciseNotFound),
            Some(mut ex) => {
                let tr_opt = self.traders.remove(&trader);
                match tr_opt {
                    None => {
                        self.exercises.insert(exercise, ex);
                        proof {
                            assert(self.exercises@ =~= old(self).exercises@);
                            assert(self@ =~= old(self)@);
                        }
                        Err(ErrorCode::TraderNotFound)
                    },
                    Some(mut tr) => {
                        let result = ex.check_validation(index, &mut tr, trader, authority);
                        let ghost tv = tr@;
                        let ghost ev = ex@;
                        self.traders.insert(trader, tr);
                        match result {
                            Err(e) => {
                                self.exercises.insert(exercise, ex);
                                proof {
                                    assert(self@.exercises =~= old(self)@.exercises);
                                    assert(self@.traders =~= old(self)@.traders);
                                    assert(self@ =~= old(self)@);
                                }
                                Err(e)
                            },
                            Ok(now_empty) => {
                                if !now_empty {
                                    self.exercises.insert(exercise, ex);
                                }
                                proof {
                                    assert(self@.traders =~= old(self)@.traders.insert(
                                        trader,
                                        tv,
                                    ));
                                    if now_empty {
                                        assert(self@.exercises =~= old(
                                            self,
                                        )@.exercises.remove(exercise));
                                    } else {
                                        assert(self@.exercises =~= old(
                                            self,
                                        )@.exercises.insert(exercise, ev));
                                    }
                                    assert(self@ =~= check_validation_post(
                                        old(self)@,
                                        exercise,
                                        index,
                                        trader,
                                        authority,
                                    ));
                                    assert forall|a: u64|
                                        self@.exercises.contains_key(a) implies (
                                    #[trigger] self@.exercises[a]).wf() && derivation_ok(
                                        exercise_seeds_spec(self@.exercises[a].cid),
                                        a,
                                        self@.exercises[a].bump,
                                    ) by {
                                        if a != exercise {
                                            assert(old(self)@.exercises.contains_key(a));
                                            assert(self@.exercises[a] == old(
                                                self,
                                            )@.exercises[a]);
                                        } else {
                                            assert(ev.cid == old(
                                                self,
                                            )@.exercises[exercise].cid);
                                            assert(ev.bump == old(
                                                self,
                                            )@.exercises[exercise].bump);
                                        }
                                    }
                                    assert forall|a: u64|
                                        self@.traders.contains_key(a) implies derivation_ok(
                                        trader_seeds_spec(
                                            (#[trigger] self@.traders[a]).name,
                                            self@.traders[a].user,
                                        ),
                                        a,
                                        self@.traders[a].bump,
                                    ) by {
                                        if a != trader {
                                            assert(old(self)@.traders.contains_key(a));
                                            assert(self@.traders[a] == old(self)@.traders[a]);
                                        } else {
                                            assert(tv.name == old(self)@.traders[trader].name);
                                            assert(tv.user == old(self)@.traders[trader].user);
                                            assert(tv.bump == old(self)@.traders[trader].bump);
                                        }
                                    }
                                }
                                Ok(())
                            },
                        }
                    },
                }
            },
        }
    }

    /// Destroys an exercise outright, independent of its state; only its
    /// creating authority may.  An administrative abort.
    pub fn close_exercise(&mut self, exercise: u64, authority: u64) -> (result: Result<
        (),
        ErrorCode,
    >)
        requires
            old(self)@.wf(),
        ensures
            final(self)@.wf(),
            result == close_exercise_outcome(old(self)@, exercise, authority),
            result is Ok ==> final(self)@ == without_exercise(old(self)@, exercise),
            result is Err ==> final(self)@ == old(self)@,
    {
        let ex_opt = self.exercises.remove(&exercise);
        match ex_opt {
            None => Err(ErrorCode::ExerciseNotFound),
            Some(ex) => {
                if ex.authority != authority {
                    self.exercises.insert(exercise, ex);
                    proof {
                        assert(self.exercises@ =~= old(self).exercises@);
                        assert(self@ =~= old(self)@);
                    }
                    Err(ErrorCode::WrongExerciseCreator)
                } else {
                    proof {
                        assert(self@.exercises =~= old(self)@.exercises.remove(exercise));
                        assert(self@ =~= without_exercise(old(self)@, exercise));
                    }
                    Ok(())
                }
            },
        }
    }

    /// Reads the governance record.
    pub fn get_params(&self) -> (params: Params)
        ensures
            params == self@.params,
    {
        self.params
    }

    /// Looks up a trainer record by its derived address.
    pub fn get_trainer(&self, address: u64) -> (result: Option<&Trainer>)
        ensures
            match result {
                Some(trainer) => self@.trainers.contains_key(address) && *trainer
                    == self@.trainers[address],
                None => !self@.trainers.contains_key(address),
            },
    {
        self.trainers.get(&address)
    }

    /// Looks up a trader record by its derived address.
    pub fn get_trader(&self, address: u64) -> (result: Option<&Trader>)
        ensures
            match result {
                Some(trader) => self@.traders.contains_key(address) && trader@
                    == self@.traders[address],
                None => !self@.traders.contains_key(address),
            },
    {
        let result = self.traders.get(&address);
        proof {
            if self.traders@.contains_key(address) {
                assert(self@.traders.contains_key(address));
                assert(self@.traders[address] == self.traders@[address]@);
            } else {
                assert(!self@.traders.contains_key(address));
            }
        }
        result
    }

    /// Looks up a live exercise record by its derived address; a finished or
    /// closed exercise is gone, the not-found condition.
    pub fn get_exercise(&self, address: u64) -> (result: Option<&Exercise>)
        ensures
            match result {
                Some(ex) => self@.exercises.contains_key(address) && ex@
                    == self@.exercises[address],
                None => !self@.exercises.contains_key(address),
            },
    {
        let result = self.exercises.get(&address);
        proof {
            if self.exercises@.contains_key(address) {
                assert(self@.exercises.contains_key(address));
                assert(self@.exercises[address] == self.exercises@[address]@);
            } else {
                assert(!self@.exercises.contains_key(address));
            }
        }
        result
    }
}

} // verus!
