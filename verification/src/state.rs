//! The persistent records: traders, trainers, governance parameters, and the
//! validations an exercise embeds.
//!
//! In this model principals and derived addresses are 64-bit identifiers;
//! the persisted layout the `space` functions account for stores each
//! principal as a full 32-byte public identifier.  Each record stores the
//! bump its address was derived with, so later calls can verify a
//! re-derivation in constant time.  The `space` functions give each record's
//! serialized byte size under the allocate-once layout: a fixed discriminator
//! tag plus each field's fixed or length-prefixed variable size.

use vstd::prelude::*;
use vstd::string::StringSliceAdditionalSpecFns;

verus! {

/// The serialized size of a record's leading discriminator tag.
pub const TAG_SPACE: usize = 8;

/// The serialized size of a principal or record address: a 32-byte public
/// identifier.
pub const PRINCIPAL_SPACE: usize = 32;

/// The serialized size of one validation: an 8-byte value plus the trader's
/// and the submitter's 32-byte identifiers.
pub const VALIDATION_SPACE: usize = 72;

/// One trader's numeric prediction against an exercise, immutable once
/// created and consumed exactly once by grading.
#[derive(Clone, Copy, Debug, PartialEq, Eq, Structural)]
pub struct Validation {
    /// The predicted value.
    pub value: i64,
    /// The address of the trader record the grade is folded into.
    pub trader: u64,
    /// The submitting principal, the trader record's owner.
    pub user: u64,
}

/// A registered participant identity holding a running reputation score.
#[derive(Debug)]
pub struct Trader {
    /// The owning principal.
    pub user: u64,
    /// The running reputation score grading updates.
    pub performance: u64,
    /// A derived standing, updated externally.
    pub ranking: u64,
    /// The league the trader plays in, updated externally.
    pub league: u8,
    /// The human-readable name; one trader exists per (name, owner) pair.
    pub name: String,
    /// The disambiguator the trader's address was derived with.
    pub bump: u8,
}

/// The mathematical value of a trader record.
pub ghost struct TraderV {
    pub user: u64,
    pub performance: u64,
    pub ranking: u64,
    pub league: u8,
    pub name: Seq<char>,
    pub bump: u8,
}

impl View for Trader {
    type V = TraderV;

    open spec fn view(&self) -> TraderV {
        TraderV {
            user: self.user,
            performance: self.performance,
            ranking: self.ranking,
            league: self.league,
            name: self.name@,
            bump: self.bump,
        }
    }
}

impl Trader {
    /// The trader record's serialized size: tag, owner, performance, ranking,
    /// league, length-prefixed name, bump.
    pub fn space(name: &str) -> (bytes: usize)
        requires
            name.spec_bytes().len() + 62 <= usize::MAX,
        ensures
            bytes == 62 + name.spec_bytes().len(),
    {
        TAG_SPACE + PRINCIPAL_SPACE + 8 + 8 + 1 + (4 + name.len()) + 1
    }
}

/// An entity the governance authority has empowered to create exercises.
#[derive(Clone, Copy, Debug, PartialEq, Eq, Structural)]
pub struct Trainer {
    /// The principal that acts through this trainer record.
    pub authority: u64,
    /// The disambiguator the trainer's address was derived with.
    pub bump: u8,
}

impl Trainer {
    /// The trainer record's serialized size: tag, authority, bump.
    pub fn space() -> (bytes: usize)
        ensures
            bytes == 41,
    {
        TAG_SPACE + PRINCIPAL_SPACE + 1
    }
}

/// The governance record: the current authority and the minimum number of
/// validation slots an exercise may be created with.
#[derive(Clone, Copy, Debug, PartialEq, Eq, Structural)]
pub struct Params {
    /// The principal empowered to register trainers and rotate itself.
    pub authority: u64,
    /// The policy floor for an exercise's validation capacity.
    pub min_validations: u8,
    /// The disambiguator the params record's address was derived with.
    pub bump: u8,
}

impl Params {
    /// The params record's serialized size: tag, authority, minimum, bump.
    pub fn space() -> (bytes: usize)
        ensures
            bytes == 42,
    {
        TAG_SPACE + PRINCIPAL_SPACE + 1 + 1
    }
}

} // verus!
