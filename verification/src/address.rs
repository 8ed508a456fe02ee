//! The address deriver.
//!
//! A record's storage address is computed from an ordered list of seed
//! byte-strings.  A 64-bit FNV-1a fold over all seed bytes, extended by one
//! disambiguator byte (the "bump"), gives a candidate address; a small
//! reserved slice of the address space (addresses whose low byte is zero) is
//! set aside and never assigned to a record.  Derivation searches the bump
//! space from 255 down to 0 and accepts the first candidate outside the
//! reserved slice, so the same
//! seeds always re-derive the same `(address, bump)` pair, and a record that
//! stores its own bump can be re-located in a single hash rather than a
//! search.
//!
//! Long text seeds are truncated deterministically: `text_seed` takes the
//! first 32 bytes of a string, or, for the leftover segment, bytes 32..64.

use vstd::prelude::*;
use vstd::slice::slice_subrange;
use vstd::string::StringSliceAdditionalSpecFns;
use crate::error::ErrorCode;

verus! {

broadcast use vstd::slice::group_slice_axioms;

/// The 64-bit FNV-1a offset basis, the fold's initial state.
pub const HASH_OFFSET: u64 = 0xcbf29ce484222325;

/// The 64-bit FNV-1a prime.
pub const HASH_PRIME: u64 = 0x100000001b3;

/// One step of the fold: xor the next byte into the state and multiply by
/// the prime, truncated to 64 bits.  Opaque: every proof but the fold step's
/// own treats the step as an uninterpreted mixing function.
#[verifier::opaque]
pub open spec fn mix(h: u64, b: u8) -> u64 {
    ((((h ^ (b as u64)) as int) * (HASH_PRIME as int)) % 0x1_0000_0000_0000_0000) as u64
}

/// The fold over one seed's bytes, taken left to right.
pub open spec fn hash_bytes(h: u64, bytes: Seq<u8>) -> u64
    decreases bytes.len(),
{
    if bytes.len() == 0 {
        h
    } else {
        hash_bytes(mix(h, bytes[0]), bytes.skip(1))
    }
}

/// The fold over a whole seed list, each seed's bytes in order.
pub open spec fn hash_seeds(h: u64, seeds: Seq<Seq<u8>>) -> u64
    decreases seeds.len(),
{
    if seeds.len() == 0 {
        h
    } else {
        hash_seeds(hash_bytes(h, seeds[0]), seeds.skip(1))
    }
}

/// The byte sequences a seed list holds.
pub open spec fn seeds_view(seeds: Seq<Vec<u8>>) -> Seq<Seq<u8>> {
    Seq::new(seeds.len(), |i: int| seeds[i]@)
}

/// The candidate address for a seed list and one bump value.
pub open spec fn candidate_address(seeds: Seq<Seq<u8>>, bump: u8) -> u64 {
    mix(hash_seeds(HASH_OFFSET, seeds), bump)
}

/// The reserved slice of the address space that derivation refuses:
/// addresses whose low byte is zero.
pub open spec fn reserved_address(address: u64) -> bool {
    address % 256 == 0
}

/// What a successful derivation returns: the candidate for `bump`, itself
/// outside the reserved slice, while every higher bump's candidate falls
/// inside it.
pub open spec fn derivation_ok(seeds: Seq<Seq<u8>>, address: u64, bump: u8) -> bool {
    &&& address == candidate_address(seeds, bump)
    &&& !reserved_address(address)
    &&& forall|b: u8| b > bump ==> reserved_address(candidate_address(seeds, b))
}

/// One exec step of the fold.
fn mix_byte(h: u64, b: u8) -> (r: u64)
    ensures
        r == mix(h, b),
{
    let x: u64 = h ^ (b as u64);
    proof {
        reveal(mix);
        assert((x as int) * (HASH_PRIME as int) <= 0xffff_ffff_ffff_ffff * 0x100000001b3)
            by (nonlinear_arith)
            requires
                0 <= x as int <= 0xffff_ffff_ffff_ffff,
        ;
    }
    let wide: u128 = (x as u128) * (HASH_PRIME as u128);
    (wide % 0x1_0000_0000_0000_0000u128) as u64
}

/// The fold over one seed's bytes.
fn hash_bytes_exec(h0: u64, bytes: &Vec<u8>) -> (h: u64)
    ensures
        h == hash_bytes(h0, bytes@),
{
    let mut h: u64 = h0;
    let n: usize = bytes.len();
    proof {
        assert(bytes@.skip(0) =~= bytes@);
    }
    for i in 0..n
        invariant
            n == bytes@.len(),
            hash_bytes(h, bytes@.skip(i as int)) == hash_bytes(h0, bytes@),
    {
        h = mix_byte(h, bytes[i]);
        proof {
            assert(bytes@.skip(i as int).skip(1) =~= bytes@.skip(i as int + 1));
        }
    }
    proof {
        assert(bytes@.skip(n as int) =~= Seq::<u8>::empty());
    }
    h
}

/// The fold over a whole seed list, starting from the offset basis.
fn hash_seeds_exec(seeds: &Vec<Vec<u8>>) -> (h: u64)
    ensures
        h == hash_seeds(HASH_OFFSET, seeds_view(seeds@)),
{
    let mut h: u64 = HASH_OFFSET;
    let n: usize = seeds.len();
    proof {
        assert(seeds_view(seeds@).skip(0) =~= seeds_view(seeds@));
    }
    for i in 0..n
        invariant
            n == seeds@.len(),
            hash_seeds(h, seeds_view(seeds@).skip(i as int)) == hash_seeds(
                HASH_OFFSET,
                seeds_view(seeds@),
            ),
    {
        h = hash_bytes_exec(h, &seeds[i]);
        proof {
            assert(seeds_view(seeds@).skip(i as int).skip(1) =~= seeds_view(seeds@).skip(
                i as int + 1,
            ));
        }
    }
    proof {
        assert(seeds_view(seeds@).skip(n as int) =~= Seq::<Seq<u8>>::empty());
    }
    h
}

/// Recomputes the candidate address for a seed list and a stored bump, the
/// constant-time re-derivation a record's own bump makes possible.
pub fn create_address(seeds: &Vec<Vec<u8>>, bump: u8) -> (address: u64)
    ensures
        address == candidate_address(seeds_view(seeds@), bump),
{
    let base = hash_seeds_exec(seeds);
    mix_byte(base, bump)
}

/// Derives the canonical `(address, bump)` pair for a seed list: the bump
/// space is searched from 255 down to 0 and the first candidate outside the
/// reserved slice wins.  Fails with `AddressCollisionExhausted` when every
/// candidate is reserved.
pub fn derive_address(seeds: &Vec<Vec<u8>>) -> (result: Result<(u64, u8), ErrorCode>)
    ensures
        result matches Ok(pair) ==> derivation_ok(seeds_view(seeds@), pair.0, pair.1),
        result is Err ==> result == Err::<(u64, u8), ErrorCode>(
            ErrorCode::AddressCollisionExhausted,
        ) && forall|b: u8| reserved_address(candidate_address(seeds_view(seeds@), b)),
        result is Ok <==> exists|b: u8|
            !reserved_address(candidate_address(seeds_view(seeds@), b)),
{
    let base = hash_seeds_exec(seeds);
    for i in 0..256usize
        invariant
            base == hash_seeds(HASH_OFFSET, seeds_view(seeds@)),
            forall|b: u8| b as int > 255 - i ==> reserved_address(
                candidate_address(seeds_view(seeds@), b),
            ),
    {
        let bump: u8 = (255 - i) as u8;
        let address = mix_byte(base, bump);
        if address % 256 != 0 {
            proof {
                assert(!reserved_address(candidate_address(seeds_view(seeds@), bump)));
            }
            return Ok((address, bump));
        }
    }
    Err(ErrorCode::AddressCollisionExhausted)
}

/// Derivation is deterministic: one seed list admits one successful
/// `(address, bump)` pair, so deriving twice from the same seeds yields the
/// same result.
pub proof fn lemma_derive_deterministic(
    seeds: Seq<Seq<u8>>,
    address1: u64,
    bump1: u8,
    address2: u64,
    bump2: u8,
)
    requires
        derivation_ok(seeds, address1, bump1),
        derivation_ok(seeds, address2, bump2),
    ensures
        address1 == address2,
        bump1 == bump2,
{
    if bump1 < bump2 {
        assert(reserved_address(candidate_address(seeds, bump2)));
    }
    if bump2 < bump1 {
        assert(reserved_address(candidate_address(seeds, bump1)));
    }
}

/// The deterministic truncation of a text seed: a string of more than 32
/// bytes contributes its first 32 bytes, and as its leftover segment bytes
/// 32..64; a short string contributes its bytes whole (with an empty
/// leftover only when the string itself is empty -- a short string is its
/// own leftover segment).
pub open spec fn text_seed_spec(bytes: Seq<u8>, leftover: bool) -> Seq<u8> {
    if bytes.len() > 32 {
        if leftover {
            if bytes.len() > 64 {
                bytes.subrange(32, 64)
            } else {
                bytes.subrange(32, bytes.len() as int)
            }
        } else {
            bytes.subrange(0, 32)
        }
    } else {
        bytes
    }
}

/// Retrieves at most 32 bytes of a string for use as a seed: the leading
/// segment, or with `leftover` the segment after the first 32 bytes.
pub fn text_seed(text: &str, leftover: bool) -> (seed: &[u8])
    ensures
        seed@ == text_seed_spec(text.spec_bytes(), leftover),
{
    let b: &[u8] = text.as_bytes();
    if b.len() > 32 {
        if leftover {
            if b.len() > 64 {
                slice_subrange(b, 32, 64)
            } else {
                slice_subrange(b, 32, b.len())
            }
        } else {
            slice_subrange(b, 0, 32)
        }
    } else {
        b
    }
}

/// The little-endian bytes of a 64-bit identifier, for use as a seed.
pub open spec fn u64_le_seed(x: u64) -> Seq<u8> {
    seq![
        (x % 256) as u8,
        ((x / 0x100) % 256) as u8,
        ((x / 0x1_0000) % 256) as u8,
        ((x / 0x100_0000) % 256) as u8,
        ((x / 0x1_0000_0000) % 256) as u8,
        ((x / 0x100_0000_0000) % 256) as u8,
        ((x / 0x1_0000_0000_0000) % 256) as u8,
        ((x / 0x100_0000_0000_0000) % 256) as u8,
    ]
}

/// Builds the little-endian byte seed of a 64-bit identifier.
pub fn u64_seed(x: u64) -> (seed: Vec<u8>)
    ensures
        seed@ == u64_le_seed(x),
{
    let mut seed: Vec<u8> = Vec::new();
    seed.push((x % 256) as u8);
    seed.push(((x / 0x100) % 256) as u8);
    seed.push(((x / 0x1_0000) % 256) as u8);
    seed.push(((x / 0x100_0000) % 256) as u8);
    seed.push(((x / 0x1_0000_0000) % 256) as u8);
    seed.push(((x / 0x100_0000_0000) % 256) as u8);
    seed.push(((x / 0x1_0000_0000_0000) % 256) as u8);
    seed.push(((x / 0x100_0000_0000_0000) % 256) as u8);
    proof {
        assert(seed@ =~= u64_le_seed(x));
    }
    seed
}

} // verus!
