use trainer::address::create_address;
use trainer::address::derive_address;
use trainer::address::text_seed;
use trainer::address::u64_seed;
use trainer::ledger::exercise_seeds;
use trainer::ledger::trader_seeds;
use trainer::ledger::trainer_seeds;

#[test]
fn deriving_twice_yields_the_same_pair() {
    let seeds = exercise_seeds("bafybeigdyrzt5sfp7udm7hu76uh7y26nf3efuylqabf3oclgtqy55fbzdi");
    let first = derive_address(&seeds).unwrap();
    let second = derive_address(&seeds).unwrap();
    assert_eq!(first, second);

    let again = exercise_seeds("bafybeigdyrzt5sfp7udm7hu76uh7y26nf3efuylqabf3oclgtqy55fbzdi");
    let third = derive_address(&again).unwrap();
    assert_eq!(first, third);
}

#[test]
fn changing_one_seed_byte_changes_the_address() {
    let (a1, _) = derive_address(&exercise_seeds("exercise-a")).unwrap();
    let (a2, _) = derive_address(&exercise_seeds("exercise-b")).unwrap();
    assert_ne!(a1, a2);

    let (t1, _) = derive_address(&trader_seeds("alice", 7)).unwrap();
    let (t2, _) = derive_address(&trader_seeds("alicf", 7)).unwrap();
    let (t3, _) = derive_address(&trader_seeds("alice", 8)).unwrap();
    assert_ne!(t1, t2);
    assert_ne!(t1, t3);
}

#[test]
fn record_kinds_do_not_collide() {
    // the same identifying value under different kind tags lands elsewhere
    let (a1, _) = derive_address(&trainer_seeds(42)).unwrap();
    let (a2, _) = derive_address(&trader_seeds("", 42)).unwrap();
    assert_ne!(a1, a2);
}

#[test]
fn stored_bump_re_derives_the_address_in_one_hash() {
    let seeds = trainer_seeds(123456789);
    let (address, bump) = derive_address(&seeds).unwrap();
    assert_eq!(create_address(&seeds, bump), address);
    // the accepted address lies outside the reserved slice
    assert_ne!(address % 256, 0);
}

#[test]
fn short_text_is_its_own_seed() {
    assert_eq!(text_seed("alice", false), &b"alice"[..]);
    assert_eq!(text_seed("alice", true), &b"alice"[..]);
    assert_eq!(text_seed("", false), &b""[..]);
}

#[test]
fn long_text_splits_into_leading_and_leftover_segments() {
    let text = "abcdefghijklmnopqrstuvwxyz0123456789"; // 36 bytes
    assert_eq!(text_seed(text, false), &b"abcdefghijklmnopqrstuvwxyz012345"[..]);
    assert_eq!(text_seed(text, true), &b"6789"[..]);

    let long = "abcdefghijklmnopqrstuvwxyz0123456789abcdefghijklmnopqrstuvwxyz0123456789"; // 72 bytes
    assert_eq!(text_seed(long, false), &b"abcdefghijklmnopqrstuvwxyz012345"[..]);
    // the leftover segment is itself capped at 32 bytes: bytes 32..64
    assert_eq!(text_seed(long, true), &b"6789abcdefghijklmnopqrstuvwxyz01"[..]);

    let exactly_32 = "abcdefghijklmnopqrstuvwxyz012345";
    assert_eq!(text_seed(exactly_32, false), exactly_32.as_bytes());
    assert_eq!(text_seed(exactly_32, true), exactly_32.as_bytes());
}

#[test]
fn identifier_seed_is_little_endian() {
    assert_eq!(u64_seed(0x0102030405060708), vec![8, 7, 6, 5, 4, 3, 2, 1]);
    assert_eq!(u64_seed(0), vec![0; 8]);
    assert_eq!(u64_seed(u64::MAX), vec![0xff; 8]);
}
