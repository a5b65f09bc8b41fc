use akio::actor_factory::{new_id, RANDOM_VERSION, VERSION_BITS};
use akio::errors::ErrorKind;

#[test]
fn already_exists_names_the_identifier() {
    let error = ErrorKind::ActorAlreadyExists(0xa1a2a3a4_b1b2_c1c2_d1d2_d3d4d5d6d7d8);
    assert_eq!(error.description(), "actor already exists");
    assert_eq!(
        error.message(),
        "actor 'a1a2a3a4-b1b2-c1c2-d1d2-d3d4d5d6d7d8' already exists"
    );
}

#[test]
fn invalid_actor_names_the_identifier() {
    let error = ErrorKind::InvalidActor(1);
    assert_eq!(error.description(), "invalid actor");
    assert_eq!(
        error.message(),
        "invalid actor: '00000000-0000-0000-0000-000000000001'"
    );
}

#[test]
fn destroyed_has_its_name_for_a_message() {
    assert_eq!(ErrorKind::ActorDestroyed.description(), "ActorDestroyed");
    assert_eq!(ErrorKind::ActorDestroyed.message(), "ActorDestroyed");
}

#[test]
fn new_identifiers_are_random_and_of_version_four() {
    let first = new_id();
    let second = new_id();
    assert_ne!(first, 0);
    assert_ne!(first, second);
    assert_eq!(first & VERSION_BITS, RANDOM_VERSION);
    assert_eq!(second & VERSION_BITS, RANDOM_VERSION);
    assert_eq!((first >> 76) & 0xf, 4);
    assert_eq!((first >> 62) & 0x3, 2);
}

#[test]
fn identifier_is_written_digit_by_digit() {
    for _ in 0..50 {
        let id = new_id();
        let digits = format!("{:032x}", id);
        let expected = format!(
            "{}-{}-{}-{}-{}",
            &digits[0..8],
            &digits[8..12],
            &digits[12..16],
            &digits[16..20],
            &digits[20..32]
        );
        assert_eq!(
            ErrorKind::InvalidActor(id).message(),
            format!("invalid actor: '{}'", expected)
        );
    }
    assert_eq!(
        ErrorKind::InvalidActor(u128::MAX).message(),
        "invalid actor: 'ffffffff-ffff-ffff-ffff-ffffffffffff'"
    );
    assert_eq!(
        ErrorKind::InvalidActor(0).message(),
        "invalid actor: '00000000-0000-0000-0000-000000000000'"
    );
}
