use taska_api::error::AppError;
use taska_api::user::{User, UserId, UserName};

fn name_ok(s: &str) -> bool {
    UserName::new(s.to_string()).is_ok()
}

#[test]
fn new_user_name() {
    // Too short.
    assert!(!name_ok(""));
    assert!(!name_ok("a"));
    // In range.
    assert!(name_ok("ab"));
    assert!(name_ok("abc"));
    assert!(name_ok("abcdefghijklmnopqrst"));
    // Too long (21 characters).
    assert!(!name_ok("abcdefghijklmnopqrstu"));
    // Length in range but not ASCII alphanumeric.
    assert!(!name_ok("あいう"));
    assert!(!name_ok("a b"));
    assert!(!name_ok("ab\n"));
    assert!(!name_ok("ab-cd"));
    assert!(name_ok("Ab9"));
    assert!(name_ok("Ab9x"));
}

#[test]
fn user_name_messages() {
    match UserName::new("a".to_string()) {
        Err(AppError::InvalidArgument(m)) => assert_eq!(
            m,
            "name: a is too short or long. Use a name between 2 and 20 characters."
        ),
        other => panic!("unexpected: {other:?}"),
    }
    match UserName::new("a b".to_string()) {
        Err(AppError::InvalidArgument(m)) => {
            assert_eq!(m, "name: a b should consist of ascii alphanumerics.")
        }
        other => panic!("unexpected: {other:?}"),
    }
}

#[test]
fn user_name_round_trip() {
    let n = UserName::new("Alice42".to_string()).unwrap();
    assert_eq!(n.to_string(), "Alice42");
}

#[test]
fn user_id_parses_both_forms() {
    let simple = UserId::try_from("a1a2a3a4b1b2c1c2d1d2d3d4d5d6d7d8".to_string()).unwrap();
    let hyphenated = UserId::try_from("a1a2a3a4-b1b2-c1c2-d1d2-d3d4d5d6d7d8".to_string()).unwrap();
    assert_eq!(simple, hyphenated);
    assert_eq!(simple.to_string(), "a1a2a3a4-b1b2-c1c2-d1d2-d3d4d5d6d7d8");
    // Upper-case digits are accepted and rendered lower-case.
    let upper = UserId::try_from("A1A2A3A4-B1B2-C1C2-D1D2-D3D4D5D6D7D8".to_string()).unwrap();
    assert_eq!(upper.to_string(), "a1a2a3a4-b1b2-c1c2-d1d2-d3d4d5d6d7d8");
}

#[test]
fn user_id_rejects_malformed() {
    for bad in [
        "",
        "abc",
        "a1a2a3a4b1b2c1c2d1d2d3d4d5d6d7d",    // 31 digits
        "a1a2a3a4b1b2c1c2d1d2d3d4d5d6d7d8f",  // 33 digits
        "g1a2a3a4b1b2c1c2d1d2d3d4d5d6d7d8",   // non-hex digit
        "a1a2a3a4-b1b2c-1c2-d1d2-d3d4d5d6d7d8", // hyphens misplaced
        "a1a2a3a4b-1b2-c1c2-d1d2-d3d4d5d6d7d8",
        "{a1a2a3a4-b1b2-c1c2-d1d2-d3d4d5d6d7d8}",
        "urn:uuid:a1a2a3a4-b1b2-c1c2-d1d2-d3d4d5d6d7d8",
        "a1a2a3a4 b1b2 c1c2 d1d2 d3d4d5d6d7d8",
    ] {
        match UserId::try_from(bad.to_string()) {
            Err(AppError::InvalidArgument(m)) => assert_eq!(m, "invalid user id"),
            other => panic!("{bad:?} gave {other:?}"),
        }
    }
}

#[test]
fn fresh_ids_differ() {
    let a = User::new(UserName::new("SomeUser".to_string()).unwrap());
    let b = User::new(UserName::new("SomeUser".to_string()).unwrap());
    assert_eq!(a.name().to_string(), "SomeUser");
    assert_ne!(a.id(), b.id());
    // A fresh identifier renders in the canonical hyphenated form and
    // parses back to the same identifier.
    let s = a.id().to_string();
    assert_eq!(s.len(), 36);
    let parsed = UserId::try_from(s).unwrap();
    assert_eq!(&parsed, a.id());
}

#[test]
fn reconstruct_round_trip() {
    let u = User::reconstruct(
        "0123456789abcdefffffffffffffffff".to_string(),
        "TestUser".to_string(),
    )
    .unwrap();
    assert_eq!(u.name().to_string(), "TestUser");
    assert_eq!(u.id().to_string(), "01234567-89ab-cdef-ffff-ffffffffffff");
}

#[test]
fn reconstruct_classifies_as_internal() {
    match User::reconstruct("nonsense".to_string(), "TestUser".to_string()) {
        Err(AppError::Internal(m)) => assert_eq!(m, "failed to reconstruct user: invalid id"),
        other => panic!("unexpected: {other:?}"),
    }
    match User::reconstruct("0123456789abcdefffffffffffffffff".to_string(), "a".to_string()) {
        Err(AppError::Internal(m)) => assert_eq!(m, "failed to reconstruct user: invalid name"),
        other => panic!("unexpected: {other:?}"),
    }
}
