use chat_backend::clock::rfc3339;
use chat_backend::error::{ApiError, Fault, Invalid, Missing};
use chat_backend::ids::{canonical_pair, direct_channel_id, Id};

#[test]
fn identity_text_is_hyphenated_lower_case() {
    assert_eq!(Id { value: 1 }.text(), "00000000-0000-0000-0000-000000000001");
    assert_eq!(
        Id { value: 0xa1a2a3a4b1b2c1c2d1d2d3d4d5d6d7d8 }.text(),
        "a1a2a3a4-b1b2-c1c2-d1d2-d3d4d5d6d7d8"
    );
}

#[test]
fn identity_parses_back_from_its_text() {
    for value in [0u128, 1, 42, u128::MAX, 0x550e8400e29b41d4a716446655440000] {
        let id = Id { value };
        assert_eq!(Id::parse(&id.text()), Some(id));
    }
}

#[test]
fn identity_parses_other_forms_and_rejects_junk() {
    assert_eq!(
        Id::parse("550E8400-E29B-41D4-A716-446655440000"),
        Some(Id { value: 0x550e8400e29b41d4a716446655440000 })
    );
    assert_eq!(
        Id::parse("550e8400e29b41d4a716446655440000"),
        Some(Id { value: 0x550e8400e29b41d4a716446655440000 })
    );
    assert_eq!(Id::parse(""), None);
    assert_eq!(Id::parse("not-an-identity"), None);
    assert_eq!(Id::parse("550e8400-e29b-41d4-a716-44665544000"), None);
}

#[test]
fn identity_order_is_the_order_of_the_uuids() {
    let low = uuid::Uuid::parse_str("00000000-0000-0000-0000-0000000000ff").unwrap();
    let high = uuid::Uuid::parse_str("01000000-0000-0000-0000-000000000000").unwrap();
    assert!(low < high);
    let a = Id::parse("00000000-0000-0000-0000-0000000000ff").unwrap();
    let b = Id::parse("01000000-0000-0000-0000-000000000000").unwrap();
    assert!(a.value < b.value);
    assert_eq!(canonical_pair(b, a), (a, b));
}

#[test]
fn canonical_pair_puts_the_smaller_first() {
    let a = Id { value: 3 };
    let b = Id { value: 8 };
    assert_eq!(canonical_pair(a, b), (a, b));
    assert_eq!(canonical_pair(b, a), (a, b));
    assert_eq!(canonical_pair(a, a), (a, a));
}

#[test]
fn random_identities_differ() {
    let a = Id::random();
    let b = Id::random();
    assert_ne!(a, b);
    assert_eq!(Id::parse(&a.text()), Some(a));
}

#[test]
fn named_identity_is_the_name_based_uuid() {
    assert_eq!(
        Id::named("hello"),
        Id::parse("4d71d03f-f19b-5d9e-8523-9628ba18063c").unwrap()
    );
    assert_eq!(Id::named("hello"), Id::named("hello"));
    assert_ne!(Id::named("hello"), Id::named("hellp"));
}

#[test]
fn direct_channel_is_shared_by_both_users() {
    let a = Id { value: 1 };
    let b = Id { value: 2 };
    let channel = direct_channel_id(a, b);
    assert_eq!(channel, direct_channel_id(b, a));
    assert_eq!(channel, Id { value: 136125090542522812799229664106512679129 });
    assert_ne!(channel, direct_channel_id(a, Id { value: 3 }));
    let key = format!("{}_{}", a.text(), b.text());
    let expected = uuid::Uuid::new_v5(&uuid::Uuid::NAMESPACE_OID, key.as_bytes());
    assert_eq!(channel.value, expected.as_u128());
}

#[test]
fn rfc3339_text_of_known_instants() {
    assert_eq!(rfc3339(0), Some("1970-01-01T00:00:00Z".to_string()));
    assert_eq!(rfc3339(1_546_300_800), Some("2019-01-01T00:00:00Z".to_string()));
    assert_eq!(rfc3339(1_546_300_861), Some("2019-01-01T00:01:01Z".to_string()));
    assert_eq!(rfc3339(-1), Some("1969-12-31T23:59:59Z".to_string()));
}

#[test]
fn rfc3339_text_is_missing_outside_the_calendar() {
    assert_eq!(rfc3339(i64::MAX), None);
    assert_eq!(rfc3339(i64::MIN), None);
    assert_eq!(rfc3339(253_402_300_799), Some("9999-12-31T23:59:59Z".to_string()));
    assert_eq!(rfc3339(253_402_300_800), None);
}

#[test]
fn errors_have_their_status_and_text() {
    let cases = [
        (ApiError::Auth, 401, "Unauthorized"),
        (ApiError::NotAMember, 401, "You are not in this room"),
        (ApiError::Validation(Invalid::SelfRequest), 400, "Can't add yourself"),
        (ApiError::Validation(Invalid::SelfBlock), 400, "Cannot block yourself"),
        (ApiError::Validation(Invalid::SelfRemoval), 400, "Cannot unfriend yourself"),
        (ApiError::Validation(Invalid::SelfMessage), 400, "Cannot message yourself"),
        (ApiError::Validation(Invalid::NoPendingRequest), 400, "No pending request found"),
        (ApiError::Validation(Invalid::MalformedId), 400, "Invalid user ID"),
        (ApiError::Conflict, 409, "Already exists"),
        (ApiError::NotFound(Missing::Relationship), 404, "No relationship to remove"),
        (ApiError::NotFound(Missing::User), 404, "User not found"),
        (ApiError::NotFound(Missing::Room), 404, "Room not found"),
        (ApiError::NotFound(Missing::FriendRequest), 404, "Friend request not found"),
        (ApiError::Internal(Fault::Hashing), 500, "Hashing error"),
        (ApiError::Internal(Fault::CorruptHash), 500, "Corrupt password hash"),
        (ApiError::Internal(Fault::Other), 500, "Internal error"),
    ];
    for (error, status, text) in cases {
        assert_eq!(error.status(), status);
        assert_eq!(error.message(), text);
    }
}

#[test]
fn random_identity_is_a_version_four_uuid() {
    for _ in 0..32 {
        let id = Id::random();
        assert_eq!(
            id.value & 0x0000_0000_0000_f000_c000_0000_0000_0000,
            0x0000_0000_0000_4000_8000_0000_0000_0000
        );
        let text = id.text();
        assert_eq!(text.as_bytes()[14], b'4');
        assert!(matches!(text.as_bytes()[19], b'8' | b'9' | b'a' | b'b'));
        let uuid = uuid::Uuid::from_u128(id.value);
        assert_eq!(uuid.get_version_num(), 4);
    }
}
