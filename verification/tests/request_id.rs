use std::str::FromStr as _;

use axum_observability::{
    native_field_content, random_request_id, select_request_id, InvalidRequestId, RequestId,
};

#[test]
fn native_field_content_admits_internal_htab_but_rejects_controls() {
    assert!(native_field_content("tenant\trequest"));
    for value in ["tenant\0request", "tenant\x1frequest", "tenant\x7frequest"] {
        assert!(!native_field_content(value), "admitted {value:?}");
    }
}

#[test]
fn accepts_exact_length_boundaries_and_conversion_forms() {
    let one = RequestId::parse("a").expect("one byte");
    assert_eq!(one.as_str(), "a");
    assert_eq!(one.as_ref(), "a");

    let maximum = "aZ09-._~".repeat(16);
    assert_eq!(maximum.len(), RequestId::MAX_LEN);
    assert_eq!(
        RequestId::from_str(&maximum).expect("from str").as_str(),
        maximum
    );
    assert_eq!(
        RequestId::try_from(maximum.as_str())
            .expect("borrowed")
            .as_str(),
        maximum
    );
    assert_eq!(
        RequestId::try_from(maximum.clone())
            .expect("owned")
            .as_str(),
        maximum
    );
}

#[test]
fn reports_deterministic_non_sensitive_failures() {
    let cases = [
        ("", InvalidRequestId::Empty),
        (
            &"secret".repeat(22),
            InvalidRequestId::TooLong { length: 132 },
        ),
        (
            "safe/secret",
            InvalidRequestId::InvalidCharacter { index: 4 },
        ),
        (
            "safeümlaut",
            InvalidRequestId::InvalidCharacter { index: 4 },
        ),
    ];

    for (value, expected) in cases {
        let error = RequestId::parse(value).expect_err("invalid request ID");
        assert_eq!(error, expected);
        if !value.is_empty() {
            assert!(!error.to_string().contains(value));
        }
    }
}

#[test]
fn checks_length_before_character_content() {
    let value = format!("/{}", "a".repeat(128));
    assert_eq!(
        RequestId::parse(&value),
        Err(InvalidRequestId::TooLong { length: 129 })
    );
}

#[test]
fn conversion_forms_enforce_identical_invalid_boundaries() {
    let oversized = "a".repeat(RequestId::MAX_LEN + 1);
    let expected = InvalidRequestId::TooLong { length: 129 };
    assert_eq!(RequestId::from_str(&oversized), Err(expected));
    assert_eq!(RequestId::try_from(oversized.as_str()), Err(expected));
    assert_eq!(RequestId::try_from(oversized), Err(expected));
}

#[test]
fn validation_errors_have_stable_redacted_messages() {
    assert_eq!(
        InvalidRequestId::Empty.to_string(),
        "request ID must not be empty"
    );
    assert_eq!(
        InvalidRequestId::TooLong { length: 129 }.to_string(),
        "request ID length 129 exceeds 128 bytes"
    );
    assert_eq!(
        InvalidRequestId::InvalidCharacter { index: 7 }.to_string(),
        "request ID contains an invalid character at byte index 7"
    );
}

#[test]
fn messages_render_zero_and_large_positions() {
    assert_eq!(
        InvalidRequestId::InvalidCharacter { index: 0 }.to_string(),
        "request ID contains an invalid character at byte index 0"
    );
    assert_eq!(
        InvalidRequestId::TooLong { length: 1_000_000 }.to_string(),
        "request ID length 1000000 exceeds 128 bytes"
    );
}

#[test]
fn invalid_character_reports_the_first_offending_byte() {
    assert_eq!(
        RequestId::parse("ab cd/ef"),
        Err(InvalidRequestId::InvalidCharacter { index: 2 })
    );
    assert_eq!(
        RequestId::parse("~"),
        Ok(RequestId::parse("~").expect("tilde"))
    );
}

#[test]
fn native_header_values_broaden_only_within_field_content() {
    let accept_all = |_: &str| true;
    let generated = || Some(RequestId::parse("generated").expect("valid"));
    let (broad, _) = select_request_id(&[b"id:42"], &accept_all, &generated);
    assert_eq!(broad.as_str(), "id:42");
    assert!(RequestId::parse("id:42").is_err());
    let long = "a".repeat(129);
    assert_eq!(
        select_request_id(&[long.as_bytes()], &accept_all, &generated).0.as_str(),
        long
    );
    for rejected in ["", " lead", "trail\t", "nul\0", "del\x7f"] {
        let (id, _) = select_request_id(&[rejected.as_bytes()], &accept_all, &generated);
        assert_eq!(id.as_str(), "generated", "{rejected:?}");
    }
}

#[test]
fn random_request_ids_are_32_lowercase_hex_digits() {
    let first = random_request_id();
    let second = random_request_id();
    for id in [&first, &second] {
        assert_eq!(id.as_str().len(), 32);
        assert!(id
            .as_str()
            .bytes()
            .all(|b| b.is_ascii_digit() || (b'a'..=b'f').contains(&b)));
        assert_eq!(RequestId::parse(id.as_str()).as_ref(), Ok(id));
    }
    assert_ne!(first, second);
}
