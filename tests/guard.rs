use chunked_upload::guard::{parse_u64, GuardError, SIZE_LIMIT};
use chunked_upload::{bad_req, not_auth, not_found, too_big, Authorized, FormSizeLimit};

#[test]
fn token_guard() {
    assert!(Authorized::from_request(Some("s3cret"), "s3cret").is_ok());
    assert!(matches!(
        Authorized::from_request(Some("guess"), "s3cret"),
        Err(GuardError::NotAuthorized)
    ));
    assert!(matches!(
        Authorized::from_request(Some("s3cre"), "s3cret"),
        Err(GuardError::NotAuthorized)
    ));
    assert!(matches!(Authorized::from_request(None, "s3cret"), Err(GuardError::TokenMissing)));
}

#[test]
fn size_guard() {
    assert!(FormSizeLimit::from_request(Some("15000000")).is_ok());
    assert!(FormSizeLimit::from_request(Some("0")).is_ok());
    assert!(matches!(
        FormSizeLimit::from_request(Some("15000001")),
        Err(GuardError::TooLarge)
    ));
    assert!(matches!(FormSizeLimit::from_request(Some("12ab")), Err(GuardError::SizeInvalid)));
    assert!(matches!(FormSizeLimit::from_request(Some("")), Err(GuardError::SizeInvalid)));
    assert!(matches!(FormSizeLimit::from_request(None), Err(GuardError::SizeMissing)));
    assert_eq!(SIZE_LIMIT, 15_000_000);
}

#[test]
fn guard_statuses_and_messages() {
    assert_eq!(GuardError::TokenMissing.status(), 400);
    assert_eq!(GuardError::NotAuthorized.status(), 401);
    assert_eq!(GuardError::SizeMissing.status(), 400);
    assert_eq!(GuardError::SizeInvalid.status(), 400);
    assert_eq!(GuardError::TooLarge.status(), 413);
    assert_eq!(GuardError::TokenMissing.message(), "token was not found");
    assert_eq!(GuardError::TooLarge.message(), "file too large");
}

#[test]
fn decimal_u64_reading() {
    assert_eq!(parse_u64("0"), Some(0));
    assert_eq!(parse_u64("007"), Some(7));
    assert_eq!(parse_u64("+42"), Some(42));
    assert_eq!(parse_u64("18446744073709551615"), Some(u64::MAX));
    assert_eq!(parse_u64("18446744073709551616"), None);
    assert_eq!(parse_u64(""), None);
    assert_eq!(parse_u64("+"), None);
    assert_eq!(parse_u64("-1"), None);
    assert_eq!(parse_u64("1 "), None);
    for s in ["0", "007", "+42", "18446744073709551616", "", "+", "-1", "9x"] {
        assert_eq!(parse_u64(s), s.parse::<u64>().ok());
    }
}

#[test]
fn catcher_bodies() {
    assert_eq!(not_auth(), "failed, not authorized");
    assert_eq!(not_found(), "not found");
    assert_eq!(bad_req(), "failed, bad request");
    assert_eq!(too_big(), "failed, file too large");
}
