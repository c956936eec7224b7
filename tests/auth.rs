use counter_ledger::auth::{
    auth_status, authorize, check_message_content, contains_text, verify_message_content, verify_signature, AuthError,
};

const MESSAGE: &str = "Sign in\nAction: EMIT_TRANSACTION\nAccount: 0xabc\n";

#[test]
fn signature_shape() {
    assert_eq!(verify_signature("a", "m", "0x12"), Err(AuthError::SignatureTooShort));
    assert_eq!(verify_signature("a", "m", "1234567890ab"), Err(AuthError::InvalidSignatureFormat));
    assert_eq!(verify_signature("a", "m", "0X34567890ab"), Err(AuthError::InvalidSignatureFormat));
    assert_eq!(verify_signature("a", "m", "0x34567890"), Ok(()));
    assert_eq!(auth_status(&AuthError::SignatureTooShort), 401);
    assert_eq!(auth_status(&AuthError::MissingAction), 400);
}

#[test]
fn text_search() {
    assert!(contains_text(MESSAGE, "Action: ", "EMIT_TRANSACTION"));
    assert!(!contains_text(MESSAGE, "Action: ", "emit_transaction"));
    assert!(contains_text("ab", "", ""));
    assert!(!contains_text("ab", "abc", ""));
    assert!(contains_text("xxAccount: é1", "Account: ", "é1"));
}

#[test]
fn message_content_rules() {
    let now = (1_000_000i64, 0u32);
    let ok = check_message_content(MESSAGE, "EMIT_TRANSACTION", "0xabc", Some((1_000_000 - 300, 0)), now);
    assert_eq!(ok, Ok(()));
    assert_eq!(
        check_message_content(MESSAGE, "OTHER", "0xabc", Some(now), now),
        Err(AuthError::MissingAction)
    );
    assert_eq!(
        check_message_content(MESSAGE, "EMIT_TRANSACTION", "0xdef", Some(now), now),
        Err(AuthError::MissingAccount)
    );
    assert_eq!(
        check_message_content(MESSAGE, "EMIT_TRANSACTION", "0xabc", None, now),
        Err(AuthError::InvalidTimestamp)
    );
    // Five whole minutes and 59.9 seconds is still five whole minutes.
    assert_eq!(
        check_message_content(MESSAGE, "EMIT_TRANSACTION", "0xabc", Some((1_000_000 - 360, 100)), now),
        Ok(())
    );
    assert_eq!(
        check_message_content(MESSAGE, "EMIT_TRANSACTION", "0xabc", Some((1_000_000 - 360, 0)), now),
        Err(AuthError::TimestampTooOld)
    );
    assert_eq!(
        check_message_content(MESSAGE, "EMIT_TRANSACTION", "0xabc", Some((1_000_000 + 119, 999_999_999)), now),
        Ok(())
    );
    assert_eq!(
        check_message_content(MESSAGE, "EMIT_TRANSACTION", "0xabc", Some((1_000_000 + 120, 0)), now),
        Err(AuthError::TimestampInFuture)
    );
}

fn clock() -> (i64, u32) {
    let t = chrono::Utc::now();
    (t.timestamp(), t.timestamp_subsec_nanos())
}

#[test]
fn message_content_against_the_clock() {
    // The action is written in upper case in the message.
    let now = clock();
    let stale = verify_message_content(MESSAGE, "emit_transaction", "0xabc", "2001-01-01T00:00:00Z", now);
    assert_eq!(stale, Err(AuthError::TimestampTooOld));
    let future = verify_message_content(MESSAGE, "emit_transaction", "0xabc", "2999-01-01T00:00:00+02:00", now);
    assert_eq!(future, Err(AuthError::TimestampInFuture));
    let bad = verify_message_content(MESSAGE, "emit_transaction", "0xabc", "yesterday", now);
    assert_eq!(bad, Err(AuthError::InvalidTimestamp));
    let stamp = chrono::Utc::now().to_rfc3339();
    let now = clock();
    assert_eq!(verify_message_content(MESSAGE, "emit_transaction", "0xabc", &stamp, now), Ok(()));
    assert_eq!(authorize("0xabc", "0x1234567890", MESSAGE, &stamp, now), Ok(()));
    assert_eq!(authorize("0xabc", "0x12", MESSAGE, &stamp, now), Err(AuthError::SignatureTooShort));
    assert_eq!(authorize("0xdef", "0x1234567890", MESSAGE, &stamp, now), Err(AuthError::MissingAccount));
    assert_eq!(AuthError::TimestampTooOld.message(), "Message timestamp is too old");
}

#[test]
fn message_content_at_a_fixed_time() {
    // 2001-01-01T00:00:00Z is 978307200 seconds after the epoch.
    let at = |s: i64| (978_307_200i64 + s, 0u32);
    let stamp = "2001-01-01T01:00:00+01:00";
    assert_eq!(verify_message_content(MESSAGE, "emit_transaction", "0xabc", stamp, at(0)), Ok(()));
    assert_eq!(verify_message_content(MESSAGE, "emit_transaction", "0xabc", stamp, at(359)), Ok(()));
    assert_eq!(
        verify_message_content(MESSAGE, "emit_transaction", "0xabc", stamp, at(360)),
        Err(AuthError::TimestampTooOld)
    );
    assert_eq!(
        verify_message_content(MESSAGE, "emit_transaction", "0xabc", stamp, at(-120)),
        Err(AuthError::TimestampInFuture)
    );
    assert_eq!(
        verify_message_content(MESSAGE, "other", "0xabc", stamp, at(0)),
        Err(AuthError::MissingAction)
    );
}
