use music_player_backend::cloud::{
    decide_startup, new_session_expiries, resolve_validation, AuthSessionState, CloudSessionMetadata, CloudUser,
    RemoteSessionMetadata, SessionExpiredReason, StartupDecision, ValidationOutcome,
};
use music_player_backend::commands::{
    api_url, is_connected, is_restorable, judge_reply, required_text, session_lapse, validate_login,
    validate_signup, ReplyFailure,
};
use music_player_backend::error::AppError;
use music_player_backend::user::{
    check_new_account, hash_password, salt_from_uuid, verify_password, UserProfile, UserRecord,
};

fn validation_message(e: AppError) -> String {
    match e {
        AppError::Validation(m) => m,
        other => panic!("expected a validation error, got {:?}", other),
    }
}

#[test]
fn password_hash_is_salted_sha256_hex() {
    let h = hash_password("secret", "abc");
    assert_eq!(h, "abc:087aee4ed14a8c61569c2884f92907e7c0081b34aedbfce80ba5e4fda9004d84");
    assert!(verify_password("secret", &h));
    assert!(!verify_password("Secret", &h));
}

#[test]
fn stored_hash_must_have_two_parts() {
    assert!(!verify_password("secret", "no-colon-here"));
    assert!(!verify_password("secret", "a:b:c"));
    let h = hash_password("pw", "a:b");
    assert!(!verify_password("pw", &h));
}

#[test]
fn hash_round_trip_for_uuid_salts() {
    let salt = salt_from_uuid("123e4567-e89b-12d3-a456-426614174000");
    assert_eq!(salt, "123e4567e89b12d3a456426614174000");
    for pw in ["", "pässwörd", "with:colon"] {
        assert!(verify_password(pw, &hash_password(pw, &salt)));
    }
}

#[test]
fn new_local_accounts_are_checked() {
    assert_eq!(check_new_account("  kato ", "abc").unwrap(), "kato");
    assert_eq!(validation_message(check_new_account("   ", "abcdef").unwrap_err()), "Username cannot be empty");
    assert_eq!(
        validation_message(check_new_account("kato", "ab").unwrap_err()),
        "Password must be at least 3 characters"
    );
    assert!(check_new_account("kato", "äb").is_ok());
}

#[test]
fn profiles() {
    let p = UserProfile::new("u1".to_string(), "kato".to_string(), 5);
    assert!(p.avatar_url.is_none());
    let q = p.with_avatar(Some("K".to_string()), None, None, Some("http://a".to_string()), Some(2), None, None);
    assert_eq!(q.id, "u1");
    assert_eq!(q.display_name.as_deref(), Some("K"));
    assert_eq!(q.avatar_version, Some(2));
    let r = UserRecord {
        id: "u2".to_string(),
        username: "x".to_string(),
        password_hash: "h".to_string(),
        created_at: 1,
        display_name: None,
        avatar_key: Some("k".to_string()),
        avatar_public_id: None,
        avatar_url: None,
        avatar_version: None,
        avatar_updated_at: Some(9),
    };
    let from = UserProfile::from_record(r);
    assert_eq!(from.avatar_key.as_deref(), Some("k"));
    assert_eq!(from.avatar_updated_at, Some(9));
    assert!(from.avatar_data_url.is_none());
}

#[test]
fn error_messages() {
    assert_eq!(AppError::Validation("x".to_string()).message(), "Validation error: x");
    assert_eq!(AppError::NotFound("t".to_string()).message(), "Entity not found: t");
    assert_eq!(
        AppError::ExternalApi { provider: "spotify".to_string(), message: "m".to_string() }.message(),
        "External API error (spotify): m"
    );
    assert_eq!(AppError::Metadata("q".to_string()).message(), "Metadata provider error: q");
}

#[test]
fn signup_and_login_checks() {
    assert_eq!(validate_signup(" kato_1 ", "password1").unwrap(), "kato_1");
    assert_eq!(validation_message(validate_signup(" ", "password1").unwrap_err()), "Username cannot be empty");
    assert_eq!(
        validation_message(validate_signup("ab", "password1").unwrap_err()),
        "Username must be between 3 and 50 characters"
    );
    assert_eq!(
        validation_message(validate_signup("bad name", "password1").unwrap_err()),
        "Username can only contain alphanumeric characters, underscores, hyphens, and dots"
    );
    assert_eq!(
        validation_message(validate_signup("kato", "short").unwrap_err()),
        "Password must be between 8 and 128 characters"
    );
    assert!(validate_signup("Ünïcödé", "password1").is_ok());
    assert_eq!(validate_login(" kato ", "x").unwrap(), "kato");
    assert_eq!(validation_message(validate_login("kato", "").unwrap_err()), "Password cannot be empty");
    assert_eq!(required_text("  url ", "Server URL cannot be empty").unwrap(), "url");
    assert_eq!(
        validation_message(required_text(" ", "Server URL cannot be empty").unwrap_err()),
        "Server URL cannot be empty"
    );
}

fn session(idle: i64, absolute: i64, url: &str) -> CloudSessionMetadata {
    CloudSessionMetadata {
        user_id: "u".to_string(),
        username: "kato".to_string(),
        session_id: "s".to_string(),
        device_id: "d".to_string(),
        device_name: "Linux Desktop".to_string(),
        idle_expires_at: idle,
        absolute_expires_at: absolute,
        last_cloud_validation_at: None,
        worker_url: url.to_string(),
        synced_at: None,
        authenticated_before: 1,
        created_at: 3,
    }
}

#[test]
fn session_lifetimes() {
    let s = session(100, 200, "https://w");
    assert_eq!(session_lapse(&s, 50), None);
    assert_eq!(session_lapse(&s, 100), Some(SessionExpiredReason::IdleTimeout));
    assert_eq!(session_lapse(&s, 250), Some(SessionExpiredReason::AbsoluteTimeout));
    assert_eq!(session_lapse(&session(0, 0, "w"), 1_000_000), None);
    assert!(is_restorable(&s, 50, "https://w", true));
    assert!(!is_restorable(&s, 50, "https://other", true));
    assert!(!is_restorable(&s, 50, "https://w", false));
    assert!(!is_restorable(&s, 150, "https://w", true));
    assert!(!is_connected(true, &AuthSessionState::SignedOut));
    assert!(!is_connected(true, &AuthSessionState::SessionExpired { reason: SessionExpiredReason::Revoked }));
    assert!(is_connected(true, &AuthSessionState::CloudUnavailable));
    assert!(!is_connected(false, &AuthSessionState::CloudUnavailable));
}

#[test]
fn startup_and_validation_decisions() {
    let s = session(100, 200, "https://w");
    assert_eq!(decide_startup(&s, false, "https://w", 0), StartupDecision::Reset);
    assert_eq!(decide_startup(&s, true, "https://x", 0), StartupDecision::Reset);
    assert_eq!(
        decide_startup(&s, true, "https://w", 300),
        StartupDecision::Expire(SessionExpiredReason::AbsoluteTimeout)
    );
    assert_eq!(
        decide_startup(&s, true, "https://w", 150),
        StartupDecision::Expire(SessionExpiredReason::IdleTimeout)
    );
    assert_eq!(decide_startup(&s, true, "https://w", 10), StartupDecision::Validate);
    match resolve_validation(&s, ValidationOutcome::Unreachable) {
        AuthSessionState::OfflineAuthenticated { user, session_id } => {
            assert_eq!(user.username, "kato");
            assert_eq!(session_id, "s");
        }
        other => panic!("unexpected {:?}", other),
    }
    assert!(matches!(
        resolve_validation(&s, ValidationOutcome::Rejected),
        AuthSessionState::SessionExpired { reason: SessionExpiredReason::Revoked }
    ));
    assert!(matches!(resolve_validation(&s, ValidationOutcome::Failed), AuthSessionState::SignedOut));
    let mut never = session(100, 200, "https://w");
    never.authenticated_before = 0;
    assert!(matches!(resolve_validation(&never, ValidationOutcome::Unreachable), AuthSessionState::CloudUnavailable));
    let u = CloudUser {
        id: "u".to_string(),
        username: "kato".to_string(),
        created_at: 3,
        display_name: None,
        has_avatar: None,
        avatar_public_id: None,
        avatar_url: None,
        avatar_version: None,
        avatar_key: None,
        avatar_updated_at: None,
    };
    assert!(matches!(
        resolve_validation(&s, ValidationOutcome::Confirmed(u)),
        AuthSessionState::OnlineAuthenticated { .. }
    ));
}

#[test]
fn expiries_of_new_sessions() {
    assert_eq!(new_session_expiries(&None, 1000), (1000 + 30 * 86400, 1000 + 90 * 86400));
    let meta = RemoteSessionMetadata {
        id: "s".to_string(),
        device_id: "d".to_string(),
        device_name: "n".to_string(),
        client_version: None,
        created_at: None,
        idle_expires_at: 5,
        absolute_expires_at: 6,
    };
    assert_eq!(new_session_expiries(&Some(meta), 1000), (5, 6));
}

#[test]
fn cloud_replies() {
    assert_eq!(api_url("https://w//", "/api/sync"), "https://w/api/sync");
    assert_eq!(api_url("https://w", "/api/sync"), "https://w/api/sync");
    assert!(judge_reply(true, None, 500, "x").is_none());
    match judge_reply(false, None, 401, "Login failed") {
        Some(ReplyFailure::Rejected(m)) => assert_eq!(m, "Login failed"),
        other => panic!("unexpected {:?}", other),
    }
    match judge_reply(false, Some("down".to_string()), 503, "Login failed") {
        Some(ReplyFailure::Unavailable(m)) => assert_eq!(m, "down"),
        other => panic!("unexpected {:?}", other),
    }
}
