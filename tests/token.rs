use pepo::token::{AuthError, ManageAction, ManageEvent, StoredCredential, TokenManager};
use pepo::types::{AuthPhase, AuthState, UserToken};

fn token(access: &str, expires_in: u64) -> UserToken {
    UserToken {
        access_token: access.to_string(),
        client_id: "client".to_string(),
        login: "someone".to_string(),
        user_id: "42".to_string(),
        refresh_token: Some("refresh".to_string()),
        expires_in,
    }
}

#[test]
fn refresh_below_margin_happens_once() {
    let mut t = TokenManager::from_existing(token("old", 530), 0);
    assert_eq!(t.expires_in(30), 500);
    assert!(matches!(t.manage(ManageEvent::Tick { now: 30 }), ManageAction::Refresh));
    let refreshed = ManageEvent::Refreshed { at: 31, result: Ok(token("new", 14000)) };
    match t.manage(refreshed) {
        ManageAction::Notify(n) => assert_eq!(n.access_token, "new"),
        other => panic!("unexpected {other:?}"),
    }
    assert!(matches!(t.manage(ManageEvent::Notified), ManageAction::Sleep { secs: 30 }));
    assert_eq!(t.get_token().unwrap().access_token, "new");
    assert_eq!(t.expires_in(61), 13970);
    assert!(matches!(t.manage(ManageEvent::Tick { now: 61 }), ManageAction::Sleep { secs: 30 }));
}

#[test]
fn validity_decays_until_refresh() {
    let mut t = TokenManager::from_existing(token("a", 700), 0);
    assert!(matches!(t.manage(ManageEvent::Tick { now: 30 }), ManageAction::Sleep { secs: 30 }));
    assert!(matches!(t.manage(ManageEvent::Tick { now: 100 }), ManageAction::Sleep { secs: 30 }));
    assert!(matches!(t.manage(ManageEvent::Tick { now: 101 }), ManageAction::Refresh));
    assert_eq!(t.expires_in(2000), 0);
}

#[test]
fn no_refresh_at_margin() {
    let mut t = TokenManager::from_existing(token("a", 630), 0);
    assert!(matches!(t.manage(ManageEvent::Tick { now: 30 }), ManageAction::Sleep { secs: 30 }));
}

#[test]
fn validation_every_five_minutes_then_refresh() {
    let mut t = TokenManager::from_existing(token("a", 9000), 0);
    assert!(matches!(t.manage(ManageEvent::Tick { now: 300 }), ManageAction::Sleep { secs: 30 }));
    assert!(matches!(t.manage(ManageEvent::Tick { now: 301 }), ManageAction::Validate));
    // The platform reports less validity than the credential claimed.
    assert!(matches!(t.manage(ManageEvent::Validated(Ok(Some(400)))), ManageAction::Refresh));
    assert_eq!(t.expires_in(301), 400);
}

#[test]
fn validation_without_reported_validity_keeps_decay() {
    let mut t = TokenManager::from_existing(token("a", 1000), 0);
    assert!(matches!(t.manage(ManageEvent::Tick { now: 301 }), ManageAction::Validate));
    assert!(matches!(t.manage(ManageEvent::Validated(Ok(None))), ManageAction::Sleep { secs: 30 }));
    assert!(matches!(t.manage(ManageEvent::Tick { now: 401 }), ManageAction::Refresh));
}

#[test]
fn validation_failure_is_fatal() {
    let mut t = TokenManager::from_existing(token("a", 9000), 0);
    assert!(matches!(t.manage(ManageEvent::Tick { now: 330 }), ManageAction::Validate));
    match t.manage(ManageEvent::Validated(Err("invalid token".to_string()))) {
        ManageAction::Fatal(AuthError::ValidationFailed { reason }) => assert_eq!(reason, "invalid token"),
        other => panic!("unexpected {other:?}"),
    }
    assert!(matches!(t.manage(ManageEvent::Tick { now: 360 }), ManageAction::Stop));
}

#[test]
fn refresh_failure_is_fatal() {
    let mut t = TokenManager::from_existing(token("a", 10), 0);
    assert!(matches!(t.manage(ManageEvent::Tick { now: 30 }), ManageAction::Refresh));
    assert!(matches!(
        t.manage(ManageEvent::Refreshed { at: 31, result: Err("bad refresh".to_string()) }),
        ManageAction::Fatal(AuthError::RefreshFailed { .. })
    ));
    assert!(matches!(t.manage(ManageEvent::Notified), ManageAction::Stop));
}

#[test]
fn no_credential_only_sleeps() {
    let mut t = TokenManager::new(0);
    assert!(matches!(t.manage(ManageEvent::Tick { now: 900 }), ManageAction::Sleep { secs: 30 }));
    assert_eq!(t.expires_in(900), 0);
    t.finish_device_code_flow(token("fresh", 100), 900);
    assert_eq!(t.get_token().unwrap().access_token, "fresh");
    assert!(matches!(t.manage(ManageEvent::Tick { now: 930 }), ManageAction::Refresh));
}

#[test]
fn stop_ends_the_loop() {
    let mut t = TokenManager::from_existing(token("a", 9000), 0);
    assert!(matches!(t.manage(ManageEvent::Stop), ManageAction::Stop));
    assert!(matches!(t.manage(ManageEvent::Tick { now: 30 }), ManageAction::Stop));
}

#[test]
fn startup_keeps_only_accepted_credential() {
    let t = TokenManager::at_startup(StoredCredential::Accepted(token("kept", 900)), 5);
    assert!(!t.needs_acquire());
    assert_eq!(t.get_token().unwrap().access_token, "kept");
    assert!(TokenManager::at_startup(StoredCredential::Rejected, 5).needs_acquire());
    assert!(TokenManager::at_startup(StoredCredential::Missing, 5).needs_acquire());
}

#[test]
fn auth_state_transitions() {
    let mut s = AuthState::new();
    assert_eq!(s.phase, AuthPhase::Unauthorized);
    s.waiting_for_auth("ABCD-EFGH".to_string());
    assert_eq!(s.phase, AuthPhase::WaitingForAuth);
    assert_eq!(s.device_code, "ABCD-EFGH");
    s.authorized(token("t", 100));
    assert_eq!(s.phase, AuthPhase::Authorized);
    assert_eq!(s.token.as_ref().unwrap().access_token, "t");
    s.needs_reauthorization();
    assert_eq!(s.phase, AuthPhase::FailedAuth);
    assert!(s.token.is_none());
}

#[test]
fn token_valid_needs_credential_and_acceptance() {
    let t = TokenManager::from_existing(token("a", 100), 0);
    assert!(t.is_token_valid(true));
    assert!(!t.is_token_valid(false));
    assert!(!TokenManager::new(0).is_token_valid(true));
}
