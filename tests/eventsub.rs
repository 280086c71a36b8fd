use pepo::eventsub::{
    recovery_for, CallOutcome, ChatRequest, EventSubManager, Frame, FrameAction, Recovery,
    SessionData, SessionError, SubscriptionKind, TransportEvent, WireMessage,
};

const WELCOME: &str = r#"{
    "metadata": {
        "message_id": "96a3f3b5-5dec-4eed-908e-e11ee657416c",
        "message_type": "session_welcome",
        "message_timestamp": "2022-10-19T14:56:51.634234626Z"
    },
    "payload": {
        "session": {
            "id": "AQoQILE98gtqShGmLD7AM6yJThAB",
            "status": "connected",
            "connected_at": "2022-10-19T14:56:51.616329898Z",
            "keepalive_timeout_seconds": 10,
            "reconnect_url": null,
            "recovery_url": null
        }
    }
}"#;

const KEEPALIVE: &str = r#"{
    "metadata": {
        "message_id": "8d8e0935-0e0c-479a-8fa2-ad4c02cef742",
        "message_type": "session_keepalive",
        "message_timestamp": "2022-11-04T13:11:49.770459792Z"
    },
    "payload": {}
}"#;

fn follow_notification(message_id: &str, ts: &str) -> String {
    format!(
        r#"{{
    "metadata": {{
        "message_id": "{message_id}",
        "message_type": "notification",
        "message_timestamp": "{ts}",
        "subscription_type": "channel.follow",
        "subscription_version": "1"
    }},
    "payload": {{
        "subscription": {{
            "id": "f1c2a387-161a-49f9-a165-0f21d7a4e1c4",
            "status": "enabled",
            "type": "channel.follow",
            "version": "1",
            "cost": 1,
            "condition": {{ "broadcaster_user_id": "12826" }},
            "transport": {{ "method": "websocket", "session_id": "AQoQexAWVYKSTIu4ec_2VAxyuhAB" }},
            "created_at": "2019-11-16T10:11:12.123Z"
        }},
        "event": {{
            "user_id": "1337",
            "user_login": "awesome_user",
            "user_name": "Awesome_User",
            "broadcaster_user_id": "12826",
            "broadcaster_user_login": "twitch",
            "broadcaster_user_name": "Twitch",
            "followed_at": "2020-07-15T18:16:11.17106713Z"
        }}
    }}
}}"#
    )
}

const REVOCATION: &str = r#"{
    "metadata": {
        "message_id": "84c1e79a-2a4b-4c13-ba0b-4312293e9308",
        "message_type": "revocation",
        "message_timestamp": "2019-11-16T10:11:12.123Z",
        "subscription_type": "channel.follow",
        "subscription_version": "1"
    },
    "payload": {
        "subscription": {
            "id": "f1c2a387-161a-49f9-a165-0f21d7a4e1c4",
            "status": "authorization_revoked",
            "type": "channel.follow",
            "version": "1",
            "cost": 1,
            "condition": { "broadcaster_user_id": "12826" },
            "transport": { "method": "websocket", "session_id": "AQoQexAWVYKSTIu4ec_2VAxyuhAB" },
            "created_at": "2019-11-16T10:11:12.123Z"
        }
    }
}"#;

fn welcome_frame(id: &str, url: Option<&str>) -> Frame {
    Frame::Session(SessionData {
        id: id.to_string(),
        reconnect_url: url.map(|u| u.to_string()),
    })
}

/// A manager with session "sess" whose baseline subscription was created.
fn live_manager() -> EventSubManager {
    let mut m = EventSubManager::new();
    match m.process_frame(welcome_frame("sess", None), "42".to_string()) {
        FrameAction::Subscribe(req) => {
            let created = CallOutcome::Created {
                id: "B1".to_string(),
                sub_type: "user.update".to_string(),
            };
            assert!(m.complete_baseline(req, created).is_ok());
        }
        other => panic!("expected the baseline subscription, got {other:?}"),
    }
    m
}

fn created(id: &str, sub_type: &str) -> CallOutcome {
    CallOutcome::Created { id: id.to_string(), sub_type: sub_type.to_string() }
}

/// Runs a join of "abc" to its end, answering the subscribes with `ids`;
/// returns the number of calls made.
fn join_abc(m: &mut EventSubManager, ids: &[&str]) -> usize {
    let mut op = m
        .join_chat("12826".to_string(), "abc".to_string(), "42".to_string())
        .expect("session is set");
    let mut calls = 0;
    while let Some(req) = op.next_call() {
        assert!(matches!(req, ChatRequest::Subscribe { .. }));
        let outcome = created(ids[calls], "channel.chat.message");
        calls += 1;
        m.complete_call(&mut op, outcome).unwrap();
    }
    calls
}

/// Runs a leave of "abc" to its end; returns the ids that were cancelled.
fn leave_abc(m: &mut EventSubManager) -> Vec<String> {
    let mut op = m.leave_chat("abc".to_string()).expect("session is set");
    let mut cancelled = Vec::new();
    while let Some(req) = op.next_call() {
        match req {
            ChatRequest::Cancel { id } => cancelled.push(id),
            other => panic!("unexpected request {other:?}"),
        }
        m.complete_call(&mut op, CallOutcome::Deleted).unwrap();
    }
    cancelled
}

#[test]
fn new_manager_uses_default_endpoint() {
    let m = EventSubManager::new();
    assert_eq!(m.connect_url(), "wss://eventsub.wss.twitch.tv/ws");
    assert_eq!(m.session_id(), "");
    assert!(m.subscriptions().is_empty());
}

#[test]
fn join_without_session_fails_and_calls_nothing() {
    let m = EventSubManager::new();
    let r = m.join_chat("12826".to_string(), "abc".to_string(), "42".to_string());
    assert!(matches!(r, Err(SessionError::NoSession)));
    assert!(!m.has_subscription(&"abc".to_string()));
}

#[test]
fn leave_without_session_makes_no_call() {
    let m = EventSubManager::new();
    let op = m.leave_chat("abc".to_string()).unwrap();
    assert!(op.next_call().is_none());
    assert!(op.is_finished());
}

#[test]
fn join_requests_message_then_notification() {
    let m = live_manager();
    let op = m
        .join_chat("12826".to_string(), "abc".to_string(), "42".to_string())
        .unwrap();
    match op.next_call() {
        Some(ChatRequest::Subscribe { kind, broadcaster_id, user_id, session_id }) => {
            assert_eq!(kind, SubscriptionKind::ChatMessage);
            assert_eq!(broadcaster_id, "12826");
            assert_eq!(user_id, "42");
            assert_eq!(session_id, "sess");
        }
        other => panic!("unexpected {other:?}"),
    }
}

#[test]
fn leave_after_two_subscriptions_cancels_both() {
    let mut m = live_manager();
    let mut op = m
        .join_chat("12826".to_string(), "abc".to_string(), "42".to_string())
        .unwrap();
    m.complete_call(&mut op, created("S1", "channel.chat.message")).unwrap();
    m.complete_call(&mut op, created("S2", "channel.chat.notification")).unwrap();
    assert!(op.next_call().is_none());
    assert!(m.has_subscription(&"abc".to_string()));
    assert_eq!(m.subscriptions().len(), 2);

    let cancelled = leave_abc(&mut m);
    assert_eq!(cancelled, vec!["S1".to_string(), "S2".to_string()]);
    assert!(!m.has_subscription(&"abc".to_string()));
}

#[test]
fn join_twice_makes_one_pair_of_calls() {
    let mut m = live_manager();
    assert_eq!(join_abc(&mut m, &["S1", "S2"]), 2);
    assert_eq!(join_abc(&mut m, &["S3", "S4"]), 0);
    assert_eq!(m.subscriptions().len(), 2);
}

#[test]
fn leave_when_not_joined_makes_no_call() {
    let mut m = live_manager();
    assert!(leave_abc(&mut m).is_empty());
    assert!(!m.has_subscription(&"abc".to_string()));
}

#[test]
fn join_leave_sequence_net_effect() {
    let mut m = live_manager();
    let c = "abc".to_string();
    join_abc(&mut m, &["S1", "S2"]);
    assert!(m.has_subscription(&c));
    leave_abc(&mut m);
    assert!(!m.has_subscription(&c));
    leave_abc(&mut m);
    assert!(!m.has_subscription(&c));
    join_abc(&mut m, &["S3", "S4"]);
    join_abc(&mut m, &["S5", "S6"]);
    assert!(m.has_subscription(&c));
}

#[test]
fn failed_second_subscribe_keeps_first_record() {
    let mut m = live_manager();
    let mut op = m
        .join_chat("12826".to_string(), "abc".to_string(), "42".to_string())
        .unwrap();
    m.complete_call(&mut op, created("S1", "channel.chat.message")).unwrap();
    let r = m.complete_call(&mut op, CallOutcome::Failed { reason: "quota".to_string() });
    match r {
        Err(SessionError::RequestFailed { request, reason }) => {
            assert_eq!(reason, "quota");
            assert!(matches!(
                request,
                ChatRequest::Subscribe { kind: SubscriptionKind::ChatNotification, .. }
            ));
        }
        other => panic!("unexpected {other:?}"),
    }
    assert!(op.is_finished());
    assert!(op.next_call().is_none());
    assert!(m.has_subscription(&"abc".to_string()));
    assert_eq!(m.subscriptions().len(), 1);
    assert_eq!(m.subscriptions()[0].id, "S1");
}

#[test]
fn failed_cancel_keeps_every_record() {
    let mut m = live_manager();
    join_abc(&mut m, &["S1", "S2"]);
    let mut op = m.leave_chat("abc".to_string()).unwrap();
    m.complete_call(&mut op, CallOutcome::Deleted).unwrap();
    let r = m.complete_call(&mut op, CallOutcome::Failed { reason: "down".to_string() });
    assert!(matches!(r, Err(SessionError::RequestFailed { .. })));
    assert_eq!(m.subscriptions().len(), 2);
    assert_eq!(leave_abc(&mut m), vec!["S1".to_string(), "S2".to_string()]);
    assert!(!m.has_subscription(&"abc".to_string()));
}

#[test]
fn mismatched_outcome_is_reported() {
    let mut m = live_manager();
    let mut op = m
        .join_chat("12826".to_string(), "abc".to_string(), "42".to_string())
        .unwrap();
    let r = m.complete_call(&mut op, CallOutcome::Deleted);
    assert!(matches!(r, Err(SessionError::UnexpectedOutcome { .. })));
    assert!(!m.has_subscription(&"abc".to_string()));
}

#[test]
fn equal_record_is_kept_once() {
    let mut m = live_manager();
    join_abc(&mut m, &["S1", "S1"]);
    assert_eq!(m.subscriptions().len(), 1);
}

#[test]
fn first_welcome_asks_for_baseline_only_once() {
    let mut m = EventSubManager::new();
    let a = m.process_frame(welcome_frame("s1", Some("wss://elsewhere/ws")), "42".to_string());
    match a {
        FrameAction::Subscribe(ChatRequest::Subscribe { kind, broadcaster_id, user_id, session_id }) => {
            assert_eq!(kind, SubscriptionKind::UserUpdate);
            assert_eq!(broadcaster_id, "42");
            assert_eq!(user_id, "42");
            assert_eq!(session_id, "s1");
        }
        other => panic!("unexpected {other:?}"),
    }
    assert_eq!(m.session_id(), "s1");
    assert_eq!(m.connect_url(), "wss://elsewhere/ws");
    let req = ChatRequest::Subscribe {
        kind: SubscriptionKind::UserUpdate,
        broadcaster_id: "42".to_string(),
        user_id: "42".to_string(),
        session_id: "s1".to_string(),
    };
    m.complete_baseline(req, created("B", "user.update")).unwrap();
    let b = m.process_frame(welcome_frame("s2", None), "42".to_string());
    assert!(matches!(b, FrameAction::Continue));
    assert_eq!(m.session_id(), "s2");
    assert_eq!(m.connect_url(), "wss://elsewhere/ws");
}

#[test]
fn failed_baseline_is_asked_again() {
    let mut m = EventSubManager::new();
    let req = match m.process_frame(welcome_frame("s1", None), "42".to_string()) {
        FrameAction::Subscribe(req) => req,
        other => panic!("unexpected {other:?}"),
    };
    let r = m.complete_baseline(req, CallOutcome::Failed { reason: "401".to_string() });
    assert!(matches!(r, Err(SessionError::RequestFailed { .. })));
    let again = m.process_frame(welcome_frame("s2", None), "42".to_string());
    assert!(matches!(again, FrameAction::Subscribe(_)));
}

#[test]
fn welcome_text_sets_session() {
    let mut m = EventSubManager::new();
    let a = m.process_message(WireMessage::Text(WELCOME.to_string()), "42".to_string());
    assert!(matches!(a, FrameAction::Subscribe(_)));
    assert_eq!(m.session_id(), "AQoQILE98gtqShGmLD7AM6yJThAB");
    assert_eq!(m.connect_url(), "wss://eventsub.wss.twitch.tv/ws");
}

#[test]
fn notifications_delivered_in_order() {
    let mut m = live_manager();
    let n1 = follow_notification("n1", "2020-01-01T00:00:01Z");
    let n2 = follow_notification("n2", "2020-01-01T00:00:02Z");
    let mut seen = Vec::new();
    match m.process_message(WireMessage::Text(n1), "42".to_string()) {
        FrameAction::Deliver(n) => seen.push(n.ts),
        other => panic!("unexpected {other:?}"),
    }
    join_abc(&mut m, &["S1", "S2"]);
    match m.process_message(WireMessage::Text(n2), "42".to_string()) {
        FrameAction::Deliver(n) => seen.push(n.ts),
        other => panic!("unexpected {other:?}"),
    }
    assert_eq!(seen, vec!["2020-01-01T00:00:01Z".to_string(), "2020-01-01T00:00:02Z".to_string()]);
}

#[test]
fn reset_redials_at_once_and_delivery_resumes() {
    assert_eq!(recovery_for(TransportEvent::ResetWithoutClose), Recovery::RedialNow);
    let mut m = live_manager();
    let n = follow_notification("n3", "2020-01-01T00:00:03Z");
    assert!(matches!(
        m.process_message(WireMessage::Text(n), "42".to_string()),
        FrameAction::Deliver(_)
    ));
}

#[test]
fn other_transport_ends_wait_for_backoff() {
    for e in [TransportEvent::DialFailed, TransportEvent::Failed, TransportEvent::Ended] {
        assert_eq!(recovery_for(e), Recovery::RedialAfter { secs: 10 });
    }
}

#[test]
fn keepalive_and_other_messages_continue() {
    let mut m = live_manager();
    assert!(matches!(
        m.process_message(WireMessage::Text(KEEPALIVE.to_string()), "42".to_string()),
        FrameAction::Continue
    ));
    assert!(matches!(m.process_message(WireMessage::Other, "42".to_string()), FrameAction::Continue));
    assert_eq!(m.session_id(), "sess");
}

#[test]
fn close_and_bad_text_abort() {
    let mut m = live_manager();
    assert!(matches!(
        m.process_message(WireMessage::Close, "42".to_string()),
        FrameAction::Abort(SessionError::ConnectionClosed)
    ));
    assert!(matches!(
        m.process_message(WireMessage::Text("not json".to_string()), "42".to_string()),
        FrameAction::Abort(SessionError::MalformedFrame { .. })
    ));
    assert_eq!(m.session_id(), "sess");
}

#[test]
fn revocation_aborts_with_its_type() {
    let mut m = live_manager();
    match m.process_message(WireMessage::Text(REVOCATION.to_string()), "42".to_string()) {
        FrameAction::Abort(SessionError::Revoked { sub_type }) => assert_eq!(sub_type, "channel.follow"),
        other => panic!("unexpected {other:?}"),
    }
}
