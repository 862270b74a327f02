use webserver::tls::{
    accept_decision, server_policy, version_permitted, AcceptorAction, HandshakeEvent,
    TLS1_2_VERSION, TLS1_3_VERSION,
};

#[test]
fn policy_floor_is_tls13_without_session_cache() {
    let policy = server_policy();
    assert_eq!(policy.min_version, TLS1_3_VERSION);
    assert_eq!(policy.min_version, 0x0304);
    assert!(!policy.session_cache_enabled);
}

#[test]
fn tls12_and_older_are_rejected() {
    let policy = server_policy();
    assert!(!version_permitted(&policy, TLS1_2_VERSION));
    assert!(!version_permitted(&policy, 0x0302));
    assert!(!version_permitted(&policy, 0x0301));
}

#[test]
fn tls13_and_newer_are_accepted() {
    let policy = server_policy();
    assert!(version_permitted(&policy, TLS1_3_VERSION));
    assert!(version_permitted(&policy, 0x0305));
}

#[test]
fn failed_handshake_only_drops_its_connection() {
    let a = accept_decision(&HandshakeEvent::Failed);
    assert!(matches!(a, AcceptorAction::DiscardAndContinue));
}

#[test]
fn completed_handshake_is_served() {
    let a = accept_decision(&HandshakeEvent::Established);
    assert!(matches!(a, AcceptorAction::Serve));
}
