use bridge::session::SessionRegistry;
use bridge::sink::RecordingSink;
use bridge::BridgeError;

#[test]
fn duplicate_add_fails_and_changes_nothing() {
    let mut registry: SessionRegistry<RecordingSink> = SessionRegistry::new();
    assert_eq!(registry.add(7, "alpha".to_owned()), Ok(()));
    assert_eq!(
        registry.add(7, "beta".to_owned()),
        Err(BridgeError::DuplicateSession)
    );
    // The original session is untouched by the failed add.
    assert_eq!(registry.peer_id_of(7).as_deref(), Some("alpha"));
}

#[test]
fn remove_after_add_succeeds_and_lookup_finds_nothing() {
    let mut registry: SessionRegistry<RecordingSink> = SessionRegistry::new();
    assert_eq!(registry.add(7, "alpha".to_owned()), Ok(()));
    let removed = registry.remove(7);
    assert!(removed.is_some());
    assert_eq!(removed.unwrap().peer_id(), "alpha");
    assert!(!registry.contains(7));
    assert_eq!(registry.peer_id_of(7), None);
    // Removing again is a benign no-op.
    assert!(registry.remove(7).is_none());
}

#[test]
fn queries_on_missing_sessions_return_absent() {
    let registry: SessionRegistry<RecordingSink> = SessionRegistry::new();
    assert!(!registry.contains(1));
    assert_eq!(registry.peer_id_of(1), None);
    assert_eq!(registry.current_round(1), None);
}

#[test]
fn sessions_are_independent() {
    let mut registry: SessionRegistry<RecordingSink> = SessionRegistry::new();
    assert_eq!(registry.add(1, "one".to_owned()), Ok(()));
    assert_eq!(registry.add(2, "two".to_owned()), Ok(()));
    registry.remove(1);
    assert!(registry.contains(2));
    assert_eq!(registry.peer_id_of(2).as_deref(), Some("two"));
}

#[test]
fn installing_a_second_sink_closes_the_first() {
    let mut registry: SessionRegistry<RecordingSink> = SessionRegistry::new();
    registry.add(1, "peer".to_owned()).unwrap();
    assert!(matches!(registry.install_sink(1, RecordingSink::new()), Ok(None)));
    registry.send_to_session(1, "early".to_owned()).unwrap();
    let replaced = registry.install_sink(1, RecordingSink::new()).unwrap();
    let first = replaced.expect("a sink was installed before");
    // The superseded sink got its close notification and nothing more.
    assert!(first.was_closed());
    assert_eq!(first.delivered_len(), 1);
    assert_eq!(first.delivered_at(0).as_str(), "early");
    // Later events reach only the new sink.
    registry.send_to_session(1, "late".to_owned()).unwrap();
    let entry = registry.remove(1).unwrap();
    let second = entry.close().expect("the new sink was installed");
    assert!(second.was_closed());
    assert_eq!(second.delivered_len(), 1);
    assert_eq!(second.delivered_at(0).as_str(), "late");
    assert_eq!(first.delivered_len(), 1);
}

#[test]
fn sending_to_unknown_or_sinkless_session_is_reported() {
    let mut registry: SessionRegistry<RecordingSink> = SessionRegistry::new();
    assert_eq!(
        registry.send_to_session(5, "ev".to_owned()),
        Err(BridgeError::SessionNotFound)
    );
    registry.add(5, "peer".to_owned()).unwrap();
    assert_eq!(
        registry.send_to_session(5, "ev".to_owned()),
        Err(BridgeError::SessionNotFound)
    );
}

#[test]
fn failed_delivery_is_reported_and_sink_stays_installed() {
    let mut registry: SessionRegistry<RecordingSink> = SessionRegistry::new();
    registry.add(3, "peer".to_owned()).unwrap();
    registry.install_sink(3, RecordingSink::new_rejecting()).unwrap();
    assert_eq!(
        registry.send_to_session(3, "one".to_owned()),
        Err(BridgeError::SinkInvocationFailed)
    );
    // The sink stays installed and keeps receiving.
    assert_eq!(
        registry.send_to_session(3, "two".to_owned()),
        Err(BridgeError::SinkInvocationFailed)
    );
    let sink = registry.remove(3).unwrap().close().unwrap();
    assert_eq!(sink.delivered_len(), 2);
    assert_eq!(sink.delivered_at(0).as_str(), "one");
    assert_eq!(sink.delivered_at(1).as_str(), "two");
}

#[test]
fn installing_a_sink_on_a_missing_session_changes_nothing() {
    let mut registry: SessionRegistry<RecordingSink> = SessionRegistry::new();
    assert!(matches!(
        registry.install_sink(9, RecordingSink::new()),
        Err(BridgeError::SessionNotFound)
    ));
    assert!(!registry.contains(9));
}

#[test]
fn closing_an_entry_without_a_sink_severs_nothing() {
    let mut registry: SessionRegistry<RecordingSink> = SessionRegistry::new();
    registry.add(4, "peer".to_owned()).unwrap();
    let entry = registry.remove(4).unwrap();
    assert!(entry.close().is_none());
}

#[test]
fn close_all_severs_every_sink_and_empties_the_registry() {
    let mut registry: SessionRegistry<RecordingSink> = SessionRegistry::new();
    registry.add(1, "one".to_owned()).unwrap();
    registry.add(2, "two".to_owned()).unwrap();
    registry.install_sink(1, RecordingSink::new()).unwrap();
    registry.send_to_session(1, "kept".to_owned()).unwrap();
    let severed = registry.close_all();
    // Session 2 had no sink, so exactly one sink was severed, closed, its
    // delivered events exactly as they stood.
    assert_eq!(severed.len(), 1);
    assert!(severed[0].was_closed());
    assert_eq!(severed[0].delivered_len(), 1);
    assert_eq!(severed[0].delivered_at(0).as_str(), "kept");
    assert!(!registry.contains(1));
    assert!(!registry.contains(2));
}

#[test]
fn first_session_start_installs_sink_and_returns_a_loop_token() {
    let mut registry: SessionRegistry<RecordingSink> = SessionRegistry::new();
    registry.add(1, "peer".to_owned()).unwrap();
    let (superseded, token) = registry.start_session(1, RecordingSink::new()).unwrap();
    // First connect: no sink to supersede, a fresh round for the new loop.
    assert!(superseded.is_none());
    assert_eq!(token, Some(1));
    assert_eq!(registry.current_round(1), Some(1));
}

#[test]
fn session_takeover_closes_previous_sink_and_keeps_the_round() {
    let mut registry: SessionRegistry<RecordingSink> = SessionRegistry::new();
    registry.add(1, "peer".to_owned()).unwrap();
    registry.start_session(1, RecordingSink::new()).unwrap();
    registry.send_to_session(1, "early".to_owned()).unwrap();
    let (superseded, token) = registry.start_session(1, RecordingSink::new()).unwrap();
    // Takeover: the previous consumer is closed; the running loop keeps its
    // token, so no new round starts.
    let first = superseded.expect("a sink was installed before");
    assert!(first.was_closed());
    assert_eq!(first.delivered_len(), 1);
    assert_eq!(first.delivered_at(0).as_str(), "early");
    assert_eq!(token, None);
    assert_eq!(registry.current_round(1), Some(1));
}

#[test]
fn starting_an_unknown_session_is_reported() {
    let mut registry: SessionRegistry<RecordingSink> = SessionRegistry::new();
    assert!(matches!(
        registry.start_session(9, RecordingSink::new()),
        Err(BridgeError::SessionNotFound)
    ));
}

#[test]
fn loop_guard_follows_the_session_round() {
    let mut registry: SessionRegistry<RecordingSink> = SessionRegistry::new();
    registry.add(1, "peer".to_owned()).unwrap();
    let token = registry.new_round(1).unwrap();
    assert!(registry.loop_may_act(1, token));
    // A newer round supersedes the token.
    registry.new_round(1).unwrap();
    assert!(!registry.loop_may_act(1, token));
    // A removed session supersedes all its loops.
    registry.remove(1);
    assert!(!registry.loop_may_act(1, token));
}
