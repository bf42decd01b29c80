use bridge::channels::get_global_event_channels;
use bridge::channels::push_global_event;
use bridge::channels::EventChannelRegistry;
use bridge::sink::RecordingSink;
use bridge::BridgeError;

#[test]
fn replacement_closes_first_sink_and_later_pushes_reach_only_second() {
    let mut registry: EventChannelRegistry<RecordingSink> = EventChannelRegistry::new();
    assert!(registry.register("main".to_owned(), RecordingSink::new()).is_none());
    registry.push("main", "before".to_owned()).unwrap();
    // Registering a second sink for the same name closes the first.
    let first = registry
        .register("main".to_owned(), RecordingSink::new())
        .expect("a sink was registered before");
    assert!(first.was_closed());
    assert_eq!(first.delivered_len(), 1);
    assert_eq!(first.delivered_at(0).as_str(), "before");
    // A push after the replacement reaches only the second sink.
    registry.push("main", "after".to_owned()).unwrap();
    assert_eq!(first.delivered_len(), 1);
    let second = registry.unregister("main").unwrap();
    assert!(second.was_closed());
    assert_eq!(second.delivered_len(), 1);
    assert_eq!(second.delivered_at(0).as_str(), "after");
}

#[test]
fn push_to_unregistered_channel_fails_with_channel_not_found() {
    let mut registry: EventChannelRegistry<RecordingSink> = EventChannelRegistry::new();
    assert_eq!(
        registry.push("nobody", "ev".to_owned()),
        Err(BridgeError::ChannelNotFound)
    );
    registry.register("main".to_owned(), RecordingSink::new());
    assert_eq!(
        registry.push("other", "ev".to_owned()),
        Err(BridgeError::ChannelNotFound)
    );
}

#[test]
fn failed_invocation_is_reported_and_sink_stays_registered() {
    let mut registry: EventChannelRegistry<RecordingSink> = EventChannelRegistry::new();
    registry.register("main".to_owned(), RecordingSink::new_rejecting());
    assert_eq!(
        registry.push("main", "one".to_owned()),
        Err(BridgeError::SinkInvocationFailed)
    );
    assert!(registry.has_channel("main"));
    assert_eq!(
        registry.push("main", "two".to_owned()),
        Err(BridgeError::SinkInvocationFailed)
    );
    let sink = registry.unregister("main").unwrap();
    assert_eq!(sink.delivered_len(), 2);
    assert_eq!(sink.delivered_at(0).as_str(), "one");
    assert_eq!(sink.delivered_at(1).as_str(), "two");
}

#[test]
fn unregister_closes_and_removes_the_sink() {
    let mut registry: EventChannelRegistry<RecordingSink> = EventChannelRegistry::new();
    registry.register("cm".to_owned(), RecordingSink::new());
    let sink = registry.unregister("cm").unwrap();
    assert!(sink.was_closed());
    assert!(!registry.has_channel("cm"));
    // Unregistering an absent name is a no-op.
    assert!(registry.unregister("cm").is_none());
}

#[test]
fn channels_are_independent() {
    let mut registry: EventChannelRegistry<RecordingSink> = EventChannelRegistry::new();
    registry.register("main".to_owned(), RecordingSink::new());
    registry.register("cm".to_owned(), RecordingSink::new());
    registry.push("main", "to-main".to_owned()).unwrap();
    let cm = registry.unregister("cm").unwrap();
    assert_eq!(cm.delivered_len(), 0);
    let main = registry.unregister("main").unwrap();
    assert_eq!(main.delivered_len(), 1);
    assert_eq!(main.delivered_at(0).as_str(), "to-main");
}

#[test]
fn listed_channels_are_exactly_the_registered_names() {
    let mut registry: EventChannelRegistry<RecordingSink> = EventChannelRegistry::new();
    assert_eq!(registry.list_channels(), Vec::<String>::new());
    registry.register("main".to_owned(), RecordingSink::new());
    registry.register("cm".to_owned(), RecordingSink::new());
    // Re-registering a name must not list it twice.
    registry.register("main".to_owned(), RecordingSink::new());
    let mut names = registry.list_channels();
    names.sort();
    assert_eq!(names, vec!["cm".to_owned(), "main".to_owned()]);
    registry.unregister("cm");
    assert_eq!(registry.list_channels(), vec!["main".to_owned()]);
}

#[test]
fn global_event_helpers_mirror_the_registry() {
    let mut registry: EventChannelRegistry<RecordingSink> = EventChannelRegistry::new();
    assert_eq!(push_global_event(&mut registry, "main", "lost".to_owned()), None);
    registry.register("main".to_owned(), RecordingSink::new());
    assert_eq!(
        push_global_event(&mut registry, "main", "ev".to_owned()),
        Some(true)
    );
    registry.register("flaky".to_owned(), RecordingSink::new_rejecting());
    assert_eq!(
        push_global_event(&mut registry, "flaky", "ev".to_owned()),
        Some(false)
    );
    let mut names = get_global_event_channels(&registry);
    names.sort();
    assert_eq!(names, vec!["flaky".to_owned(), "main".to_owned()]);
}

#[test]
fn close_all_closes_every_sink_and_empties_the_registry() {
    let mut registry: EventChannelRegistry<RecordingSink> = EventChannelRegistry::new();
    registry.register("a".to_owned(), RecordingSink::new());
    registry.register("b".to_owned(), RecordingSink::new());
    registry.push("a", "for-a".to_owned()).unwrap();
    let closed = registry.close_all();
    assert_eq!(closed.len(), 2);
    assert!(closed.iter().all(|s| s.was_closed()));
    // Each sink comes back with its delivered events exactly as they stood:
    // one got the pushed event and nothing more, the other got nothing.
    let mut logs: Vec<Vec<String>> = closed
        .iter()
        .map(|s| (0..s.delivered_len()).map(|i| s.delivered_at(i).clone()).collect())
        .collect();
    logs.sort();
    assert_eq!(logs, vec![vec![], vec!["for-a".to_owned()]]);
    assert!(registry.list_channels().is_empty());
    assert!(!registry.has_channel("a"));
}
