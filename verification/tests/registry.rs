use safehouse::envelope::Envelope;
use safehouse::mailbox::Mailbox;
use safehouse::registry::Registry;

fn registry(personas: &[&str]) -> Registry {
    Registry::new(personas.iter().map(|p| p.to_string()).collect(), Mailbox::new())
}

fn env_to(from: &str, to: &str) -> Envelope {
    Envelope {
        v: 1,
        from: from.to_owned(),
        to: to.to_owned(),
        kind: "chat".to_owned(),
        task_id: None,
        body: "hi".to_owned(),
        wake: None,
        meta: None,
        rest: Vec::new(),
    }
}

#[test]
fn unsupported_surface_dedups_per_sender_and_version() {
    let mut registry = registry(&[]);
    assert!(registry.mark_unsupported_surfaced("@evil:remote", 2));
    assert!(!registry.mark_unsupported_surfaced("@evil:remote", 2));
    assert!(!registry.mark_unsupported_surfaced("@evil:remote", 2));
    assert!(registry.mark_unsupported_surfaced("@evil:remote", 3));
    assert!(registry.mark_unsupported_surfaced("@other:remote", 2));
}

#[test]
fn mailbox_deliver_routes_direct_address_to_only_that_persona() {
    let mut registry = registry(&["writer_agent", "research_agent"]);
    registry
        .mailbox_deliver(false, "!room:x", "$1", "@robb:x", &env_to("@robb:x", "research_agent"))
        .unwrap();
    assert_eq!(registry.check("research_agent", true, None).len(), 1);
    assert!(registry.check("writer_agent", true, None).is_empty());
}

#[test]
fn mailbox_deliver_broadcast_reaches_every_local_persona() {
    let mut registry = registry(&["writer_agent", "research_agent"]);
    registry
        .mailbox_deliver(false, "!room:x", "$1", "@robb:x", &env_to("@robb:x", "*"))
        .unwrap();
    assert_eq!(registry.check("writer_agent", true, None).len(), 1);
    assert_eq!(registry.check("research_agent", true, None).len(), 1);
}

#[test]
fn mailbox_deliver_broadcast_skips_only_the_authoring_persona_on_own_events() {
    let mut registry = registry(&["writer_agent", "research_agent"]);
    registry
        .mailbox_deliver(true, "!room:x", "$1", "@safehoused:x", &env_to("writer_agent", "*"))
        .unwrap();
    assert!(registry.check("writer_agent", true, None).is_empty());
    assert_eq!(registry.check("research_agent", true, None).len(), 1);
}

#[test]
fn mailbox_deliver_ignores_a_persona_not_hosted_locally() {
    let mut registry = registry(&["writer_agent"]);
    registry
        .mailbox_deliver(
            false,
            "!room:x",
            "$1",
            "@safehoused-hostb:x",
            &env_to("remote_agent", "not_a_local_persona"),
        )
        .unwrap();
    assert!(registry.check("writer_agent", true, None).is_empty());
}

#[test]
fn recipients_are_the_personas_a_message_is_for() {
    let registry = registry(&["a", "b"]);
    assert_eq!(registry.mailbox_recipients(false, &env_to("x", "*")), vec!["a", "b"]);
    assert_eq!(registry.mailbox_recipients(true, &env_to("a", "*")), vec!["b"]);
    assert_eq!(registry.mailbox_recipients(false, &env_to("x", "b")), vec!["b"]);
    assert!(registry.mailbox_recipients(false, &env_to("x", "c")).is_empty());
}

#[test]
fn connections_are_numbered_and_let_go() {
    let mut registry = registry(&["a"]);
    let first = registry.connect("a").unwrap();
    let second = registry.connect("a").unwrap();
    assert_ne!(first, second);
    assert_eq!(registry.dispatch(false, "x"), vec![first, second]);
    registry.disconnect(first);
    assert_eq!(registry.dispatch(false, "x"), vec![second]);
    registry.disconnect(77);
    assert_eq!(registry.dispatch(false, "x"), vec![second]);
}

#[test]
fn a_clock_that_went_back_shows_no_age() {
    let mut registry = registry(&[]);
    registry.record_event_received(10);
    assert_eq!(registry.status(3).get_u64("last_event_received_secs_ago"), Some(0));
}

#[test]
fn a_full_mailbox_is_told_of() {
    let mut registry = Registry::new(vec!["a".to_owned()], Mailbox::restore(Vec::new(), 9_223_372_036_854_775_808).unwrap());
    assert!(registry.mailbox_deliver(false, "!r:x", "$1", "@s:x", &env_to("x", "a")).is_err());
}

#[test]
fn the_cursor_follows_what_was_read() {
    let mut registry = registry(&["a"]);
    assert_eq!(registry.cursor("a"), 0);
    let deliveries = registry
        .mailbox_deliver(false, "!r:x", "$1", "@s:x", &env_to("x", "a"))
        .unwrap();
    assert_eq!(deliveries.len(), 1);
    assert_eq!(deliveries[0].persona, "a");
    let seq = deliveries[0].delivery.stored.unwrap();
    registry.check("a", true, None);
    assert_eq!(registry.cursor("a"), seq);
}

#[test]
fn failing_syncs_are_retried_ever_later() {
    let mut registry = registry(&[]);
    let waits: Vec<(u32, u64)> = (0..7)
        .map(|_| {
            let retry = registry.record_sync_failed();
            (retry.attempt, retry.backoff_secs)
        })
        .collect();
    assert_eq!(waits, vec![(1, 2), (2, 4), (3, 8), (4, 16), (5, 32), (6, 60), (7, 60)]);
    assert_eq!(registry.status(0).get_u64("retry_attempt"), Some(7));
    registry.record_sync_completed(0);
    assert_eq!(registry.record_sync_failed().attempt, 1);
    registry.record_retry_attempt(u32::MAX, 60);
    assert_eq!(registry.record_sync_failed().attempt, u32::MAX);
}
