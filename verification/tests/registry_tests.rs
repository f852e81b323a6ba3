use flow_control::registry::{Decision, FlowControlError, InheritedRole, Origin, Registry};
use flow_control::Address;

fn addr(s: &[u8]) -> Address {
    Address::new(s.to_vec())
}

#[test]
fn unregistered_flow_and_address_grant_nothing() {
    let mut r = Registry::new();
    let f = r.create_flow();
    let stranger = addr(b"stranger");
    let anyone = addr(b"anyone");
    assert!(!r.is_producer(&f, &stranger));
    assert!(!r.is_consumer(&f, &stranger));
    assert!(!r.authorize(&f, &stranger, &anyone));
    // a flow id that was never created grants nothing either
    let ghost_flow = flow_control::registry::FlowControlId::new(12345);
    assert!(!r.is_producer(&ghost_flow, &stranger));
    assert!(!r.is_consumer(&ghost_flow, &stranger));
    assert!(!r.authorize(&ghost_flow, &stranger, &anyone));
}

#[test]
fn registration_is_idempotent() {
    let mut r = Registry::new();
    let f = r.create_flow();
    assert_eq!(r.add_producer(&f, addr(b"p"), false), Ok(()));
    let rows_after_one = r.rows.len();
    assert_eq!(r.add_producer(&f, addr(b"p"), false), Ok(()));
    assert_eq!(r.rows.len(), rows_after_one);
    assert!(r.is_producer(&f, &addr(b"p")));

    assert_eq!(r.add_consumer(&f, addr(b"c"), Origin::AnyProducer), Ok(()));
    let rows_after_two = r.rows.len();
    assert_eq!(r.add_consumer(&f, addr(b"c"), Origin::AnyProducer), Ok(()));
    assert_eq!(r.rows.len(), rows_after_two);

    assert_eq!(r.add_spawner(&f, addr(b"s"), InheritedRole::Consumer), Ok(()));
    let rows_after_three = r.rows.len();
    assert_eq!(r.add_spawner(&f, addr(b"s"), InheritedRole::Consumer), Ok(()));
    assert_eq!(r.rows.len(), rows_after_three);
}

#[test]
fn unknown_flow_is_an_error() {
    let mut r = Registry::new();
    let ghost_flow = flow_control::registry::FlowControlId::new(7);
    assert_eq!(
        r.add_producer(&ghost_flow, addr(b"p"), false),
        Err(FlowControlError::UnknownFlow)
    );
    assert_eq!(
        r.add_consumer(&ghost_flow, addr(b"c"), Origin::AnyProducer),
        Err(FlowControlError::UnknownFlow)
    );
    assert_eq!(
        r.add_spawner(&ghost_flow, addr(b"s"), InheritedRole::Producer),
        Err(FlowControlError::UnknownFlow)
    );
}

#[test]
fn removal_clears_every_flow() {
    let mut r = Registry::new();
    let f1 = r.create_flow();
    let f2 = r.create_flow();
    r.add_producer(&f1, addr(b"w"), false).unwrap();
    r.add_consumer(&f2, addr(b"w"), Origin::AnyProducer).unwrap();
    r.add_producer(&f2, addr(b"keep"), false).unwrap();
    assert!(r.is_producer(&f1, &addr(b"w")));
    assert!(r.is_consumer(&f2, &addr(b"w")));
    r.remove_address(&addr(b"w"));
    assert!(!r.is_producer(&f1, &addr(b"w")));
    assert!(!r.is_consumer(&f2, &addr(b"w")));
    // the other registration survives
    assert!(r.is_producer(&f2, &addr(b"keep")));
    // removing again is safe
    r.remove_address(&addr(b"w"));
    assert!(!r.is_producer(&f1, &addr(b"w")));
}

#[test]
fn empty_entries_are_reclaimed() {
    let mut r = Registry::new();
    let f = r.create_flow();
    r.add_producer(&f, addr(b"only"), false).unwrap();
    r.remove_address(&addr(b"only"));
    // the entry held nothing but the removed address: the flow is gone
    assert_eq!(
        r.add_producer(&f, addr(b"late"), false),
        Err(FlowControlError::UnknownFlow)
    );
}

#[test]
fn spawner_propagates_consumer_role() {
    let mut r = Registry::new();
    let f = r.create_flow();
    r.add_spawner(&f, addr(b"s"), InheritedRole::Consumer).unwrap();
    r.on_spawn(&f, &addr(b"s"), addr(b"w"));
    assert!(r.is_consumer(&f, &addr(b"w")));
}

#[test]
fn spawner_propagates_producer_role() {
    let mut r = Registry::new();
    let f = r.create_flow();
    r.add_spawner(&f, addr(b"s"), InheritedRole::Producer).unwrap();
    r.on_spawn(&f, &addr(b"s"), addr(b"w"));
    assert!(r.is_producer(&f, &addr(b"w")));
}

#[test]
fn unregistered_spawner_is_a_no_op() {
    let mut r = Registry::new();
    let f = r.create_flow();
    let rows_before = r.rows.len();
    r.on_spawn(&f, &addr(b"nobody"), addr(b"w"));
    assert_eq!(r.rows.len(), rows_before);
    assert!(!r.is_consumer(&f, &addr(b"w")));
    assert!(!r.is_producer(&f, &addr(b"w")));
}

#[test]
fn origin_restricted_consumer() {
    let mut r = Registry::new();
    let f = r.create_flow();
    r.add_producer(&f, addr(b"p1"), false).unwrap();
    r.add_producer(&f, addr(b"p2"), false).unwrap();
    r.add_consumer(&f, addr(b"c"), Origin::Only(addr(b"p1"))).unwrap();
    assert!(r.authorize(&f, &addr(b"p1"), &addr(b"c")));
    assert!(!r.authorize(&f, &addr(b"p2"), &addr(b"c")));
}

#[test]
fn end_to_end_producer_consumer() {
    let mut r = Registry::new();
    let f1 = r.create_flow();
    r.add_producer(&f1, addr(b"workerA"), false).unwrap();
    r.add_consumer(&f1, addr(b"workerB"), Origin::AnyProducer).unwrap();
    assert!(r.authorize(&f1, &addr(b"workerA"), &addr(b"workerB")));
    assert!(!r.authorize(&f1, &addr(b"workerC"), &addr(b"workerB")));
}

#[test]
fn end_to_end_spawner_propagation() {
    let mut r = Registry::new();
    let f2 = r.create_flow();
    r.add_spawner(&f2, addr(b"listener"), InheritedRole::Consumer).unwrap();
    r.on_spawn(&f2, &addr(b"listener"), addr(b"childX"));
    assert!(r.is_consumer(&f2, &addr(b"childX")));
}

#[test]
fn teardown_clears_both_roles() {
    let mut r = Registry::new();
    let f1 = r.create_flow();
    let f2 = r.create_flow();
    r.add_producer(&f1, addr(b"workerD"), false).unwrap();
    r.add_producer(&f2, addr(b"other"), false).unwrap();
    r.add_consumer(&f2, addr(b"workerD"), Origin::AnyProducer).unwrap();
    r.on_worker_stopped(&addr(b"workerD"));
    assert!(!r.is_producer(&f1, &addr(b"workerD")));
    assert!(!r.is_consumer(&f2, &addr(b"workerD")));
}

#[test]
fn restricted_producer_must_be_creator() {
    let mut r = Registry::new();
    let f = r.create_flow();
    // first producer: becomes the creator, restricted to itself
    r.add_producer(&f, addr(b"creator"), true).unwrap();
    // later restricted producer: not the creator, so never authorized
    r.add_producer(&f, addr(b"later"), true).unwrap();
    r.add_consumer(&f, addr(b"c"), Origin::AnyProducer).unwrap();
    assert!(r.authorize(&f, &addr(b"creator"), &addr(b"c")));
    assert!(!r.authorize(&f, &addr(b"later"), &addr(b"c")));
}

#[test]
fn fresh_identifiers_differ() {
    let mut r = Registry::new();
    let f1 = r.create_flow();
    let f2 = r.create_flow();
    let f3 = r.create_flow();
    assert_ne!(f1, f2);
    assert_ne!(f1, f3);
    assert_ne!(f2, f3);
}

#[test]
fn untagged_messages_are_not_ours() {
    let mut r = Registry::new();
    let f = r.create_flow();
    r.add_producer(&f, addr(b"p"), false).unwrap();
    r.add_consumer(&f, addr(b"c"), Origin::AnyProducer).unwrap();
    assert_eq!(
        r.check_delivery(None, &addr(b"p"), &addr(b"c")),
        Decision::NotApplicable
    );
    assert_eq!(
        r.check_delivery(Some(&f), &addr(b"p"), &addr(b"c")),
        Decision::Allow
    );
    assert_eq!(
        r.check_delivery(Some(&f), &addr(b"c"), &addr(b"p")),
        Decision::Deny
    );
}

#[test]
fn shutdown_deletes_every_entry() {
    let mut r = Registry::new();
    let f = r.create_flow();
    r.add_producer(&f, addr(b"p"), false).unwrap();
    r.add_consumer(&f, addr(b"c"), Origin::AnyProducer).unwrap();
    r.shutdown();
    assert!(!r.is_producer(&f, &addr(b"p")));
    assert!(!r.is_consumer(&f, &addr(b"c")));
    assert_eq!(
        r.add_producer(&f, addr(b"p"), false),
        Err(FlowControlError::UnknownFlow)
    );
}

#[test]
fn removed_creator_silences_restricted_producers() {
    let mut r = Registry::new();
    let f = r.create_flow();
    r.add_producer(&f, addr(b"creator"), true).unwrap();
    r.add_producer(&f, addr(b"open"), false).unwrap();
    r.add_consumer(&f, addr(b"c"), Origin::AnyProducer).unwrap();
    assert!(r.authorize(&f, &addr(b"creator"), &addr(b"c")));
    r.remove_address(&addr(b"creator"));
    // the creator's own registrations are gone; the open producer stays
    assert!(!r.authorize(&f, &addr(b"creator"), &addr(b"c")));
    assert!(r.authorize(&f, &addr(b"open"), &addr(b"c")));
}

#[test]
fn addresses_span_flows_independently() {
    let mut r = Registry::new();
    let f1 = r.create_flow();
    let f2 = r.create_flow();
    r.add_producer(&f1, addr(b"w"), false).unwrap();
    r.add_consumer(&f2, addr(b"w"), Origin::AnyProducer).unwrap();
    assert!(r.is_producer(&f1, &addr(b"w")));
    assert!(!r.is_producer(&f2, &addr(b"w")));
    assert!(r.is_consumer(&f2, &addr(b"w")));
    assert!(!r.is_consumer(&f1, &addr(b"w")));
}
