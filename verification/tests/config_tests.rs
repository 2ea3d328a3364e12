//! Tests for identity sets and circuit-request configuration.

use chanmgr::circ_config::{
    CircuitTiming, CircuitTimingBuilder, RequestTiming, RequestTimingBuilder,
};
use chanmgr::relay_ids::{RelayIdType, RelayIds};

#[test]
fn identity_set_relations() {
    let k1 = vec![1u8; 32];
    let k2 = vec![2u8; 20];
    let a = RelayIds::from_ed25519(k1.clone());
    let ab = RelayIds::new(Some(k1.clone()), Some(k2.clone()));
    let b = RelayIds::new(None, Some(k2.clone()));
    let c = RelayIds::from_ed25519(vec![3u8; 32]);

    // Equality is by contents.
    assert!(a.same_relay_ids(&RelayIds::from_ed25519(k1.clone())));
    assert!(!a.same_relay_ids(&ab));

    // Overlap means sharing at least one identity.
    assert!(a.has_any_relay_id_from(&ab));
    assert!(ab.has_any_relay_id_from(&b));
    assert!(!a.has_any_relay_id_from(&b));
    assert!(!a.has_any_relay_id_from(&c));

    // Satisfaction means holding every identity of the other set.
    assert!(ab.has_all_relay_ids_from(&a));
    assert!(!a.has_all_relay_ids_from(&ab));
    // An empty set is trivially satisfied by anything.
    assert!(a.has_all_relay_ids_from(&RelayIds::empty()));
    assert!(RelayIds::empty().is_empty());
    assert!(!a.is_empty());

    // Single-identity lookup.
    assert!(a.has_id(RelayIdType::Ed25519, &k1));
    assert!(!a.has_id(RelayIdType::Rsa, &k2));
    assert!(ab.has_id(RelayIdType::Rsa, &k2));

    let d = a.duplicate();
    assert!(d.same_relay_ids(&a));
}

#[test]
fn request_timing_defaults() {
    let t = RequestTiming::default();
    assert_eq!(t.request_timeout_ms, 60_000);
    assert_eq!(t.request_max_retries, 32);
    assert_eq!(t.request_loyalty_ms, 50);

    let mut b = RequestTimingBuilder::default();
    b.request_max_retries(5);
    let t = b.build();
    assert_eq!(t.request_timeout_ms, 60_000);
    assert_eq!(t.request_max_retries, 5);
}

#[test]
fn circuit_timing_defaults() {
    let t = CircuitTiming::default();
    assert_eq!(t.max_dirtiness_ms, 600_000);

    let mut b = CircuitTimingBuilder::default();
    b.max_dirtiness_ms(1000);
    assert_eq!(b.build().max_dirtiness_ms, 1000);
}
