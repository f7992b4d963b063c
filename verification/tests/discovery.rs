use decentralized_access_control::discovery::neighbors::{NeighborTable, Observation, Rejection};
use decentralized_access_control::discovery::{
    AnnouncementSchedule, GossipDiscoveryBuilder, Node, SignedMessage, cleanup_interval,
};
use decentralized_access_control::endpoint::EndpointId;
use ed25519_dalek::SigningKey;

fn public_of(secret: &[u8; 32]) -> [u8; 32] {
    SigningKey::from_bytes(secret).verifying_key().to_bytes()
}

fn node(name: &str, id: [u8; 32], count: u32) -> Node {
    Node::new(String::from(name), EndpointId::from_bytes(id), count)
}

#[test]
fn signed_message_names_the_signer_and_verifies() {
    let secret = [7u8; 32];
    let msg = SignedMessage::sign(&secret, b"{\"name\":\"n1\"}".to_vec());
    assert_eq!(msg.from, public_of(&secret));
    assert_eq!(msg.data, b"{\"name\":\"n1\"}".to_vec());
    assert!(msg.verify());
    assert_ne!(msg.signature, [0u8; 64]);
}

#[test]
fn tampered_message_fails_verification() {
    let secret = [9u8; 32];
    let mut msg = SignedMessage::sign(&secret, b"hello".to_vec());
    msg.data[0] = b'j';
    assert!(!msg.verify());
    let mut msg = SignedMessage::sign(&secret, b"hello".to_vec());
    msg.from = public_of(&[8u8; 32]);
    assert!(!msg.verify());
}

#[test]
fn signing_is_deterministic() {
    let a = SignedMessage::sign(&[1u8; 32], b"x".to_vec());
    let b = SignedMessage::sign(&[1u8; 32], b"x".to_vec());
    assert_eq!(a.signature, b.signature);
}

#[test]
fn node_checks_its_signer() {
    let n = node("n1", [4u8; 32], 0);
    assert!(n.is_signed_by(&[4u8; 32]));
    assert!(!n.is_signed_by(&[5u8; 32]));
    let m = n.with_count(12);
    assert_eq!(m.count, 12);
    assert_eq!(m.name, "n1");
    assert_eq!(m.node_id, n.node_id);
}

/// A key of the table's tests: the public half of the secret `[s; 32]`.
fn key(s: u8) -> [u8; 32] {
    public_of(&[s; 32])
}

/// Has `t` hear `name` announced with node id `claimed`, signed with the
/// secret `[signer; 32]`, at `now`.
fn hear(
    t: &mut NeighborTable,
    name: &str,
    claimed: [u8; 32],
    signer: u8,
    now: u128,
) -> Result<Observation, Rejection> {
    let n = node(name, claimed, 0);
    let msg = SignedMessage::sign(&[signer; 32], name.as_bytes().to_vec());
    t.observe(&msg, &n, now)
}

#[test]
fn new_peer_then_refresh() {
    let mut t = NeighborTable::new();
    assert_eq!(t.len(), 0);
    match hear(&mut t, "alpha", key(1), 1, 100) {
        Ok(Observation::NewPeer(id)) => assert_eq!(id, EndpointId::from_bytes(key(1))),
        other => panic!("unexpected {:?}", other),
    }
    assert!(matches!(hear(&mut t, "alpha", key(1), 1, 200), Ok(Observation::Refreshed)));
    assert_eq!(t.len(), 1);
    assert!(t.contains(&String::from("alpha")));
}

#[test]
fn spoofed_announcement_is_ignored() {
    let mut t = NeighborTable::new();
    assert!(matches!(hear(&mut t, "mallory", key(1), 2, 5), Ok(Observation::Spoofed)));
    assert_eq!(t.len(), 0);
    assert!(!t.contains(&String::from("mallory")));
}

#[test]
fn bad_signature_is_rejected() {
    let mut t = NeighborTable::new();
    let n = node("x", key(1), 0);
    let mut msg = SignedMessage::sign(&[1u8; 32], b"x".to_vec());
    msg.data = b"y".to_vec();
    assert!(matches!(t.observe(&msg, &n, 1), Err(Rejection::BadSignature)));
    assert_eq!(t.len(), 0);
}

#[test]
fn neighbors_lists_each_peer_once() {
    let mut t = NeighborTable::new();
    hear(&mut t, "a", key(1), 1, 1).unwrap();
    hear(&mut t, "b", key(2), 2, 1).unwrap();
    hear(&mut t, "a", key(1), 1, 2).unwrap();
    let mut v = t.neighbors();
    v.sort_by(|x, y| x.0.cmp(&y.0));
    assert_eq!(
        v,
        vec![
            (String::from("a"), EndpointId::from_bytes(key(1))),
            (String::from("b"), EndpointId::from_bytes(key(2))),
        ]
    );
}

#[test]
fn cleanup_drops_only_silent_peers() {
    let mut t = NeighborTable::new();
    hear(&mut t, "old", key(1), 1, 1_000).unwrap();
    hear(&mut t, "edge", key(2), 2, 4_000).unwrap();
    hear(&mut t, "new", key(3), 3, 9_000).unwrap();
    let removed = t.cleanup(10_000, 6_000);
    assert_eq!(removed, vec![(String::from("old"), EndpointId::from_bytes(key(1)))]);
    assert_eq!(t.len(), 2);
    assert!(t.contains(&String::from("edge")));
    assert!(t.contains(&String::from("new")));
    assert!(t.cleanup(10_000, 6_000).is_empty());
}

#[test]
fn future_time_stamps_do_not_expire() {
    let mut t = NeighborTable::new();
    hear(&mut t, "n", key(1), 1, 50).unwrap();
    assert!(t.cleanup(10, 0).is_empty());
    assert_eq!(t.len(), 1);
}

#[test]
fn fresh_entry_survives_zero_timeout() {
    let mut t = NeighborTable::new();
    hear(&mut t, "n", key(1), 1, 77).unwrap();
    assert!(t.cleanup(77, 0).is_empty());
    assert!(!t.cleanup(78, 0).is_empty());
}

#[test]
fn sweep_period_is_a_third_of_the_timeout() {
    assert_eq!(cleanup_interval(30_000_000_000), 10_000_000_000);
    assert_eq!(cleanup_interval(10), 3);
    assert_eq!(cleanup_interval(0), 0);
    let d = std::time::Duration::new(7, 2);
    assert_eq!(cleanup_interval(d.as_nanos()), (d / 3).as_nanos());
}

#[test]
fn schedule_counts_up_from_the_node_count() {
    let mut s = AnnouncementSchedule::new(node("n", [1u8; 32], 5));
    for expected in 5u32..9 {
        let a = s.next_announcement().unwrap();
        assert_eq!(a.count, expected);
        assert_eq!(a.name, "n");
        assert_eq!(a.node_id, EndpointId::from_bytes([1u8; 32]));
    }
}

#[test]
fn schedule_ends_after_the_largest_count() {
    let mut s = AnnouncementSchedule::new(node("n", [1u8; 32], u32::MAX - 1));
    assert_eq!(s.next_announcement().unwrap().count, u32::MAX - 1);
    assert_eq!(s.next_announcement().unwrap().count, u32::MAX);
    assert!(s.next_announcement().is_none());
    assert!(s.next_announcement().is_none());
}

#[test]
fn builder_timeout_defaults_to_thirty_seconds() {
    let b = GossipDiscoveryBuilder::new();
    assert_eq!(b.expiration_timeout(), 30_000_000_000);
    let b = b.with_expiration_timeout(5);
    assert_eq!(b.expiration_timeout(), 5);
}
