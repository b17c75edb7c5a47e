use tanos::crypto::{decrypt, x25519_pubkey_from_secret, CryptoError};
use tanos::discovery::{
    beacon_destinations, broadcast_addr, broadcast_beacon, check_beacon, handle_beacon,
    receive_beacon, relay,
    BeaconOutcome, DISCOVERY_PORT, MAX_DATAGRAM,
};
use tanos::identity::NodeIdentity;
use tanos::message::{envelope, make_message, open_message};
use tanos::peers::{Endpoint, Ip, PeerTable, PEER_TIMEOUT};
use tanos::table::Table;
use tanos::transport::{
    forward_message, frame, handle_message, handle_own_message, read_length, send_message,
    Delivery, SeenMessages, TransportError, DEDUP_CAPACITY, MAX_MESSAGE_SIZE,
};
use tanos::wire::{Announcement, TanMessage};

fn at(last: u8, port: u16) -> Endpoint {
    Endpoint { ip: Ip::V4([10, 0, 0, last]), port }
}

fn announced(hops: u8) -> Announcement {
    let id = NodeIdentity::generate(None);
    let mut heard = Announcement::new(&id, 7701);
    heard.beacon.hop_count = hops;
    heard
}

fn later(seconds: u64) -> u64 {
    seconds * 1_000_000_000
}

#[test]
fn table_of_texts() {
    let mut table: Table<u32> = Table::new();
    table.insert("a", 1);
    table.insert("b", 2);
    table.insert("a", 3);
    assert_eq!(table.len(), 2);
    assert_eq!(table.get("a"), Some(&3));
    assert_eq!(table.get("b"), Some(&2));
    assert_eq!(table.get("c"), None);
    assert_eq!(table.position("b"), Some(1));
    assert_eq!(table.key_at(0), "a");
    assert_eq!(table.value_at(1), &2);
    table.remove("a");
    table.remove("c");
    assert!(!table.contains_key("a"));
    assert_eq!(table.len(), 1);
    table.remove_at(0);
    assert_eq!(table.len(), 0);
}

#[test]
fn beacons_fill_the_peer_table() {
    let mut table = PeerTable::new();
    let heard = announced(0);
    let id = heard.beacon.node_id.clone();
    assert!(table.upsert(&heard, at(1, 7701), 5));
    assert!(!table.upsert(&heard, at(1, 7701), 6));
    let peer = table.get_peer(&id).expect("known");
    assert_eq!(peer.node_id, id);
    assert_eq!(peer.public_key, heard.beacon.public_key);
    assert_eq!(peer.encryption_pubkey, heard.encryption_pubkey);
    assert_eq!(peer.addr, at(1, 7701));
    assert_eq!(peer.hop_count, 1);
    assert_eq!(peer.last_seen, 6);
    let route = table.get_route(&id).expect("routed");
    assert_eq!(route.next_hop_id, id);
    assert_eq!(route.next_hop_addr, at(1, 7701));
    assert_eq!(route.last_updated, 6);
    assert!(table.get_peer("nobody").is_none());
    assert!(table.get_route("nobody").is_none());
}

#[test]
fn routes_only_get_shorter() {
    let mut table = PeerTable::new();
    let mut heard = announced(2);
    let id = heard.beacon.node_id.clone();
    table.upsert(&heard, at(1, 1), 1);
    assert_eq!(table.get_route(&id).expect("routed").hop_count, 3);
    heard.beacon.hop_count = 0;
    table.upsert(&heard, at(2, 1), 2);
    let short = table.get_route(&id).expect("routed");
    assert_eq!(short.hop_count, 1);
    assert_eq!(short.next_hop_addr, at(2, 1));
    heard.beacon.hop_count = 2;
    table.upsert(&heard, at(3, 1), 3);
    let kept = table.get_route(&id).expect("routed");
    assert_eq!(kept.hop_count, 1);
    assert_eq!(kept.next_hop_addr, at(2, 1));
    assert_eq!(kept.last_updated, 3);
    let peer = table.get_peer(&id).expect("known");
    assert_eq!(peer.hop_count, 1);
    assert_eq!(peer.addr, at(2, 1));
    assert_eq!(peer.last_seen, 3);
    heard.beacon.hop_count = 0;
    assert!(!table.upsert(&heard, at(4, 1), 4));
    assert_eq!(table.get_peer(&id).expect("known").addr, at(4, 1));
    assert_eq!(table.get_route(&id).expect("routed").next_hop_addr, at(2, 1));
}

#[test]
fn stale_peers_are_pruned() {
    let mut table = PeerTable::new();
    let early = announced(0);
    let late = announced(0);
    table.upsert(&early, at(1, 1), later(0));
    table.upsert(&late, at(2, 1), later(1));
    table.prune_stale(PEER_TIMEOUT);
    assert_eq!(table.peer_ids().len(), 2);
    table.prune_stale(PEER_TIMEOUT + 1);
    assert_eq!(table.peer_ids(), vec![late.beacon.node_id.clone()]);
    assert!(table.get_route(&early.beacon.node_id).is_none());
    assert!(table.get_route(&late.beacon.node_id).is_some());
    table.prune_stale(PEER_TIMEOUT + 1);
    assert_eq!(table.snapshot_peers().len(), 1);
    table.prune_stale(0);
    assert_eq!(table.snapshot_routes().len(), 1);
    table.prune_stale(later(32));
    assert!(table.peer_ids().is_empty());
}

#[test]
fn snapshots_hold_every_peer() {
    let mut table = PeerTable::new();
    let mut ids: Vec<String> = Vec::new();
    for i in 0u8..3 {
        let heard = announced(i);
        table.upsert(&heard, at(i, 1), 1);
        ids.push(heard.beacon.node_id.clone());
    }
    let mut peers: Vec<String> = table.snapshot_peers().iter().map(|p| p.node_id.clone()).collect();
    let mut routes: Vec<String> = table.snapshot_routes().iter().map(|r| r.0.clone()).collect();
    let mut listed = table.peer_ids();
    ids.sort();
    peers.sort();
    routes.sort();
    listed.sort();
    assert_eq!(peers, ids);
    assert_eq!(routes, ids);
    assert_eq!(listed, ids);
}

#[test]
fn beacons_go_to_everyone_and_to_each_peer() {
    let mut table = PeerTable::new();
    table.upsert(&announced(0), at(1, 7701), 1);
    table.upsert(&announced(0), at(2, 9), 1);
    let everyone = Endpoint { ip: Ip::V4([255, 255, 255, 255]), port: 7700 };
    assert_eq!(broadcast_addr(), everyone);
    assert_eq!(beacon_destinations(&table), vec![everyone, at(1, 7700), at(2, 7700)]);
    let id = NodeIdentity::generate(None);
    let (beacon, destinations) = broadcast_beacon(&id, 7701, &table);
    assert_eq!(beacon.beacon.node_id, id.tan_id);
    assert!(beacon.beacon.verify_signature().is_ok());
    assert_eq!(destinations.len(), 3);
    assert_eq!(DISCOVERY_PORT, 7700);
    assert_eq!(MAX_DATAGRAM, 4096);
}

#[test]
fn incoming_beacons_are_sorted_out() {
    let us = NodeIdentity::generate(None);
    let them = NodeIdentity::generate(None);
    let mut table = PeerTable::new();
    let own = Announcement::new(&us, 7701);
    let ip = Ip::V4([10, 0, 0, 7]);
    assert!(matches!(handle_beacon(&own, ip, &us, &mut table, 1), Ok(BeaconOutcome::Own)));
    assert!(table.peer_ids().is_empty());
    let mut forged = Announcement::new(&them, 7701);
    forged.beacon.listen_port = 1;
    let refused = handle_beacon(&forged, ip, &us, &mut table, 1);
    assert!(matches!(refused, Err(CryptoError::VerificationFailed)));
    assert!(table.peer_ids().is_empty());
    let heard = Announcement::new(&them, 7705);
    match handle_beacon(&heard, ip, &us, &mut table, 1) {
        Ok(BeaconOutcome::Taken { is_new, relayed }) => {
            assert!(is_new);
            let relayed = relayed.expect("may travel further");
            assert_eq!(relayed.beacon.hop_count, 1);
            assert_eq!(relayed.beacon.signature, heard.beacon.signature);
            assert!(relayed.beacon.verify_origin().is_ok());
        }
        _ => panic!("the beacon is taken in"),
    }
    assert_eq!(table.get_peer(&them.tan_id).expect("known").addr, at(7, 7705));
    match handle_beacon(&heard, ip, &us, &mut table, 2) {
        Ok(BeaconOutcome::Taken { is_new, .. }) => assert!(!is_new),
        _ => panic!("the beacon is taken in"),
    }
}

#[test]
fn beacons_reach_nodes_out_of_range() {
    let first = NodeIdentity::generate(None);
    let second = NodeIdentity::generate(None);
    let third = NodeIdentity::generate(None);
    let mut near = PeerTable::new();
    let mut far = PeerTable::new();
    let sent = Announcement::new(&first, 7701);
    let relayed = match handle_beacon(&sent, Ip::V4([10, 0, 0, 1]), &second, &mut near, 1) {
        Ok(BeaconOutcome::Taken { relayed: Some(relayed), .. }) => relayed,
        _ => panic!("the beacon is passed on"),
    };
    match handle_beacon(&relayed, Ip::V4([10, 0, 0, 2]), &third, &mut far, 2) {
        Ok(BeaconOutcome::Taken { is_new, relayed }) => {
            assert!(is_new);
            assert_eq!(relayed.expect("may travel further").beacon.hop_count, 2);
        }
        _ => panic!("the beacon is taken in"),
    }
    let known = far.get_peer(&first.tan_id).expect("discovered");
    assert_eq!(known.hop_count, 2);
    assert_eq!(known.public_key, first.public_key_bytes());
    assert_eq!(near.get_peer(&first.tan_id).expect("discovered").hop_count, 1);
    let mut forged = relayed.clone();
    forged.beacon.timestamp += 1;
    let refused = handle_beacon(&forged, Ip::V4([10, 0, 0, 2]), &third, &mut far, 3);
    assert!(matches!(refused, Err(CryptoError::VerificationFailed)));
}

#[test]
fn beacons_from_too_far_need_their_own_signature() {
    let us = NodeIdentity::generate(None);
    let them = NodeIdentity::generate(None);
    let ip = Ip::V4([10, 0, 0, 7]);
    let mut table = PeerTable::new();
    for hops in [4u8, 99, 254] {
        let mut tampered = Announcement::new(&them, 7701);
        tampered.beacon.hop_count = hops;
        assert_eq!(check_beacon(&tampered.beacon), Err(CryptoError::VerificationFailed));
        let refused = handle_beacon(&tampered, ip, &us, &mut table, 1);
        assert!(matches!(refused, Err(CryptoError::VerificationFailed)));
    }
    assert!(table.peer_ids().is_empty());
    for hops in [0u8, 1, 2, 3, 4, 99] {
        let mut signed = Announcement::new(&them, 7701);
        signed.beacon.hop_count = hops;
        signed.beacon.signature =
            tanos::crypto::sign(&them.signing_key, &signed.beacon.signable_bytes());
        match handle_beacon(&signed, ip, &us, &mut table, 1) {
            Ok(BeaconOutcome::Taken { relayed, .. }) => assert_eq!(relayed.is_some(), hops < 3),
            _ => panic!("the beacon verifies as it is"),
        }
    }
}

#[test]
fn beacons_at_the_last_hop_count() {
    let us = NodeIdentity::generate(None);
    let them = NodeIdentity::generate(None);
    let ip = Ip::V4([10, 0, 0, 7]);
    let mut table = PeerTable::new();
    let mut own = Announcement::new(&us, 7701);
    own.beacon.hop_count = 255;
    assert!(matches!(handle_beacon(&own, ip, &us, &mut table, 1), Ok(BeaconOutcome::Own)));
    assert!(matches!(
        receive_beacon(&own, ip, &us, &mut table, 1),
        Some(Ok(BeaconOutcome::Own))
    ));
    let mut tampered = Announcement::new(&them, 7701);
    tampered.beacon.hop_count = 255;
    assert!(matches!(
        receive_beacon(&tampered, ip, &us, &mut table, 1),
        Some(Err(CryptoError::VerificationFailed))
    ));
    tampered.beacon.signature =
        tanos::crypto::sign(&them.signing_key, &tampered.beacon.signable_bytes());
    assert!(receive_beacon(&tampered, ip, &us, &mut table, 1).is_none());
    assert!(table.peer_ids().is_empty());
    let plain = Announcement::new(&them, 7701);
    assert!(matches!(
        receive_beacon(&plain, ip, &us, &mut table, 1),
        Some(Ok(BeaconOutcome::Taken { is_new: true, .. }))
    ));
}

#[test]
fn beacons_travel_three_hops() {
    let mut heard = announced(0);
    let mut hops: u8 = 0;
    while let Some(next) = relay(&heard) {
        heard = next;
        hops += 1;
        assert_eq!(heard.beacon.hop_count, hops);
    }
    assert_eq!(hops, 3);
}

#[test]
fn made_messages_read_back() {
    let alice = NodeIdentity::generate(None);
    let bob = NodeIdentity::generate(None);
    let key = x25519_pubkey_from_secret(&bob.secret_key_bytes());
    let msg = make_message(&alice, &bob.tan_id, &key, b"hi bob").expect("short plaintext");
    assert_eq!(msg.from_id, alice.tan_id);
    assert_eq!(msg.to_id, bob.tan_id);
    assert_eq!(msg.ttl, 5);
    assert_eq!(open_message(&msg, &bob), Ok(b"hi bob".to_vec()));
    assert_eq!(open_message(&msg, &alice), Err(CryptoError::DecryptionFailed));
    let signed = tanos::crypto::verify(&alice.verifying_key, &msg.payload, &msg.signature);
    assert_eq!(signed, Ok(()));
}

#[test]
fn message_ids_are_random_and_well_shaped() {
    let alice = NodeIdentity::generate(None);
    let key = x25519_pubkey_from_secret(&alice.secret_key_bytes());
    let one = make_message(&alice, "x", &key, b"").expect("short plaintext").id;
    let two = make_message(&alice, "x", &key, b"").expect("short plaintext").id;
    assert_ne!(one, two);
    let parsed = uuid::Uuid::parse_str(&one).expect("an identifier");
    assert_eq!(parsed.get_version_num(), 4);
    assert_eq!(parsed.to_string(), one);
    assert_eq!(one.len(), 36);
    let chars: Vec<char> = one.chars().collect();
    assert_eq!(chars[14], '4');
    assert!("89ab".contains(chars[19]));
    for i in [8usize, 13, 18, 23] {
        assert_eq!(chars[i], '-');
    }
}

#[test]
fn envelopes_are_exact() {
    let alice = NodeIdentity::generate(None);
    let key = x25519_pubkey_from_secret(&[9u8; 32]);
    let sealed = tanos::crypto::encrypt_with(&[7u8; 32], &[8u8; 12], &key, b"text")
        .expect("short plaintext");
    let ciphertext = sealed.ciphertext.clone();
    let msg = envelope(&alice, "id-1".to_string(), "bob", sealed);
    assert_eq!(msg.id, "id-1");
    assert_eq!(msg.to_id, "bob");
    assert_eq!(msg.nonce, [8u8; 12]);
    assert_eq!(msg.signature, tanos::crypto::sign(&alice.signing_key, &ciphertext));
    let text = decrypt(&[9u8; 32], &msg.ephemeral_pubkey, &msg.nonce, &msg.payload);
    assert_eq!(text, Ok(b"text".to_vec()));
}

#[test]
fn duplicates_are_told() {
    let mut seen = SeenMessages::new();
    assert!(!seen.check_and_insert("first"));
    assert!(seen.check_and_insert("first"));
    for i in 0usize..DEDUP_CAPACITY - 1 {
        assert!(!seen.check_and_insert(&format!("m{}", i)));
    }
    assert!(seen.check_and_insert("first"));
    assert!(!seen.check_and_insert("one more"));
    assert!(!seen.check_and_insert("first"));
    assert!(!seen.check_and_insert("m0"));
    assert!(seen.check_and_insert("m2"));
}

fn message_for(to_id: &str, ttl: u8) -> TanMessage {
    TanMessage {
        id: format!("{}-{}", to_id, ttl),
        from_id: "sender".to_string(),
        to_id: to_id.to_string(),
        payload: vec![1u8, 2, 3],
        ephemeral_pubkey: [4u8; 32],
        nonce: [5u8; 12],
        ttl,
        signature: [6u8; 64],
    }
}

#[test]
fn messages_are_forwarded_with_one_hop_less() {
    let mut table = PeerTable::new();
    let heard = announced(0);
    let to = heard.beacon.node_id.clone();
    table.upsert(&heard, at(3, 7701), 1);
    match forward_message(&message_for(&to, 5), &table) {
        Ok(Delivery::Forward { msg, next_hop }) => {
            assert_eq!(msg.ttl, 4);
            assert_eq!(msg.payload, vec![1u8, 2, 3]);
            assert_eq!(msg.to_id, to);
            assert_eq!(next_hop, at(3, 7701));
        }
        _ => panic!("the message is forwarded"),
    }
    assert!(matches!(forward_message(&message_for(&to, 0), &table), Ok(Delivery::Expired)));
    assert!(matches!(forward_message(&message_for("x", 0), &table), Ok(Delivery::Expired)));
    match forward_message(&message_for("x", 1), &table) {
        Err(e) => assert_eq!(e.message(), "no route to destination x"),
        Ok(_) => panic!("there is no route"),
    }
}

#[test]
fn messages_travel_as_far_as_their_hops() {
    let alice = NodeIdentity::generate(None);
    let bob = NodeIdentity::generate(None);
    let heard = Announcement::new(&bob, 7701);
    let mut table = PeerTable::new();
    table.upsert(&heard, at(3, 7701), 1);
    let mut msg = make_message(&alice, &bob.tan_id, &heard.encryption_pubkey, b"far away")
        .expect("short plaintext");
    for left in [4u8, 3, 2, 1, 0] {
        match forward_message(&msg, &table) {
            Ok(Delivery::Forward { msg: onward, .. }) => msg = onward,
            _ => panic!("the message has hops left"),
        }
        assert_eq!(msg.ttl, left);
    }
    assert!(matches!(forward_message(&msg, &table), Ok(Delivery::Expired)));
    let mut at_bob = PeerTable::new();
    at_bob.upsert(&Announcement::new(&alice, 7701), at(1, 7701), 1);
    match handle_own_message(&msg, &bob, &at_bob) {
        Ok(Delivery::Own(plaintext)) => assert_eq!(plaintext, b"far away"),
        _ => panic!("bob reads the message"),
    }
}

#[test]
fn messages_are_delivered_once() {
    let alice = NodeIdentity::generate(None);
    let bob = NodeIdentity::generate(None);
    let mut table = PeerTable::new();
    table.upsert(&Announcement::new(&alice, 7701), at(1, 7701), 1);
    let mut seen = SeenMessages::new();
    let key = x25519_pubkey_from_secret(&bob.secret_key_bytes());
    let msg = make_message(&alice, &bob.tan_id, &key, b"once").expect("short plaintext");
    match handle_message(&msg, &bob, &table, &mut seen) {
        Ok(Delivery::Own(plaintext)) => assert_eq!(plaintext, b"once"),
        _ => panic!("the message is for bob"),
    }
    assert!(matches!(handle_message(&msg, &bob, &table, &mut seen), Ok(Delivery::Duplicate)));
    let onward = handle_message(&message_for("far", 2), &bob, &table, &mut seen);
    assert!(matches!(onward, Err(TransportError::NoForwardRoute(_))));
}

#[test]
fn only_signed_messages_of_known_senders_are_delivered() {
    let alice = NodeIdentity::generate(None);
    let bob = NodeIdentity::generate(None);
    let mut table = PeerTable::new();
    let mut seen = SeenMessages::new();
    let key = x25519_pubkey_from_secret(&bob.secret_key_bytes());
    let msg = make_message(&alice, &bob.tan_id, &key, b"hello").expect("short plaintext");
    match handle_own_message(&msg, &bob, &table) {
        Err(e) => assert_eq!(e.message(), format!("unknown sender {}", alice.tan_id)),
        Ok(_) => panic!("alice is not known"),
    }
    table.upsert(&Announcement::new(&alice, 7701), at(1, 7701), 1);
    assert!(matches!(handle_own_message(&msg, &bob, &table), Ok(Delivery::Own(_))));
    let mut unsigned = msg.clone();
    unsigned.signature = [0u8; 64];
    match handle_message(&unsigned, &bob, &table, &mut seen) {
        Err(e) => assert_eq!(e.message(), "message signature invalid"),
        Ok(_) => panic!("alice did not sign this"),
    }
    let mallory = NodeIdentity::generate(None);
    let mut posed = make_message(&mallory, &bob.tan_id, &key, b"hello").expect("short plaintext");
    posed.from_id = alice.tan_id.clone();
    let refused = handle_message(&posed, &bob, &table, &mut seen);
    assert!(matches!(refused, Err(TransportError::BadSignature)));
    let elsewhere = x25519_pubkey_from_secret(&[9u8; 32]);
    let sealed = make_message(&alice, &bob.tan_id, &elsewhere, b"x").expect("short plaintext");
    match handle_message(&sealed, &bob, &table, &mut seen) {
        Err(e) => assert_eq!(e.message(), "failed to decrypt message"),
        Ok(_) => panic!("bob cannot read this"),
    }
}

#[test]
fn frames_read_back() {
    let bytes = frame(b"abc");
    assert_eq!(bytes, vec![0u8, 0, 0, 3, b'a', b'b', b'c']);
    assert!(matches!(read_length(&[0, 0, 0, 3]), Ok(3)));
    assert!(matches!(read_length(&[0, 1, 0, 0]), Ok(65_536)));
    assert_eq!(MAX_MESSAGE_SIZE, 65_536);
    match read_length(&[0, 1, 0, 1]) {
        Err(e) => assert_eq!(e.message(), "message too large: 65537 bytes (max 65536)"),
        Ok(_) => panic!("too large"),
    }
    assert_eq!(frame(b""), vec![0u8, 0, 0, 0]);
}

#[test]
fn sending_needs_a_route() {
    let alice = NodeIdentity::generate(None);
    let mut table = PeerTable::new();
    match send_message(&alice, &table, "bob", b"x") {
        Err(e) => assert_eq!(e.message(), "no route to bob"),
        Ok(_) => panic!("there is no route"),
    }
    let bob = NodeIdentity::generate(None);
    table.upsert(&Announcement::new(&bob, 7701), at(4, 7701), 1);
    let (msg, next_hop) = send_message(&alice, &table, &bob.tan_id, b"x").expect("routed");
    assert_eq!(next_hop, at(4, 7701));
    assert_eq!(msg.to_id, bob.tan_id);
    assert_eq!(open_message(&msg, &bob), Ok(b"x".to_vec()));
    let overheard = decrypt(
        &bob.public_key_bytes(),
        &msg.ephemeral_pubkey,
        &msg.nonce,
        &msg.payload,
    );
    assert_eq!(overheard, Err(CryptoError::DecryptionFailed));
    let mut at_bob = PeerTable::new();
    at_bob.upsert(&Announcement::new(&alice, 7701), at(5, 7701), 1);
    let mut seen = SeenMessages::new();
    match handle_message(&msg, &bob, &at_bob, &mut seen) {
        Ok(Delivery::Own(plaintext)) => assert_eq!(plaintext, b"x"),
        _ => panic!("bob reads what alice sent"),
    }
}

#[test]
fn transport_errors_have_texts() {
    let unknown = TransportError::UnknownPeer("bob".to_string());
    assert_eq!(unknown.message(), "peer bob not found in table");
    assert_eq!(TransportError::Encryption.message(), "failed to encrypt message payload");
}
