use tanos::crypto::{x25519_pubkey_from_secret, CryptoError};
use tanos::identity::NodeIdentity;
use tanos::wire::{
    deserialize, serialize, Announcement, DiscoveryBeacon, SignatureTextError, TanMessage,
};

#[test]
fn beacon_sign_and_verify() {
    let id = NodeIdentity::generate(None);
    let beacon = DiscoveryBeacon::new_signed(&id, 7701);
    assert!(beacon.verify_signature().is_ok());
}

#[test]
fn beacon_tampered_fails_verify() {
    let id = NodeIdentity::generate(None);
    let mut beacon = DiscoveryBeacon::new_signed(&id, 7701);
    beacon.hop_count = 99; // tamper
    assert!(beacon.verify_signature().is_err());
    assert_eq!(beacon.verify_signature(), Err(CryptoError::VerificationFailed));
}

#[test]
fn beacon_serialization_roundtrip() {
    let id = NodeIdentity::generate(None);
    let beacon = DiscoveryBeacon::new_signed(&id, 7701);
    let mut object = serde_json::Map::new();
    object.insert("node_id".to_string(), serde_json::Value::from(beacon.node_id.clone()));
    object.insert("public_key".to_string(), serde_json::Value::from(beacon.public_key.to_vec()));
    object.insert("listen_port".to_string(), serde_json::Value::from(beacon.listen_port));
    object.insert("hop_count".to_string(), serde_json::Value::from(beacon.hop_count));
    object.insert("timestamp".to_string(), serde_json::Value::from(beacon.timestamp));
    object.insert(
        "signature".to_string(),
        serde_json::Value::from(serialize(&beacon.signature)),
    );
    let json = serde_json::to_string(&serde_json::Value::Object(object)).expect("serialize");
    let value: serde_json::Value = serde_json::from_str(&json).expect("deserialize");
    let mut public_key = [0u8; 32];
    for (i, byte) in value["public_key"].as_array().expect("bytes").iter().enumerate() {
        public_key[i] = byte.as_u64().expect("byte") as u8;
    }
    let restored = DiscoveryBeacon {
        node_id: value["node_id"].as_str().expect("text").to_string(),
        public_key,
        listen_port: value["listen_port"].as_u64().expect("port") as u16,
        hop_count: value["hop_count"].as_u64().expect("hops") as u8,
        timestamp: value["timestamp"].as_u64().expect("time"),
        signature: deserialize(value["signature"].as_str().expect("text")).expect("deserialize"),
    };
    assert_eq!(beacon.node_id, restored.node_id);
    assert_eq!(beacon.signature, restored.signature);
    assert!(restored.verify_signature().is_ok());
}

fn small_beacon() -> DiscoveryBeacon {
    DiscoveryBeacon {
        node_id: "ab".to_string(),
        public_key: [5u8; 32],
        listen_port: 0x0102,
        hop_count: 3,
        timestamp: 0x0102030405060708,
        signature: [0u8; 64],
    }
}

#[test]
fn signed_bytes_are_laid_out_in_order() {
    let mut expected: Vec<u8> = vec![b'a', b'b'];
    expected.extend_from_slice(&[5u8; 32]);
    expected.extend_from_slice(&[2, 1, 3, 8, 7, 6, 5, 4, 3, 2, 1]);
    assert_eq!(small_beacon().signable_bytes(), expected);
}

#[test]
fn each_field_changes_the_signed_bytes() {
    let base = small_beacon().signable_bytes();
    let mut by_id = small_beacon();
    by_id.node_id = "ac".to_string();
    let mut by_key = small_beacon();
    by_key.public_key[31] = 6;
    let mut by_port = small_beacon();
    by_port.listen_port = 0x0202;
    let mut by_hop = small_beacon();
    by_hop.hop_count = 4;
    let mut by_time = small_beacon();
    by_time.timestamp += 1;
    for changed in [by_id, by_key, by_port, by_hop, by_time] {
        assert_ne!(changed.signable_bytes(), base);
    }
    let mut by_signature = small_beacon();
    by_signature.signature[0] = 1;
    assert_eq!(by_signature.signable_bytes(), base);
}

#[test]
fn changed_beacons_do_not_verify() {
    let id = NodeIdentity::generate(None);
    let beacon = DiscoveryBeacon::new_signed(&id, 7701);
    let mut by_id = beacon.clone();
    by_id.node_id.push('0');
    let mut by_port = beacon.clone();
    by_port.listen_port = 7702;
    let mut by_time = beacon.clone();
    by_time.timestamp += 1;
    for changed in [by_id, by_port, by_time] {
        assert!(changed.verify_signature().is_err());
        assert!(changed.verify_origin().is_err());
    }
    let mut relayed = beacon.clone();
    relayed.hop_count = 2;
    assert!(relayed.verify_signature().is_err());
    assert!(relayed.verify_origin().is_ok());
    assert!(beacon.verify_origin().is_ok());
}

#[test]
fn beacon_of_a_known_date() {
    let id = NodeIdentity::generate(None);
    let one = DiscoveryBeacon::new_signed_at(&id, 7701, 1000);
    let two = DiscoveryBeacon::new_signed_at(&id, 7701, 1000);
    assert_eq!(one.signature, two.signature);
    assert_eq!(one.node_id, id.tan_id);
    assert_eq!(one.public_key, id.public_key_bytes());
    assert_eq!(one.timestamp, 1000);
    assert_eq!(one.hop_count, 0);
    assert!(one.verify_signature().is_ok());
}

#[test]
fn new_beacon_is_dated_now() {
    let id = NodeIdentity::generate(None);
    let before = std::time::SystemTime::now()
        .duration_since(std::time::UNIX_EPOCH)
        .expect("after the epoch")
        .as_millis() as u64;
    let beacon = DiscoveryBeacon::new_signed(&id, 7701);
    assert!(beacon.timestamp >= before);
    assert!(beacon.timestamp < before + 60_000);
}

#[test]
fn beacon_without_a_key_is_refused() {
    let id = NodeIdentity::generate(None);
    let mut found: bool = false;
    for first in 0u8..=255 {
        let mut beacon = DiscoveryBeacon::new_signed(&id, 7701);
        beacon.public_key = [0u8; 32];
        beacon.public_key[0] = first;
        assert!(beacon.verify_signature().is_err());
        found = found || beacon.verify_signature() == Err(CryptoError::InvalidPublicKey);
    }
    assert!(found);
}

#[test]
fn signature_text() {
    let mut signature = [0u8; 64];
    signature[0] = 0xab;
    signature[63] = 0x01;
    let text = serialize(&signature);
    assert_eq!(text.len(), 128);
    assert!(text.starts_with("ab00"));
    assert!(text.ends_with("0001"));
    assert_eq!(deserialize(&text), Ok(signature));
    assert_eq!(deserialize(&text.to_uppercase()), Ok(signature));
    assert_eq!(deserialize("0g"), Err(SignatureTextError::NotHex));
    assert_eq!(deserialize("abc"), Err(SignatureTextError::NotHex));
    assert_eq!(deserialize("abcd"), Err(SignatureTextError::WrongLength(2)));
    assert_eq!(deserialize(""), Err(SignatureTextError::WrongLength(0)));
}

#[test]
fn announcement_gives_key_and_name() {
    let id = NodeIdentity::generate(Some("Dora".to_string()));
    let announcement = Announcement::new(&id, 7701);
    assert!(announcement.beacon.verify_signature().is_ok());
    assert_eq!(announcement.beacon.listen_port, 7701);
    assert_eq!(announcement.friendly_name, "Dora");
    assert_eq!(
        announcement.encryption_pubkey,
        x25519_pubkey_from_secret(&id.secret_key_bytes())
    );
    let copy = announcement.clone();
    assert_eq!(copy.beacon.signature, announcement.beacon.signature);
    assert_eq!(copy.friendly_name, "Dora");
}

#[test]
fn message_signs_its_payload() {
    let msg = TanMessage {
        id: "1".to_string(),
        from_id: "a".to_string(),
        to_id: "b".to_string(),
        payload: vec![1u8, 2, 3],
        ephemeral_pubkey: [4u8; 32],
        nonce: [5u8; 12],
        ttl: 5,
        signature: [6u8; 64],
    };
    assert_eq!(msg.signable_bytes(), vec![1u8, 2, 3]);
    let copy = msg.clone();
    assert_eq!(copy.payload, msg.payload);
    assert_eq!(copy.ttl, 5);
    assert_eq!(copy.to_id, "b");
}
