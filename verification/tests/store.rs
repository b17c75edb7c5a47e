use tanos::db::{SovereignDb, StoreError, StoredMessage, StoredPeer};

fn message(id: i64, direction: &str, timestamp: i64) -> StoredMessage {
    StoredMessage {
        id,
        peer_id: "p".to_string(),
        text: format!("m{}", id),
        direction: direction.to_string(),
        timestamp,
    }
}

fn peer(tan_id: &str, first_seen: i64) -> StoredPeer {
    StoredPeer {
        tan_id: tan_id.to_string(),
        friendly_name: "n".to_string(),
        status: "approved".to_string(),
        first_seen,
    }
}

fn texts(messages: &[StoredMessage]) -> Vec<String> {
    messages.iter().map(|m| m.text.clone()).collect()
}

#[test]
fn messages_are_numbered_and_ordered() {
    let mut db = SovereignDb::new();
    assert_eq!(db.save_message_at("bob", "second", "sent", 20), Ok(1));
    assert_eq!(db.save_message_at("bob", "first", "received", 10), Ok(2));
    assert_eq!(db.save_message_at("eve", "other", "sent", 15), Ok(3));
    assert_eq!(db.save_message_at("bob", "third", "sent", 20), Ok(4));
    let with_bob = db.get_messages_with_peer("bob");
    assert_eq!(texts(&with_bob), vec!["first", "second", "third"]);
    assert_eq!(with_bob[0].id, 2);
    assert_eq!(with_bob[0].direction, "received");
    assert_eq!(texts(&db.get_messages_since(1)), vec!["first", "other", "third"]);
    assert!(db.get_messages_since(4).is_empty());
    assert!(db.get_messages_with_peer("nobody").is_empty());
}

#[test]
fn directions_are_checked() {
    let mut db = SovereignDb::new();
    assert_eq!(db.save_message_at("bob", "x", "lost", 1), Err(StoreError::Direction));
    assert!(db.get_messages_since(0).is_empty());
    assert_eq!(db.save_message_at("bob", "x", "sent", 1), Ok(1));
}

#[test]
fn messages_are_dated_now() {
    let mut db = SovereignDb::new();
    let now = std::time::SystemTime::now()
        .duration_since(std::time::UNIX_EPOCH)
        .expect("after the epoch")
        .as_secs() as i64;
    assert_eq!(db.save_message("bob", "x", "sent"), Ok(1));
    let stamp: i64 = db.get_messages_with_peer("bob")[0].timestamp;
    assert!(stamp >= now && stamp < now + 60);
    db.upsert_peer("bob", "Bob", "approved");
    let seen: i64 = db.get_peer("bob").expect("stored").first_seen;
    assert!(seen >= now && seen < now + 60);
}

#[test]
fn ids_run_out() {
    let mut db = SovereignDb::open(Vec::new(), Vec::new(), i64::MAX).expect("in order");
    assert_eq!(db.save_message_at("bob", "x", "sent", 1), Err(StoreError::Full));
    let mut nearly = SovereignDb::open(Vec::new(), Vec::new(), i64::MAX - 1).expect("in order");
    assert_eq!(nearly.save_message_at("bob", "x", "sent", 1), Ok(i64::MAX));
}

#[test]
fn rows_are_taken_back() {
    let rows = vec![message(2, "sent", 5), message(7, "received", 4)];
    let mut db = SovereignDb::open(rows, vec![peer("a", 1), peer("b", 2)], 9).expect("in order");
    assert_eq!(texts(&db.get_messages_with_peer("p")), vec!["m7", "m2"]);
    assert_eq!(db.get_peer("b").expect("stored").first_seen, 2);
    assert_eq!(db.save_message_at("p", "next", "sent", 6), Ok(10));
}

#[test]
fn next_id_is_above_every_other() {
    let above = vec![message(-4, "sent", 1), message(3, "sent", 1)];
    let mut db = SovereignDb::open(above, Vec::new(), 2).expect("in order");
    assert_eq!(db.get_messages_since(-5).len(), 2);
    assert_eq!(db.save_message_at("p", "next", "sent", 6), Ok(4));
    let mut below = SovereignDb::open(Vec::new(), Vec::new(), -1).expect("in order");
    assert_eq!(below.save_message_at("p", "first", "sent", 6), Ok(1));
}

#[test]
fn polling_gives_each_message_once() {
    let mut db = SovereignDb::new();
    let mut polled: Vec<i64> = Vec::new();
    let mut greatest: i64 = 0;
    for round in 0i64..4 {
        for n in 0i64..round {
            let _ = db.save_message_at("p", "x", "sent", 100 - n);
        }
        for m in db.get_messages_since(greatest) {
            polled.push(m.id);
        }
        greatest = polled.iter().copied().max().unwrap_or(greatest);
    }
    polled.sort();
    assert_eq!(polled, vec![1i64, 2, 3, 4, 5, 6]);
}

#[test]
fn broken_rows_are_refused() {
    let unordered = vec![message(3, "sent", 1), message(2, "sent", 1)];
    assert_eq!(SovereignDb::open(unordered, Vec::new(), 9).err(), Some(StoreError::Corrupt));
    let sideways = vec![message(1, "sideways", 1)];
    assert_eq!(SovereignDb::open(sideways, Vec::new(), 9).err(), Some(StoreError::Corrupt));
    let twice = vec![peer("a", 1), peer("a", 2)];
    assert_eq!(SovereignDb::open(Vec::new(), twice, 9).err(), Some(StoreError::Corrupt));
    let same = vec![message(3, "sent", 1), message(3, "sent", 2)];
    assert_eq!(SovereignDb::open(same, Vec::new(), 9).err(), Some(StoreError::Corrupt));
}

#[test]
fn conversations_show_the_latest_message() {
    let mut db = SovereignDb::new();
    assert!(db.get_conversations().is_empty());
    let _ = db.save_message_at("bob", "b1", "sent", 10);
    let _ = db.save_message_at("eve", "e1", "received", 30);
    let _ = db.save_message_at("bob", "b2", "received", 20);
    let previews = db.get_conversations();
    assert_eq!(previews.len(), 2);
    assert_eq!(previews[0].peer_id, "eve");
    assert_eq!(previews[0].message_count, 1);
    assert_eq!(previews[1].peer_id, "bob");
    assert_eq!(previews[1].last_message, "b2");
    assert_eq!(previews[1].last_direction, "received");
    assert_eq!(previews[1].last_timestamp, 20);
    assert_eq!(previews[1].message_count, 2);
}

#[test]
fn latest_is_by_id_and_not_by_time() {
    let mut db = SovereignDb::new();
    let _ = db.save_message_at("bob", "late clock", "sent", 100);
    let _ = db.save_message_at("bob", "early clock", "sent", 50);
    assert_eq!(db.get_conversations()[0].last_message, "early clock");
}

#[test]
fn peers_are_added_and_changed() {
    let mut db = SovereignDb::new();
    assert!(db.get_peer("bob").is_none());
    db.upsert_peer_at("bob", "Bob", "pending_us", 5);
    db.upsert_peer_at("bob", "", "approved", 9);
    let bob = db.get_peer("bob").expect("stored");
    assert_eq!(bob.friendly_name, "Bob");
    assert_eq!(bob.status, "approved");
    assert_eq!(bob.first_seen, 5);
    db.upsert_peer_at("bob", "Robert", "approved", 9);
    assert_eq!(db.get_peer("bob").expect("stored").friendly_name, "Robert");
    db.update_peer_status("bob", "pending_them");
    assert_eq!(db.get_peer("bob").expect("stored").status, "pending_them");
    db.update_peer_status("eve", "approved");
    assert!(db.get_peer("eve").is_none());
}

#[test]
fn peers_are_listed_newest_first() {
    let mut db = SovereignDb::new();
    db.upsert_peer_at("a", "A", "approved", 2);
    db.upsert_peer_at("b", "B", "approved", 3);
    db.upsert_peer_at("c", "C", "approved", 1);
    let ids: Vec<String> = db.get_all_peers().iter().map(|p| p.tan_id.clone()).collect();
    assert_eq!(ids, vec!["b", "a", "c"]);
}
