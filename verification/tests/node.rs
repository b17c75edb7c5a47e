use tanos::crypto::x25519_pubkey_from_secret;
use tanos::db::{SovereignDb, StoredPeer};
use tanos::identity::NodeIdentity;
use tanos::network::{
    is_publish_error, on_discovered, on_expired, EngineAction, NetworkEvent, NodeStep,
    PublishOutcome,
};
use tanos::node::{send_inner_message, AppState, Outgoing, PeerStatus};
use tanos::web::{
    approval_sent, console_approved, identity_saved, ApproveRequest, BindOutcome, ConsoleRequest,
    ConsoleStep, PortSearch, PortStep, SendRequest, UpdateIdentityRequest,
};
use tanos::wire::{Announcement, GossipPacket, InnerMessage};

fn node(name: &str) -> AppState {
    AppState::new(NodeIdentity::generate(Some(name.to_string())), SovereignDb::new())
}

fn announce(state: &AppState) -> Announcement {
    Announcement::new(&state.identity, 7701)
}

fn request(name: &str) -> InnerMessage {
    InnerMessage::FriendRequest { friendly_name: name.to_string() }
}

fn approval(name: &str) -> InnerMessage {
    InnerMessage::FriendApproval { friendly_name: name.to_string() }
}

fn status_of(state: &AppState, id: &str) -> PeerStatus {
    state.peer_table.get(id).expect("known").status
}

fn kinds(outgoing: &[Outgoing]) -> Vec<String> {
    outgoing
        .iter()
        .map(|o| match &o.inner {
            InnerMessage::FriendRequest { friendly_name } => format!("request {}", friendly_name),
            InnerMessage::FriendApproval { friendly_name } => format!("approval {}", friendly_name),
            InnerMessage::Text(text) => format!("text {}", text),
        })
        .collect()
}

#[test]
fn status_texts() {
    for status in [PeerStatus::PendingUs, PeerStatus::PendingThem, PeerStatus::Approved] {
        assert_eq!(PeerStatus::from_str(status.as_str()), status);
    }
    assert_eq!(PeerStatus::PendingUs.as_str(), "pending_us");
    assert_eq!(PeerStatus::PendingThem.as_str(), "pending_them");
    assert_eq!(PeerStatus::Approved.as_str(), "approved");
    assert_eq!(PeerStatus::from_str("anything"), PeerStatus::PendingThem);
}

#[test]
fn new_peer_is_asked() {
    let mut alice = node("Alice");
    let bob = node("Bob");
    let heard = announce(&bob);
    let sent = alice.on_beacon(&heard);
    assert_eq!(kinds(&sent), vec!["request Alice"]);
    assert_eq!(sent[0].recipient.beacon.node_id, bob.identity.tan_id);
    assert_eq!(status_of(&alice, &bob.identity.tan_id), PeerStatus::PendingThem);
    assert!(alice.on_beacon(&heard).is_empty());
    assert_eq!(alice.get_peers()[0].friendly_name, "Bob");
    assert_eq!(alice.get_peers()[0].status, "pending_them");
    assert_eq!(alice.get_peers()[0].hop_count, 0);
}

#[test]
fn beacons_refresh_what_is_known() {
    let mut alice = node("Alice");
    let bob = node("Bob");
    let id = bob.identity.tan_id.clone();
    alice.on_beacon(&announce(&bob));
    let mut nameless = announce(&bob);
    nameless.friendly_name = String::new();
    nameless.encryption_pubkey = [1u8; 32];
    alice.on_beacon(&nameless);
    let known = alice.peer_table.get(&id).expect("known");
    assert_eq!(known.friendly_name, "Bob");
    assert_eq!(known.beacon.encryption_pubkey, [1u8; 32]);
    let mut renamed = announce(&bob);
    renamed.friendly_name = "Robert".to_string();
    alice.on_beacon(&renamed);
    assert_eq!(alice.peer_table.get(&id).expect("known").friendly_name, "Robert");
}

#[test]
fn own_and_forged_beacons_are_ignored() {
    let mut alice = node("Alice");
    let own = announce(&alice);
    assert!(alice.on_beacon(&own).is_empty());
    let mut forged = announce(&node("Mallory"));
    forged.beacon.timestamp += 1;
    assert!(alice.on_beacon(&forged).is_empty());
    assert!(alice.get_peers().is_empty());
}

#[test]
fn approved_peer_is_greeted_with_approval() {
    let bob = node("Bob");
    let row = StoredPeer {
        tan_id: bob.identity.tan_id.clone(),
        friendly_name: "Bobby".to_string(),
        status: "approved".to_string(),
        first_seen: 1,
    };
    let db = SovereignDb::open(Vec::new(), vec![row], 0).expect("in order");
    let identity = NodeIdentity::generate(Some("Alice".to_string()));
    let mut alice = AppState::new(identity, db);
    let sent = alice.on_beacon(&announce(&bob));
    assert_eq!(kinds(&sent), vec!["request Alice", "approval Alice"]);
    let known = alice.peer_table.get(&bob.identity.tan_id).expect("known");
    assert_eq!(known.status, PeerStatus::Approved);
    assert_eq!(known.friendly_name, "Bobby");
}

#[test]
fn restart_keeps_what_was_approved() {
    let mut alice = node("Alice");
    let bob = node("Bob");
    let id = bob.identity.tan_id.clone();
    alice.on_beacon(&announce(&bob));
    alice.approve(&id, 5);
    let peers = alice.database.get_all_peers();
    let db = SovereignDb::open(Vec::new(), peers, 0).expect("in order");
    let mut again = AppState::new(alice.identity, db);
    assert!(again.get_peers().is_empty());
    again.on_beacon(&announce(&bob));
    assert_eq!(status_of(&again, &id), PeerStatus::Approved);
}

#[test]
fn request_waits_for_the_user() {
    let mut alice = node("Alice");
    let bob = node("Bob");
    let id = bob.identity.tan_id.clone();
    assert!(alice.on_inner(&id, &request("Bob"), 1).is_empty());
    assert!(alice.database.get_peer(&id).is_none());
    alice.on_beacon(&announce(&bob));
    assert!(alice.on_inner(&id, &request("Bobby"), 1).is_empty());
    assert_eq!(status_of(&alice, &id), PeerStatus::PendingUs);
    let stored = alice.database.get_peer(&id).expect("stored");
    assert_eq!(stored.status, "pending_us");
    assert_eq!(stored.friendly_name, "Bobby");
    assert!(alice.on_inner(&id, &request("Rob"), 2).is_empty());
    assert_eq!(alice.peer_table.get(&id).expect("known").friendly_name, "Rob");
    assert_eq!(alice.database.get_peer(&id).expect("stored").friendly_name, "Bobby");
}

#[test]
fn request_of_an_approved_peer_is_answered() {
    let mut alice = node("Alice");
    let bob = node("Bob");
    let id = bob.identity.tan_id.clone();
    alice.on_beacon(&announce(&bob));
    assert!(alice.on_inner(&id, &approval("Bob"), 1).is_empty());
    assert_eq!(status_of(&alice, &id), PeerStatus::Approved);
    assert_eq!(alice.database.get_peer(&id).expect("stored").status, "approved");
    let sent = alice.on_inner(&id, &request("Bob"), 2);
    assert_eq!(kinds(&sent), vec!["approval Alice"]);
    assert_eq!(status_of(&alice, &id), PeerStatus::Approved);
}

#[test]
fn text_is_kept_only_from_approved_peers() {
    let mut alice = node("Alice");
    let bob = node("Bob");
    let id = bob.identity.tan_id.clone();
    let text = InnerMessage::Text("hello".to_string());
    alice.on_inner(&id, &text, 1);
    alice.on_beacon(&announce(&bob));
    alice.on_inner(&id, &text, 2);
    assert!(alice.get_messages(&id).is_empty());
    alice.on_inner(&id, &approval("Bob"), 3);
    alice.on_inner(&id, &text, 4);
    let kept = alice.get_messages(&id);
    assert_eq!(kept.len(), 1);
    assert_eq!(kept[0].text, "hello");
    assert_eq!(kept[0].direction, "received");
    assert_eq!(kept[0].timestamp, 4);
}

#[test]
fn sent_payload_reads_at_the_peer() {
    let alice = node("Alice");
    let bob = node("Bob");
    let heard = announce(&bob);
    let msg = send_inner_message(&alice.identity, &heard, b"payload").expect("short payload");
    assert_eq!(msg.to_id, bob.identity.tan_id);
    assert_eq!(bob.read_message(&msg), Some(b"payload".to_vec()));
    assert_eq!(alice.read_message(&msg), None);
    let mut spoiled = msg.clone();
    spoiled.payload[0] ^= 1;
    assert_eq!(bob.read_message(&spoiled), None);
}

#[test]
fn events_come_to_steps() {
    let mut alice = node("Alice");
    let bob = node("Bob");
    let found: NetworkEvent<u32> = NetworkEvent::PeerDiscovered(1);
    assert!(matches!(alice.on_event(&found), NodeStep::Idle));
    let lost: NetworkEvent<u32> = NetworkEvent::PeerExpired(1);
    assert!(matches!(alice.on_event(&lost), NodeStep::Idle));
    let beacon: NetworkEvent<u32> =
        NetworkEvent::PacketReceived(GossipPacket::Beacon { data: announce(&bob) });
    match alice.on_event(&beacon) {
        NodeStep::Send(sent) => assert_eq!(kinds(&sent), vec!["request Alice"]),
        _ => panic!("a new peer is asked"),
    }
    let msg = send_inner_message(&bob.identity, &announce(&alice), b"{}").expect("short payload");
    let packet: NetworkEvent<u32> =
        NetworkEvent::PacketReceived(GossipPacket::Message { data: msg });
    match alice.on_event(&packet) {
        NodeStep::Parse { from_id, plaintext } => {
            assert_eq!(from_id, bob.identity.tan_id);
            assert_eq!(plaintext, b"{}");
        }
        _ => panic!("the message is for alice"),
    }
    let mut other = node("Carol");
    assert!(matches!(other.on_event(&packet), NodeStep::Idle));
}

#[test]
fn engine_follows_discovery() {
    let actions = on_discovered(&vec![(1u32, 10u32), (2, 20)]);
    assert_eq!(actions.len(), 6);
    assert!(matches!(actions[0], EngineAction::Dial(10)));
    assert!(matches!(actions[1], EngineAction::AddPeer(1)));
    assert!(matches!(actions[2], EngineAction::Notify(NetworkEvent::PeerDiscovered(1))));
    assert!(matches!(actions[3], EngineAction::Dial(20)));
    let gone = on_expired(&vec![(1u32, 10u32)]);
    assert_eq!(gone.len(), 2);
    assert!(matches!(gone[0], EngineAction::RemovePeer(1)));
    assert!(matches!(gone[1], EngineAction::Notify(NetworkEvent::PeerExpired(1))));
    assert!(is_publish_error(PublishOutcome::Failed));
    assert!(!is_publish_error(PublishOutcome::NoPeers));
    assert!(!is_publish_error(PublishOutcome::Published));
}

#[test]
fn dashboard_reads() {
    let alice = node("Alice");
    let status = alice.get_status();
    assert!(status.online);
    assert_eq!(status.tan_id, alice.identity.tan_id);
    let identity = alice.get_identity();
    assert_eq!(identity.friendly_name, "Alice");
    assert_eq!(identity.public_key, hex::encode(alice.identity.public_key_bytes()));
    assert!(alice.get_conversations().is_empty());
}

#[test]
fn names_cannot_be_blank() {
    let mut alice = node("Alice");
    let blank = UpdateIdentityRequest { friendly_name: " \t".to_string() };
    let refused = alice.update_identity(&blank).expect("refused");
    assert!(!refused.ok);
    assert_eq!(refused.message, "Name cannot be empty");
    assert_eq!(alice.identity.friendly_name, "Alice");
    let name = UpdateIdentityRequest { friendly_name: " Al ".to_string() };
    assert!(alice.update_identity(&name).is_none());
    assert_eq!(alice.identity.friendly_name, " Al ");
    let saved = identity_saved(&Ok(()));
    assert!(saved.ok);
    assert_eq!(saved.message, "Name updated");
    let failed = identity_saved(&Err("disk full".to_string()));
    assert!(!failed.ok);
    assert_eq!(failed.message, "Failed to save: disk full");
}

#[test]
fn approving_over_the_dashboard() {
    let mut alice = node("Alice");
    let bob = node("Bob");
    let id = bob.identity.tan_id.clone();
    let req = ApproveRequest { tan_id: id.clone() };
    match alice.approve_peer(&req, 1) {
        Err(answer) => assert_eq!(answer.message, "Peer not found"),
        Ok(_) => panic!("nobody is known"),
    }
    alice.on_beacon(&announce(&bob));
    match alice.approve_peer(&req, 7) {
        Ok(outgoing) => assert_eq!(kinds(&[outgoing]), vec!["approval Alice"]),
        Err(_) => panic!("bob is known"),
    }
    assert_eq!(status_of(&alice, &id), PeerStatus::Approved);
    let stored = alice.database.get_peer(&id).expect("stored");
    assert_eq!(stored.status, "approved");
    assert_eq!(stored.first_seen, 7);
    assert_eq!(alice.get_peers()[0].status, "approved");
    assert_eq!(approval_sent(&id, &Ok(())).message, format!("Approved {}", id));
    let failed = approval_sent(&id, &Err("closed".to_string()));
    assert!(!failed.ok);
    assert_eq!(failed.message, "Approved locally but send failed: closed");
}

#[test]
fn sending_over_the_dashboard() {
    let mut alice = node("Alice");
    let bob = node("Bob");
    let id = bob.identity.tan_id.clone();
    let req = SendRequest { tan_id: id.clone(), message: "hi".to_string() };
    match alice.send_message(&req) {
        Err(answer) => assert_eq!(answer.message, "Peer not found"),
        Ok(_) => panic!("nobody is known"),
    }
    alice.on_beacon(&announce(&bob));
    match alice.send_message(&req) {
        Err(answer) => assert_eq!(answer.message, "Peer not approved yet"),
        Ok(_) => panic!("bob is not approved"),
    }
    alice.approve(&id, 1);
    match alice.send_message(&req) {
        Ok(outgoing) => assert_eq!(kinds(&[outgoing]), vec!["text hi"]),
        Err(_) => panic!("bob is approved"),
    }
    let failed = alice.message_sent(&req, &Err("closed".to_string()), 2);
    assert!(!failed.ok);
    assert_eq!(failed.message, "Failed: closed");
    assert!(alice.get_messages(&id).is_empty());
    let sent = alice.message_sent(&req, &Ok(()), 3);
    assert!(sent.ok);
    assert_eq!(sent.message, "Sent");
    assert_eq!(alice.get_messages(&id)[0].direction, "sent");
    assert_eq!(alice.get_conversations()[0].last_message, "hi");
}

fn typed(state: &mut AppState, line: &str) -> String {
    match state.execute_command(&ConsoleRequest { command: line.to_string() }, 1) {
        ConsoleStep::Say(response) => response.output,
        ConsoleStep::Approve { tan_id, .. } => format!("<approve {}>", tan_id),
        ConsoleStep::Send { tan_id, message, .. } => format!("<send {} {}>", tan_id, message),
    }
}

#[test]
fn console_commands() {
    let mut alice = node("Alice");
    let bob = node("Bob");
    let id = bob.identity.tan_id.clone();
    assert_eq!(typed(&mut alice, "  "), "");
    assert_eq!(
        typed(&mut alice, "help"),
        "Available commands: id, peers, approve <id>, send <id> <msg>, clear, help"
    );
    let expected = format!(
        "Identity:\n  TanID: {}\n  Name:  Alice\n  Key:   {}",
        alice.identity.tan_id,
        hex::encode(alice.identity.public_key_bytes())
    );
    assert_eq!(typed(&mut alice, " id "), expected);
    assert_eq!(typed(&mut alice, "peers"), "No peers discovered yet.");
    assert_eq!(typed(&mut alice, "approve"), "Usage: approve <tan_id>");
    assert_eq!(typed(&mut alice, "approve x"), "Peer not found: x");
    assert_eq!(typed(&mut alice, "send x"), "Usage: send <tan_id> <message...>");
    assert_eq!(typed(&mut alice, "send x y"), "Peer not found: x");
    assert_eq!(typed(&mut alice, "fly away"), "Unknown command: fly");
    alice.on_beacon(&announce(&bob));
    assert_eq!(
        typed(&mut alice, "peers"),
        format!("Discovered Peers:\n  - Bob [{}] (PendingThem)\n", id)
    );
    assert_eq!(typed(&mut alice, &format!("send {} hi", id)), "Peer not approved yet.");
    assert_eq!(typed(&mut alice, &format!("approve {}", id)), format!("<approve {}>", id));
    assert_eq!(
        typed(&mut alice, &format!("send {}  hi   there", id)),
        format!("<send {} hi there>", id)
    );
    assert_eq!(console_approved(&id, &Ok(())).output, format!("Approved peer: {}", id));
    assert_eq!(
        console_approved(&id, &Err("closed".to_string())).output,
        "Approved locally but send failed: closed"
    );
    let failed = alice.console_sent(&id, "hi", &Err("closed".to_string()), 1);
    assert_eq!(failed.output, "Failed to send: closed");
    let sent = alice.console_sent(&id, "hi", &Ok(()), 1);
    assert_eq!(sent.output, format!("Message sent to {}", id));
    assert_eq!(alice.get_messages(&id).len(), 1);
}

#[test]
fn ports_are_tried_in_turn() {
    let mut search = PortSearch::new(7700);
    let mut tried: Vec<u16> = vec![search.port];
    loop {
        match search.step(BindOutcome::InUse) {
            PortStep::Try(next) => {
                tried.push(next.port);
                search = next;
            }
            step => {
                assert_eq!(step, PortStep::Exhausted);
                break;
            }
        }
    }
    let expected: Vec<u16> = (7700..7710).collect();
    assert_eq!(tried, expected);
    assert_eq!(search.step(BindOutcome::Bound), PortStep::Serve(7709));
    assert_eq!(search.step(BindOutcome::Failed), PortStep::Abandon);
}

#[test]
fn handshake_between_two_nodes() {
    let mut alice = node("Alice");
    let mut bob = node("Bob");
    let alice_id = alice.identity.tan_id.clone();
    let bob_id = bob.identity.tan_id.clone();
    alice.on_beacon(&announce(&bob));
    bob.on_beacon(&announce(&alice));
    alice.on_inner(&bob_id, &request("Bob"), 1);
    bob.on_inner(&alice_id, &request("Alice"), 1);
    let from_alice = alice.approve(&bob_id, 2).expect("bob is known");
    bob.on_inner(&alice_id, &from_alice.inner, 3);
    assert_eq!(status_of(&alice, &bob_id), PeerStatus::Approved);
    assert_eq!(status_of(&bob, &alice_id), PeerStatus::PendingUs);
    assert_eq!(bob.database.get_peer(&alice_id).expect("stored").status, "pending_us");
    bob.on_inner(&alice_id, &InnerMessage::Text("early".to_string()), 3);
    assert!(bob.get_messages(&alice_id).is_empty());
    let from_bob = bob.approve(&alice_id, 4).expect("alice is known");
    alice.on_inner(&bob_id, &from_bob.inner, 5);
    assert_eq!(status_of(&alice, &bob_id), PeerStatus::Approved);
    assert_eq!(status_of(&bob, &alice_id), PeerStatus::Approved);
    bob.on_inner(&alice_id, &InnerMessage::Text("hi".to_string()), 6);
    assert_eq!(bob.get_messages(&alice_id).len(), 1);
    assert_eq!(
        announce(&alice).encryption_pubkey,
        x25519_pubkey_from_secret(&alice.identity.secret_key_bytes())
    );
}

#[test]
fn awaited_approval_approves() {
    let mut alice = node("Alice");
    let bob = node("Bob");
    let id = bob.identity.tan_id.clone();
    alice.on_beacon(&announce(&bob));
    assert_eq!(status_of(&alice, &id), PeerStatus::PendingThem);
    alice.on_inner(&id, &approval("Bob"), 1);
    assert_eq!(status_of(&alice, &id), PeerStatus::Approved);
    let mut carol = node("Carol");
    carol.on_beacon(&announce(&bob));
    carol.on_inner(&id, &request("Bob"), 1);
    carol.on_inner(&id, &approval("Bobby"), 2);
    assert_eq!(status_of(&carol, &id), PeerStatus::PendingUs);
    assert_eq!(carol.peer_table.get(&id).expect("known").friendly_name, "Bobby");
}
