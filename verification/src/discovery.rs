//! Discovery: which beacons a node takes in, which it passes on, and where it sends its
//! own.
//!
//! A node broadcasts its signed beacon every few seconds. Incoming beacons are verified,
//! entered in the peer table, and passed on with an incremented hop count while they have
//! not travelled too far, so that nodes out of each other's range still discover each
//! other. Such a beacon carries the signature that its sender made before any hop.
use crate::bytes::{le16, le64};
use crate::crypto::{ed25519_accepts, ed25519_key_decodes, CryptoError};
use crate::identity::NodeIdentity;
use crate::peers::{Endpoint, Ip, PeerTable, PeerTableView, PeerView};
use crate::table::lists;
use crate::text;
use crate::wire::{
    announcement_of, Announcement, AnnouncementView, BeaconView, DiscoveryBeacon,
};
use vstd::prelude::*;
use vstd::utf8::*;

verus! {

/// Default UDP port for discovery beacons.
pub const DISCOVERY_PORT: u16 = 7700;

/// Seconds between two broadcasts of a node's own beacon.
pub const BEACON_INTERVAL: u64 = 5;

/// Maximum number of hops that a beacon which is passed on may travel.
pub const MAX_HOP_COUNT: u8 = 3;

/// Maximum size of a single datagram that is accepted.
pub const MAX_DATAGRAM: usize = 4096;

/// The address of everyone on the local network.
pub open spec fn everyone() -> Endpoint {
    Endpoint { ip: Ip::V4([255u8, 255, 255, 255]), port: DISCOVERY_PORT }
}

/// The address of everyone on the local network.
pub fn broadcast_addr() -> (addr: Endpoint)
    ensures
        addr == everyone(),
{
    Endpoint { ip: Ip::V4([255u8, 255, 255, 255]), port: DISCOVERY_PORT }
}

/// The destinations are everyone on the local network and then each of the peers, at
/// their own addresses and the discovery port.
pub open spec fn reaches(destinations: Seq<Endpoint>, peers: Seq<PeerView>) -> bool {
    &&& destinations.len() == peers.len() + 1
    &&& destinations[0] == everyone()
    &&& forall|i: int|
        0 <= i < peers.len() ==> #[trigger] destinations[i + 1] == (Endpoint {
            ip: peers[i].addr.ip,
            port: DISCOVERY_PORT,
        })
}

/// Where a node sends its own beacon: to everyone, and to each known peer directly.
pub fn beacon_destinations(peer_table: &PeerTable) -> (destinations: Vec<Endpoint>)
    ensures
        exists|ids: Seq<Seq<char>>, peers: Seq<PeerView>|
            #![trigger lists(peer_table@.peers, ids, peers)]
            lists(peer_table@.peers, ids, peers) && reaches(destinations@, peers),
{
    let peers = peer_table.snapshot_peers();
    let ghost views = crate::peers::peer_views(peers@);
    let mut destinations: Vec<Endpoint> = Vec::new();
    destinations.push(broadcast_addr());
    let mut i: usize = 0;
    while i < peers.len()
        invariant
            i <= peers@.len(),
            views == crate::peers::peer_views(peers@),
            destinations@.len() == i + 1,
            destinations@[0] == everyone(),
            forall|j: int|
                0 <= j < i ==> #[trigger] destinations@[j + 1] == (Endpoint {
                    ip: views[j].addr.ip,
                    port: DISCOVERY_PORT,
                }),
        decreases peers@.len() - i,
    {
        destinations.push(Endpoint { ip: peers[i].addr.ip, port: DISCOVERY_PORT });
        i = i + 1;
    }
    assert(reaches(destinations@, views));
    destinations
}

/// A node's own beacon, dated now, and where to send it.
pub fn broadcast_beacon(identity: &NodeIdentity, tcp_port: u16, peer_table: &PeerTable) -> (r: (
    Announcement,
    Vec<Endpoint>,
))
    ensures
        r.0@ == announcement_of(identity@, tcp_port, r.0.beacon.timestamp),
        identity.well_formed() ==> r.0@.beacon.authentic(),
        exists|ids: Seq<Seq<char>>, peers: Seq<PeerView>|
            #![trigger lists(peer_table@.peers, ids, peers)]
            lists(peer_table@.peers, ids, peers) && reaches(r.1@, peers),
{
    (Announcement::new(identity, tcp_port), beacon_destinations(peer_table))
}

/// What became of an incoming beacon.
pub enum BeaconOutcome {
    /// It was the node's own, and was ignored.
    Own,
    /// It was entered in the peer table.
    Taken {
        /// Whether it announces a peer that was not known.
        is_new: bool,
        /// What to pass on to everyone, if the beacon may travel further.
        relayed: Option<Announcement>,
    },
}

/// The beacon one hop further. The signature is kept as it came.
pub open spec fn one_hop_further(heard: AnnouncementView) -> AnnouncementView {
    AnnouncementView {
        beacon: BeaconView { hop_count: (heard.beacon.hop_count + 1) as u8, ..heard.beacon },
        ..heard
    }
}

/// What is passed on of a beacon: the beacon one hop further, or nothing where it has
/// travelled far enough.
pub open spec fn passed_on(heard: AnnouncementView) -> Option<AnnouncementView> {
    if heard.beacon.hop_count < MAX_HOP_COUNT {
        Some(one_hop_further(heard))
    } else {
        None
    }
}

/// What is passed on of a beacon.
pub fn relay(heard: &Announcement) -> (relayed: Option<Announcement>)
    ensures
        match relayed {
            Some(r) => passed_on(heard@) == Some(r@),
            None => passed_on(heard@) is None,
        },
{
    if heard.beacon.hop_count < MAX_HOP_COUNT {
        let mut relayed = heard.clone();
        relayed.beacon.hop_count = heard.beacon.hop_count + 1;
        assert(relayed@ =~= one_hop_further(heard@));
        Some(relayed)
    } else {
        None
    }
}

/// Whether a beacon is admitted. Its signature has to verify; that of a beacon which may
/// have been passed on may also be the one that was made before any hop.
pub open spec fn admitted(beacon: BeaconView) -> Result<(), CryptoError> {
    if beacon.verdict() is Ok || beacon.hop_count > MAX_HOP_COUNT {
        beacon.verdict()
    } else {
        beacon.as_sent().verdict()
    }
}

/// Decide whether a beacon is admitted.
pub fn check_beacon(beacon: &DiscoveryBeacon) -> (verdict: Result<(), CryptoError>)
    ensures
        verdict == admitted(beacon@),
{
    let verdict = beacon.verify_signature();
    if verdict.is_ok() || beacon.hop_count > MAX_HOP_COUNT {
        verdict
    } else {
        beacon.verify_origin()
    }
}

/// What an incoming beacon comes to: the peer table after it, and what is passed on, unless
/// it is the node's own or is not admitted.
pub enum Heard {
    Own,
    Refused(CryptoError),
    Taken { table: PeerTableView, relayed: Option<AnnouncementView> },
}

/// What an incoming beacon comes to. A node's own beacon is ignored, and one that is not
/// admitted is refused. Any other is entered in the peer table under the address it came
/// from and the port that it announces, and may be passed on.
pub open spec fn heard_beacon(
    heard: AnnouncementView,
    src_ip: Ip,
    own_id: Seq<char>,
    table: PeerTableView,
    now: u64,
) -> Heard {
    if heard.beacon.node_id == own_id {
        Heard::Own
    } else {
        match admitted(heard.beacon) {
            Err(e) => Heard::Refused(e),
            Ok(()) => Heard::Taken {
                table: table.upserted(
                    heard,
                    Endpoint { ip: src_ip, port: heard.beacon.listen_port },
                    now,
                ),
                relayed: passed_on(heard),
            },
        }
    }
}

/// The outcome, and the table after it, are those that the beacon comes to.
pub open spec fn outcome_of(
    outcome: Result<BeaconOutcome, CryptoError>,
    came_to: Heard,
    was_known: bool,
    before: PeerTableView,
    after: PeerTableView,
) -> bool {
    match came_to {
        Heard::Own => outcome == Ok::<BeaconOutcome, CryptoError>(BeaconOutcome::Own) && after
            == before,
        Heard::Refused(e) => outcome == Err::<BeaconOutcome, CryptoError>(e) && after == before,
        Heard::Taken { table, relayed: expected } => {
            &&& outcome matches Ok(BeaconOutcome::Taken { is_new, relayed })
            &&& after == table
            &&& is_new == !was_known
            &&& match relayed {
                Some(r) => expected == Some(r@),
                None => expected is None,
            }
        },
    }
}

/// Process an incoming beacon. One that is taken in has a hop count that can be raised.
pub fn handle_beacon(
    heard: &Announcement,
    src_ip: Ip,
    our_identity: &NodeIdentity,
    peer_table: &mut PeerTable,
    now: u64,
) -> (outcome: Result<BeaconOutcome, CryptoError>)
    requires
        heard_beacon(heard@, src_ip, our_identity@.tan_id, old(peer_table)@, now) is Taken
            ==> heard.beacon.hop_count < u8::MAX,
    ensures
        outcome_of(
            outcome,
            heard_beacon(heard@, src_ip, our_identity@.tan_id, old(peer_table)@, now),
            old(peer_table)@.peers.contains_key(heard@.beacon.node_id),
            old(peer_table)@,
            final(peer_table)@,
        ),
{
    if text::same(heard.beacon.node_id.as_str(), our_identity.tan_id.as_str()) {
        return Ok(BeaconOutcome::Own);
    }
    match check_beacon(&heard.beacon) {
        Ok(()) => {},
        Err(e) => {
            return Err(e);
        },
    }
    let addr = Endpoint { ip: src_ip, port: heard.beacon.listen_port };
    let is_new = peer_table.upsert(heard, addr, now);
    Ok(BeaconOutcome::Taken { is_new, relayed: relay(heard) })
}

/// Process any incoming beacon. Returns nothing for one that would be taken in but whose
/// hop count cannot be raised; the peer table is then left as it was.
pub fn receive_beacon(
    heard: &Announcement,
    src_ip: Ip,
    our_identity: &NodeIdentity,
    peer_table: &mut PeerTable,
    now: u64,
) -> (outcome: Option<Result<BeaconOutcome, CryptoError>>)
    ensures
        ({
            let came_to = heard_beacon(
                heard@,
                src_ip,
                our_identity@.tan_id,
                old(peer_table)@,
                now,
            );
            match outcome {
                Some(o) => {
                    &&& came_to is Taken ==> heard.beacon.hop_count < u8::MAX
                    &&& outcome_of(
                        o,
                        came_to,
                        old(peer_table)@.peers.contains_key(heard@.beacon.node_id),
                        old(peer_table)@,
                        final(peer_table)@,
                    )
                },
                None => {
                    &&& came_to is Taken
                    &&& heard.beacon.hop_count == u8::MAX
                    &&& final(peer_table)@ == old(peer_table)@
                },
            }
        }),
{
    let own = text::same(heard.beacon.node_id.as_str(), our_identity.tan_id.as_str());
    if heard.beacon.hop_count == u8::MAX && !own && check_beacon(&heard.beacon).is_ok() {
        return None;
    }
    Some(handle_beacon(heard, src_ip, our_identity, peer_table, now))
}

/// A beacon is refused where its signature does not verify, unless it has come no further
/// than beacons travel and carries the signature that was made before any hop; one whose
/// signature verifies is never refused.
pub proof fn law_only_relayed_beacons_are_excused(beacon: BeaconView)
    ensures
        beacon.verdict() is Ok ==> admitted(beacon) is Ok,
        beacon.hop_count > MAX_HOP_COUNT ==> admitted(beacon) == beacon.verdict(),
        admitted(beacon) is Ok ==> beacon.authentic() || (beacon.hop_count <= MAX_HOP_COUNT
            && beacon.as_sent().authentic()),
{
}

/// A beacon travels at most the maximum number of hops: what is passed on has come one hop
/// further and no further than that, and differs in nothing else.
pub proof fn law_relayed_beacons_stay_in_range(heard: AnnouncementView)
    ensures
        passed_on(heard) matches Some(relayed) ==> {
            &&& relayed.beacon.hop_count == heard.beacon.hop_count + 1
            &&& relayed.beacon.hop_count <= MAX_HOP_COUNT
            &&& relayed == (AnnouncementView {
                beacon: BeaconView {
                    hop_count: relayed.beacon.hop_count,
                    ..heard.beacon
                },
                ..heard
            })
        },
{
}

/// What is passed on is the same beacon as it was sent, and is admitted wherever the beacon
/// that came carries the signature made before any hop.
pub proof fn law_relaying_keeps_the_origin(heard: AnnouncementView)
    ensures
        passed_on(heard) matches Some(relayed) ==> {
            &&& relayed.beacon.as_sent() == heard.beacon.as_sent()
            &&& heard.beacon.as_sent().authentic() ==> admitted(relayed.beacon) is Ok
        },
{
}

/// Nodes out of each other's range discover each other: a node's own beacon that a second
/// node takes in is passed on, a third node takes in what was passed on, and then knows the
/// first one, two hops away, with the keys that it announced.
pub proof fn law_beacons_reach_the_next_node_but_one(
    sent: AnnouncementView,
    second_id: Seq<char>,
    second_table: PeerTableView,
    first_ip: Ip,
    third_id: Seq<char>,
    third_table: PeerTableView,
    second_ip: Ip,
    now: u64,
    later: u64,
)
    requires
        sent.beacon.hop_count == 0,
        sent.beacon.authentic(),
        sent.beacon.node_id != second_id,
        sent.beacon.node_id != third_id,
        !third_table.peers.contains_key(sent.beacon.node_id),
    ensures
        ({
            let at_second = heard_beacon(sent, first_ip, second_id, second_table, now);
            &&& at_second is Taken
            &&& at_second->relayed is Some
            &&& {
                let relayed = at_second->relayed->0;
                let at_third = heard_beacon(relayed, second_ip, third_id, third_table, later);
                let id = sent.beacon.node_id;
                &&& at_third is Taken
                &&& at_third->table.peers.contains_key(id)
                &&& at_third->table.peers[id].hop_count == 2
                &&& at_third->table.peers[id].public_key == sent.beacon.public_key
                &&& at_third->table.peers[id].encryption_pubkey == sent.encryption_pubkey
                &&& at_third->table.routes.contains_key(id)
            }
        }),
{
    assert(sent.beacon.as_sent() =~= sent.beacon);
    let relayed = one_hop_further(sent);
    assert(relayed.beacon.as_sent() =~= sent.beacon);
}

/// What an incoming beacon comes to, told from its fields and its signature. The node's own
/// is ignored. Another is taken in if and only if its key decodes and accepts its signature,
/// either over the beacon as it came or, where it has come at most three hops, over the
/// beacon with no hops. Then it enters the table with the address it came from and the port
/// it announces, and goes on with one hop more if it has come fewer than three.
pub proof fn law_which_beacons_are_taken_in(
    heard: AnnouncementView,
    src_ip: Ip,
    own_id: Seq<char>,
    table: PeerTableView,
    now: u64,
)
    ensures
        ({
            let beacon = heard.beacon;
            let came_to = heard_beacon(heard, src_ip, own_id, table, now);
            let as_it_came = ed25519_accepts(
                beacon.public_key,
                encode_utf8(beacon.node_id) + beacon.public_key + le16(beacon.listen_port) + seq![
                    beacon.hop_count,
                ] + le64(beacon.timestamp),
                beacon.signature,
            );
            let before_any_hop = ed25519_accepts(
                beacon.public_key,
                encode_utf8(beacon.node_id) + beacon.public_key + le16(beacon.listen_port) + seq![
                    0u8,
                ] + le64(beacon.timestamp),
                beacon.signature,
            );
            let good = ed25519_key_decodes(beacon.public_key) && (as_it_came || (beacon.hop_count
                <= 3 && before_any_hop));
            &&& came_to is Own <==> beacon.node_id == own_id
            &&& came_to is Taken <==> beacon.node_id != own_id && good
            &&& came_to is Refused ==> came_to->Refused_0 == (if ed25519_key_decodes(
                beacon.public_key,
            ) {
                CryptoError::VerificationFailed
            } else {
                CryptoError::InvalidPublicKey
            })
            &&& came_to is Taken ==> {
                &&& came_to->table == table.upserted(
                    heard,
                    Endpoint { ip: src_ip, port: beacon.listen_port },
                    now,
                )
                &&& came_to->relayed is Some <==> beacon.hop_count < 3
            }
        }),
{
}

/// What is passed on: of a beacon that has come fewer than three hops the same, in every
/// field and in its signature, with one hop more; of any other nothing.
pub proof fn law_what_is_passed_on(heard: AnnouncementView)
    ensures
        passed_on(heard) is Some <==> heard.beacon.hop_count < 3,
        passed_on(heard) matches Some(relayed) ==> {
            &&& relayed.beacon.hop_count == heard.beacon.hop_count + 1
            &&& relayed.beacon.node_id == heard.beacon.node_id
            &&& relayed.beacon.public_key == heard.beacon.public_key
            &&& relayed.beacon.listen_port == heard.beacon.listen_port
            &&& relayed.beacon.timestamp == heard.beacon.timestamp
            &&& relayed.beacon.signature == heard.beacon.signature
            &&& relayed.encryption_pubkey == heard.encryption_pubkey
            &&& relayed.friendly_name == heard.friendly_name
        },
{
}

/// What a node reports of a beacon, and what becomes of its table, is what the beacon comes
/// to.
pub proof fn law_outcomes_are_reported(
    outcome: Result<BeaconOutcome, CryptoError>,
    came_to: Heard,
    was_known: bool,
    before: PeerTableView,
    after: PeerTableView,
)
    requires
        outcome_of(outcome, came_to, was_known, before, after),
    ensures
        came_to is Own ==> outcome is Ok && outcome->Ok_0 is Own && after == before,
        came_to is Refused ==> outcome is Err && outcome->Err_0 == came_to->Refused_0 && after
            == before,
        came_to is Taken ==> {
            &&& outcome is Ok
            &&& outcome->Ok_0 is Taken
            &&& outcome->Ok_0->is_new == !was_known
            &&& after == came_to->table
            &&& outcome->Ok_0->relayed is Some <==> came_to->relayed is Some
            &&& came_to->relayed is Some ==> outcome->Ok_0->relayed->0@ == came_to->relayed->0
        },
{
}

/// A node's beacon goes to the broadcast address of the local network and to the address of
/// each peer, always at port 7700.
pub proof fn law_where_beacons_go(destinations: Seq<Endpoint>, peers: Seq<PeerView>, i: int)
    requires
        reaches(destinations, peers),
    ensures
        destinations.len() == peers.len() + 1,
        destinations[0].port == 7700,
        destinations[0].ip == Ip::V4([255u8, 255, 255, 255]),
        0 <= i < peers.len() ==> destinations[i + 1].ip == peers[i].addr.ip && destinations[i
            + 1].port == 7700,
        BEACON_INTERVAL == 5,
        MAX_DATAGRAM == 4096,
{
}

} // verus!
