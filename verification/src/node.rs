//! A running node: what it knows of its peers, and how it answers what the mesh brings.
//!
//! Two nodes exchange text only once each has approved the other. A node that hears of
//! another asks for friendship; the request waits until the user approves it, and the
//! approval goes back. A peer that waits for the user's approval gets it from the user
//! alone. What the node decides is entered in its store, and what it wants sent is handed to
//! the application.
use crate::crypto::{ed25519_accepts, CryptoError, MAX_PLAINTEXT_BYTES};
use crate::db::{gained_message, gained_peer, SovereignDb, StoreView};
use crate::identity::{IdentityView, NodeIdentity};
use crate::message;
use crate::table::{same_but, Table};
use crate::text;
use crate::wire::{
    announcement_of, Announcement, AnnouncementView, InnerMessage, InnerView, MessageView,
    TanMessage,
};
use vstd::prelude::*;
use vstd::string::*;

verus! {

/// TCP port that a node announces in its beacons.
pub const ANNOUNCED_PORT: u16 = 7701;

/// Seconds between two beacons of a node.
pub const ANNOUNCE_INTERVAL: u64 = 5;

/// How far the friendship with a peer has come.
#[derive(Debug, Clone, Copy, PartialEq, Eq, Structural)]
pub enum PeerStatus {
    /// They want to connect, and wait for our approval.
    PendingUs,
    /// We want to connect, and wait for their approval.
    PendingThem,
    /// Both sides approved.
    Approved,
}

/// The text under which a status is stored.
pub open spec fn status_text(status: PeerStatus) -> Seq<char> {
    match status {
        PeerStatus::PendingUs => "pending_us"@,
        PeerStatus::PendingThem => "pending_them"@,
        PeerStatus::Approved => "approved"@,
    }
}

/// The status that a text stands for. A text that is none stands for waiting for them.
pub open spec fn status_of(text: Seq<char>) -> PeerStatus {
    if text == "pending_us"@ {
        PeerStatus::PendingUs
    } else if text == "approved"@ {
        PeerStatus::Approved
    } else {
        PeerStatus::PendingThem
    }
}

impl PeerStatus {
    /// The text under which the status is stored.
    pub fn as_str(&self) -> (text: &'static str)
        ensures
            text@ == status_text(*self),
    {
        match self {
            PeerStatus::PendingUs => "pending_us",
            PeerStatus::PendingThem => "pending_them",
            PeerStatus::Approved => "approved",
        }
    }

    /// The status that a text stands for.
    pub fn from_str(s: &str) -> (status: Self)
        ensures
            status == status_of(s@),
    {
        if text::same(s, "pending_us") {
            PeerStatus::PendingUs
        } else if text::same(s, "approved") {
            PeerStatus::Approved
        } else {
            PeerStatus::PendingThem
        }
    }
}

/// A status reads back from its text.
pub proof fn law_status_reads_back(status: PeerStatus)
    ensures
        status_of(status_text(status)) == status,
{
    reveal_strlit("pending_us");
    reveal_strlit("pending_them");
    reveal_strlit("approved");
    assert("pending_them"@.len() == 12 && "pending_us"@.len() == 10 && "approved"@.len() == 8);
}

/// What a node knows of a peer.
pub struct PeerInfo {
    pub status: PeerStatus,
    pub friendly_name: String,
    pub beacon: Announcement,
}

/// What the knowledge of a peer stands for.
#[verifier::ext_equal]
pub struct KnownPeer {
    pub status: PeerStatus,
    pub friendly_name: Seq<char>,
    pub beacon: AnnouncementView,
}

impl View for PeerInfo {
    type V = KnownPeer;

    open spec fn view(&self) -> KnownPeer {
        KnownPeer {
            status: self.status,
            friendly_name: self.friendly_name@,
            beacon: self.beacon@,
        }
    }
}

/// Something to be encrypted and sent to a peer.
pub struct Outgoing {
    pub recipient: Announcement,
    pub inner: InnerMessage,
}

/// What an outgoing message stands for.
#[verifier::ext_equal]
pub struct OutgoingView {
    pub recipient: AnnouncementView,
    pub inner: InnerView,
}

impl View for Outgoing {
    type V = OutgoingView;

    open spec fn view(&self) -> OutgoingView {
        OutgoingView { recipient: self.recipient@, inner: self.inner@ }
    }
}

/// What a list of outgoing messages stands for.
pub open spec fn outgoing_views(v: Seq<Outgoing>) -> Seq<OutgoingView> {
    v.map_values(|o: Outgoing| o@)
}

/// The state of a running node.
pub struct AppState {
    pub identity: NodeIdentity,
    pub peer_table: Table<PeerInfo>,
    pub database: SovereignDb,
}

/// What the state of a node stands for.
#[verifier::ext_equal]
pub struct NodeView {
    pub identity: IdentityView,
    pub peers: Map<Seq<char>, KnownPeer>,
    pub store: StoreView,
}

impl View for AppState {
    type V = NodeView;

    open spec fn view(&self) -> NodeView {
        NodeView {
            identity: self.identity@,
            peers: self.peer_table@.map_values(|p: PeerInfo| p@),
            store: self.database@,
        }
    }
}

/// The status of a peer that the store holds; a peer that is not stored is waited for.
pub open spec fn stored_status(store: StoreView, id: Seq<char>) -> PeerStatus {
    if store.peers.contains_key(id) {
        status_of(store.peers[id].status)
    } else {
        PeerStatus::PendingThem
    }
}

/// The name of a peer whose beacon is heard for the first time: the stored one, or the one
/// that the beacon gives where none is stored.
pub open spec fn first_name(store: StoreView, heard: AnnouncementView) -> Seq<char> {
    let id = heard.beacon.node_id;
    if store.peers.contains_key(id) && store.peers[id].friendly_name.len() > 0 {
        store.peers[id].friendly_name
    } else {
        heard.friendly_name
    }
}

/// The store with a message, or as it was where there is no room for one.
pub open spec fn stored_message(
    store: StoreView,
    peer_id: Seq<char>,
    text: Seq<char>,
    direction: Seq<char>,
    now: i64,
) -> StoreView {
    if store.has_room() {
        store.with_message(peer_id, text, direction, now)
    } else {
        store
    }
}

impl NodeView {
    /// A node knows its peers under the ids of their beacons, each beacon is authentic,
    /// and none is its own. The status of every peer is the one in the store.
    pub open spec fn consistent(self) -> bool {
        forall|id: Seq<char>| #[trigger]
            self.peers.contains_key(id) ==> {
                &&& self.peers[id].beacon.beacon.node_id == id
                &&& self.peers[id].beacon.beacon.authentic()
                &&& id != self.identity.tan_id
                &&& self.peers[id].status == stored_status(self.store, id)
            }
    }

    /// A beacon that a node pays attention to.
    pub open spec fn heeds(self, heard: AnnouncementView) -> bool {
        heard.beacon.node_id != self.identity.tan_id && heard.beacon.authentic()
    }

    /// The request for friendship that a node sends.
    pub open spec fn request(self) -> InnerView {
        InnerView::FriendRequest { friendly_name: self.identity.friendly_name }
    }

    /// The approval that a node sends.
    pub open spec fn approval(self) -> InnerView {
        InnerView::FriendApproval { friendly_name: self.identity.friendly_name }
    }

    /// What is known of a peer once its beacon is heard.
    pub open spec fn peer_heard(self, heard: AnnouncementView) -> KnownPeer {
        let id = heard.beacon.node_id;
        if self.peers.contains_key(id) {
            KnownPeer {
                status: self.peers[id].status,
                friendly_name: if heard.friendly_name.len() > 0 {
                    heard.friendly_name
                } else {
                    self.peers[id].friendly_name
                },
                beacon: heard,
            }
        } else {
            KnownPeer {
                status: stored_status(self.store, id),
                friendly_name: first_name(self.store, heard),
                beacon: heard,
            }
        }
    }

    /// The node once a beacon was heard.
    pub open spec fn after_beacon(self, heard: AnnouncementView) -> NodeView {
        if self.heeds(heard) {
            NodeView {
                peers: self.peers.insert(heard.beacon.node_id, self.peer_heard(heard)),
                ..self
            }
        } else {
            self
        }
    }

    /// What a node sends when it hears a beacon: to a new peer a request, and its approval
    /// as well if it approved the peer before.
    pub open spec fn answers_to_beacon(self, heard: AnnouncementView) -> Seq<OutgoingView> {
        let id = heard.beacon.node_id;
        let request = OutgoingView { recipient: heard, inner: self.request() };
        let approval = OutgoingView { recipient: heard, inner: self.approval() };
        if !self.heeds(heard) || self.peers.contains_key(id) {
            Seq::empty()
        } else if stored_status(self.store, id) == PeerStatus::Approved {
            seq![request, approval]
        } else {
            seq![request]
        }
    }

    /// The node once a peer said something. What an unknown peer says is ignored; a
    /// request makes a peer that we waited for wait for us; an approval makes it approved,
    /// unless the peer waits for our own approval; text is stored if the peer is approved.
    pub open spec fn after_inner(self, from: Seq<char>, inner: InnerView, now: i64) -> NodeView {
        if !self.peers.contains_key(from) {
            self
        } else {
            let peer = self.peers[from];
            match inner {
                InnerView::FriendRequest { friendly_name } => if peer.status
                    == PeerStatus::PendingThem {
                    NodeView {
                        peers: self.peers.insert(
                            from,
                            KnownPeer { status: PeerStatus::PendingUs, friendly_name, ..peer },
                        ),
                        store: self.store.with_peer(from, friendly_name, "pending_us"@, now),
                        ..self
                    }
                } else {
                    NodeView {
                        peers: self.peers.insert(from, KnownPeer { friendly_name, ..peer }),
                        ..self
                    }
                },
                InnerView::FriendApproval { friendly_name } => if peer.status
                    == PeerStatus::PendingUs {
                    NodeView {
                        peers: self.peers.insert(from, KnownPeer { friendly_name, ..peer }),
                        ..self
                    }
                } else {
                    NodeView {
                        peers: self.peers.insert(
                            from,
                            KnownPeer { status: PeerStatus::Approved, friendly_name, ..peer },
                        ),
                        store: self.store.with_peer(from, friendly_name, "approved"@, now),
                        ..self
                    }
                },
                InnerView::Text(text) => if peer.status == PeerStatus::Approved {
                    NodeView {
                        store: stored_message(self.store, from, text, "received"@, now),
                        ..self
                    }
                } else {
                    self
                },
            }
        }
    }

    /// What a node answers when a peer said something: to the request of an approved peer
    /// the approval, and otherwise nothing.
    pub open spec fn answers_to_inner(self, from: Seq<char>, inner: InnerView) -> Seq<
        OutgoingView,
    > {
        if inner is FriendRequest && self.peers.contains_key(from) && self.peers[from].status
            == PeerStatus::Approved {
            seq![OutgoingView { recipient: self.peers[from].beacon, inner: self.approval() }]
        } else {
            Seq::empty()
        }
    }

    /// The node once its user approved a peer that it knows.
    pub open spec fn after_approval(self, id: Seq<char>, now: i64) -> NodeView {
        let peer = self.peers[id];
        NodeView {
            peers: self.peers.insert(id, KnownPeer { status: PeerStatus::Approved, ..peer }),
            store: self.store.with_peer(id, peer.friendly_name, "approved"@, now),
            ..self
        }
    }
}

impl AppState {
    /// A node that has just started: no peer is known yet.
    pub fn new(identity: NodeIdentity, database: SovereignDb) -> (state: Self)
        ensures
            state@.identity == identity@,
            state@.store == database@,
            state@.peers == Map::<Seq<char>, KnownPeer>::empty(),
            state@.consistent(),
    {
        let state = AppState { identity, peer_table: Table::new(), database };
        assert(state@.peers =~= Map::empty());
        state
    }

    /// The node's own request for friendship.
    fn request(&self) -> (inner: InnerMessage)
        ensures
            inner@ == self@.request(),
    {
        InnerMessage::FriendRequest { friendly_name: self.identity.friendly_name.clone() }
    }

    /// The node's own approval.
    pub(crate) fn approval(&self) -> (inner: InnerMessage)
        ensures
            inner@ == self@.approval(),
    {
        InnerMessage::FriendApproval { friendly_name: self.identity.friendly_name.clone() }
    }

    fn put_peer(&mut self, id: &str, peer: PeerInfo)
        ensures
            final(self)@ == (NodeView {
                peers: old(self)@.peers.insert(id@, peer@),
                ..old(self)@
            }),
    {
        let ghost before = self@;
        let ghost row = peer@;
        self.peer_table.insert(id, peer);
        assert(self@.peers =~= before.peers.insert(id@, row));
        assert(self@ =~= (NodeView { peers: before.peers.insert(id@, row), ..before }));
    }

    /// Hear a beacon. The node's own and those that do not verify are ignored; others are
    /// entered under the ids of their senders.
    pub fn on_beacon(&mut self, heard: &Announcement) -> (outgoing: Vec<Outgoing>)
        ensures
            final(self)@ == old(self)@.after_beacon(heard@),
            outgoing_views(outgoing@) == old(self)@.answers_to_beacon(heard@),
            old(self)@.consistent() ==> final(self)@.consistent(),
    {
        let ghost before = self@;
        let mut outgoing: Vec<Outgoing> = Vec::new();
        let id = heard.beacon.node_id.as_str();
        assert(outgoing_views(outgoing@) =~= Seq::empty());
        if text::same(id, self.identity.tan_id.as_str()) {
            return outgoing;
        }
        if heard.beacon.verify_signature().is_err() {
            return outgoing;
        }
        let peer = match self.peer_table.get(id) {
            Some(known) => {
                let friendly_name = if heard.friendly_name.as_str().unicode_len() > 0 {
                    heard.friendly_name.clone()
                } else {
                    known.friendly_name.clone()
                };
                PeerInfo { status: known.status, friendly_name, beacon: heard.clone() }
            },
            None => {
                let stored = self.database.get_peer(id);
                let status = match &stored {
                    Some(peer) => PeerStatus::from_str(peer.status.as_str()),
                    None => PeerStatus::PendingThem,
                };
                let friendly_name = match stored {
                    Some(peer) if peer.friendly_name.as_str().unicode_len() > 0 => {
                        peer.friendly_name
                    },
                    _ => heard.friendly_name.clone(),
                };
                outgoing.push(Outgoing { recipient: heard.clone(), inner: self.request() });
                if status == PeerStatus::Approved {
                    outgoing.push(Outgoing { recipient: heard.clone(), inner: self.approval() });
                }
                PeerInfo { status, friendly_name, beacon: heard.clone() }
            },
        };
        assert(outgoing_views(outgoing@) =~= before.answers_to_beacon(heard@));
        assert(peer@ =~= before.peer_heard(heard@));
        self.put_peer(id, peer);
        outgoing
    }

    /// The plaintext of a message, if it is for this node and can be read.
    pub fn read_message(&self, msg: &TanMessage) -> (plaintext: Option<Vec<u8>>)
        ensures
            match plaintext {
                Some(p) => msg@.to_id == self@.identity.tan_id && msg@.opened(self@.identity.seed)
                    == Some(p@),
                None => msg@.to_id != self@.identity.tan_id || msg@.opened(
                    self@.identity.seed,
                ) is None,
            },
    {
        if !text::same(msg.to_id.as_str(), self.identity.tan_id.as_str()) {
            return None;
        }
        match message::open_message(msg, &self.identity) {
            Ok(plaintext) => Some(plaintext),
            Err(_) => None,
        }
    }

    /// Take in what a peer said.
    pub fn on_inner(&mut self, from_id: &str, inner: &InnerMessage, now: i64) -> (outgoing: Vec<
        Outgoing,
    >)
        ensures
            final(self)@ == old(self)@.after_inner(from_id@, inner@, now),
            outgoing_views(outgoing@) == old(self)@.answers_to_inner(from_id@, inner@),
            old(self)@.consistent() ==> final(self)@.consistent(),
    {
        let ghost before = self@;
        proof {
            law_peers_and_store_agree(before, from_id@, inner@, now);
        }
        let mut outgoing: Vec<Outgoing> = Vec::new();
        assert(outgoing_views(outgoing@) =~= Seq::empty());
        let (status, beacon) = match self.peer_table.get(from_id) {
            Some(known) => (known.status, known.beacon.clone()),
            None => {
                return outgoing;
            },
        };
        match inner {
            InnerMessage::FriendRequest { friendly_name } => {
                if status == PeerStatus::Approved {
                    outgoing.push(Outgoing { recipient: beacon.clone(), inner: self.approval() });
                    assert(outgoing_views(outgoing@) =~= before.answers_to_inner(
                        from_id@,
                        inner@,
                    ));
                }
                let next = if status == PeerStatus::PendingThem {
                    self.database.upsert_peer_at(
                        from_id,
                        friendly_name.as_str(),
                        "pending_us",
                        now,
                    );
                    PeerStatus::PendingUs
                } else {
                    status
                };
                self.put_peer(
                    from_id,
                    PeerInfo { status: next, friendly_name: friendly_name.clone(), beacon },
                );
            },
            InnerMessage::FriendApproval { friendly_name } => {
                let next = if status == PeerStatus::PendingUs {
                    status
                } else {
                    self.database.upsert_peer_at(
                        from_id,
                        friendly_name.as_str(),
                        "approved",
                        now,
                    );
                    PeerStatus::Approved
                };
                self.put_peer(
                    from_id,
                    PeerInfo { status: next, friendly_name: friendly_name.clone(), beacon },
                );
            },
            InnerMessage::Text(text) => {
                if status == PeerStatus::Approved {
                    let _ = self.database.save_message_at(
                        from_id,
                        text.as_str(),
                        "received",
                        now,
                    );
                }
            },
        }
        assert(self@ =~= before.after_inner(from_id@, inner@, now));
        outgoing
    }

    /// Approve a peer. Returns what to send to it, or nothing if it is not known.
    pub fn approve(&mut self, tan_id: &str, now: i64) -> (outgoing: Option<Outgoing>)
        ensures
            match outgoing {
                Some(o) => {
                    &&& old(self)@.peers.contains_key(tan_id@)
                    &&& o@ == (OutgoingView {
                        recipient: old(self)@.peers[tan_id@].beacon,
                        inner: old(self)@.approval(),
                    })
                    &&& final(self)@ == old(self)@.after_approval(tan_id@, now)
                },
                None => {
                    &&& !old(self)@.peers.contains_key(tan_id@)
                    &&& final(self)@ == old(self)@
                },
            },
            old(self)@.consistent() ==> final(self)@.consistent(),
    {
        let ghost before = self@;
        proof {
            law_approval_is_stored(before, tan_id@, now);
        }
        let (friendly_name, beacon) = match self.peer_table.get(tan_id) {
            Some(known) => (known.friendly_name.clone(), known.beacon.clone()),
            None => {
                return None;
            },
        };
        self.database.upsert_peer_at(tan_id, friendly_name.as_str(), "approved", now);
        let outgoing = Outgoing { recipient: beacon.clone(), inner: self.approval() };
        self.put_peer(
            tan_id,
            PeerInfo { status: PeerStatus::Approved, friendly_name, beacon },
        );
        assert(self@ =~= before.after_approval(tan_id@, now));
        Some(outgoing)
    }
}

/// Encrypt and sign a payload for the node that an announcement is from.
pub fn send_inner_message(
    identity: &NodeIdentity,
    recipient: &Announcement,
    payload: &[u8],
) -> (msg: Result<TanMessage, CryptoError>)
    ensures
        match msg {
            Ok(m) => {
                &&& payload@.len() <= MAX_PLAINTEXT_BYTES
                &&& m@.made_for(
                    identity@,
                    recipient@.beacon.node_id,
                    recipient@.encryption_pubkey,
                    payload@,
                )
                &&& identity.well_formed() ==> ed25519_accepts(
                    identity@.public_key,
                    m@.payload,
                    m@.signature,
                )
            },
            Err(e) => {
                &&& payload@.len() > MAX_PLAINTEXT_BYTES
                &&& e == CryptoError::EncryptionFailed
            },
        },
{
    message::make_message(
        identity,
        recipient.beacon.node_id.as_str(),
        &recipient.encryption_pubkey,
        payload,
    )
}

// Laws.

/// Whatever a peer says, the node stays consistent: the status it holds for each peer is
/// the one in its store.
pub proof fn law_peers_and_store_agree(
    node: NodeView,
    from: Seq<char>,
    inner: InnerView,
    now: i64,
)
    ensures
        node.consistent() ==> node.after_inner(from, inner, now).consistent(),
{
    law_status_reads_back(PeerStatus::PendingUs);
    law_status_reads_back(PeerStatus::Approved);
}

/// A peer that the user approves is approved in the store as well, and the node stays
/// consistent.
pub proof fn law_approval_is_stored(node: NodeView, id: Seq<char>, now: i64)
    ensures
        stored_status(node.after_approval(id, now).store, id) == PeerStatus::Approved,
        node.consistent() && node.peers.contains_key(id) ==> node.after_approval(
            id,
            now,
        ).consistent(),
{
    law_status_reads_back(PeerStatus::Approved);
}

/// A peer that is heard of for the first time is known from then on, and is asked for
/// friendship; no peer is asked twice.
pub proof fn law_new_peers_are_asked_once(node: NodeView, heard: AnnouncementView)
    requires
        node.heeds(heard),
    ensures
        ({
            let id = heard.beacon.node_id;
            let after = node.after_beacon(heard);
            let request = OutgoingView { recipient: heard, inner: node.request() };
            &&& after.peers.contains_key(id)
            &&& !node.peers.contains_key(id) <==> node.answers_to_beacon(heard).contains(request)
            &&& after.answers_to_beacon(heard).len() == 0
        }),
{
    let request = OutgoingView { recipient: heard, inner: node.request() };
    if !node.peers.contains_key(heard.beacon.node_id) {
        assert(node.answers_to_beacon(heard)[0] == request);
    }
}

/// Text is stored exactly when its sender is an approved peer, and then as the last
/// message, received from that peer. Nothing else that a peer says is stored as a message.
pub proof fn law_text_needs_approval(node: NodeView, from: Seq<char>, inner: InnerView, now: i64)
    requires
        node.store.has_room(),
    ensures
        ({
            let after = node.after_inner(from, inner, now);
            let approved = node.peers.contains_key(from) && node.peers[from].status
                == PeerStatus::Approved;
            match inner {
                InnerView::Text(text) => if approved {
                    &&& after.store.messages.drop_last() == node.store.messages
                    &&& after.store.messages.last().peer_id == from
                    &&& after.store.messages.last().text == text
                    &&& after.store.messages.last().direction == "received"@
                } else {
                    after == node
                },
                _ => after.store.messages == node.store.messages,
            }
        }),
{
    let after = node.after_inner(from, inner, now);
    if inner is Text && after != node {
        assert(after.store.messages.drop_last() =~= node.store.messages);
    }
}

/// Of all that peers say, only a peer's own approval makes it approved, and only where we
/// waited for it. Nothing takes an approval back.
pub proof fn law_only_an_awaited_approval_approves(
    node: NodeView,
    from: Seq<char>,
    inner: InnerView,
    now: i64,
    id: Seq<char>,
)
    requires
        node.peers.contains_key(id),
    ensures
        ({
            let after = node.after_inner(from, inner, now);
            &&& after.peers.contains_key(id)
            &&& after.peers[id].status == PeerStatus::Approved <==> (node.peers[id].status
                == PeerStatus::Approved || (inner is FriendApproval && from == id
                && node.peers[id].status == PeerStatus::PendingThem))
        }),
{
}

/// A peer that waits for our approval waits until our user gives it: whatever is said, it
/// keeps waiting, nothing more is stored of it, and what it says is not stored either.
pub proof fn law_nobody_approves_in_our_place(
    node: NodeView,
    from: Seq<char>,
    inner: InnerView,
    now: i64,
)
    requires
        node.peers.contains_key(from),
        node.peers[from].status == PeerStatus::PendingUs,
    ensures
        node.after_inner(from, inner, now).peers[from].status == PeerStatus::PendingUs,
        node.after_inner(from, inner, now).store == node.store,
        node.after_approval(from, now).peers[from].status == PeerStatus::Approved,
{
}

/// A request for friendship is pending until the user acts, unless the user has acted
/// already: only then is it answered.
pub proof fn law_requests_wait_for_the_user(
    node: NodeView,
    from: Seq<char>,
    friendly_name: Seq<char>,
    now: i64,
)
    requires
        node.peers.contains_key(from),
    ensures
        ({
            let inner = InnerView::FriendRequest { friendly_name };
            let after = node.after_inner(from, inner, now);
            if node.peers[from].status == PeerStatus::Approved {
                &&& after.peers[from].status == PeerStatus::Approved
                &&& node.answers_to_inner(from, inner).len() == 1
            } else {
                &&& after.peers[from].status == PeerStatus::PendingUs
                &&& node.answers_to_inner(from, inner).len() == 0
            }
        }),
{
}

/// A beacon that is the node's own or does not verify changes nothing and is not answered.
/// Any other leaves the store and every other peer as they were, and the status of a
/// known peer too.
pub proof fn law_beacons_do_not_change_status(
    node: NodeView,
    heard: AnnouncementView,
    id: Seq<char>,
)
    requires
        node.peers.contains_key(id),
    ensures
        ({
            let after = node.after_beacon(heard);
            &&& after.store == node.store
            &&& after.peers.contains_key(id)
            &&& after.peers[id].status == node.peers[id].status
            &&& id != heard.beacon.node_id ==> after.peers[id] == node.peers[id]
            &&& !node.heeds(heard) ==> after == node && node.answers_to_beacon(heard).len() == 0
        }),
{
}

/// A node that is started again with the same store gives a peer whose beacon it hears the
/// status that the peer had before.
pub proof fn law_restart_restores_status(
    node: NodeView,
    restarted: NodeView,
    heard: AnnouncementView,
)
    requires
        node.consistent(),
        node.peers.contains_key(heard.beacon.node_id),
        restarted.identity == node.identity,
        restarted.store == node.store,
        restarted.peers == Map::<Seq<char>, KnownPeer>::empty(),
        restarted.heeds(heard),
    ensures
        restarted.after_beacon(heard).peers[heard.beacon.node_id].status
            == node.peers[heard.beacon.node_id].status,
{
}

/// Once the users of two nodes have approved each other, in whatever order the approvals
/// arrive, each holds the other as approved, and what either then says is stored by the
/// other.
pub proof fn law_mutual_approval_opens_the_channel(
    a: NodeView,
    b: NodeView,
    text: Seq<char>,
    now: i64,
)
    requires
        a.peers.contains_key(b.identity.tan_id),
        b.peers.contains_key(a.identity.tan_id),
        b.store.has_room(),
    ensures
        ({
            let a_id = a.identity.tan_id;
            let a_after = a.after_approval(b.identity.tan_id, now);
            let first = b.after_inner(a_id, a.approval(), now).after_approval(a_id, now);
            let last = b.after_approval(a_id, now).after_inner(a_id, a.approval(), now);
            &&& a_after.peers[b.identity.tan_id].status == PeerStatus::Approved
            &&& forall|b_after: NodeView|
                b_after == first || b_after == last ==> {
                    let told = #[trigger] b_after.after_inner(a_id, InnerView::Text(text), now);
                    &&& b_after.peers[a_id].status == PeerStatus::Approved
                    &&& told.store.messages.len() == b.store.messages.len() + 1
                    &&& told.store.messages.last().peer_id == a_id
                    &&& told.store.messages.last().text == text
                }
        }),
{
}

/// What is sent to a node under its announcement is for that node, and reads there as what
/// was written.
pub proof fn law_announced_node_reads_its_messages(
    msg: MessageView,
    sender: IdentityView,
    receiver: NodeIdentity,
    announced: AnnouncementView,
    listen_port: u16,
    timestamp: u64,
    payload: Seq<u8>,
)
    requires
        receiver.well_formed(),
        announced == announcement_of(receiver@, listen_port, timestamp),
        msg.made_for(sender, announced.beacon.node_id, announced.encryption_pubkey, payload),
    ensures
        msg.to_id == receiver@.tan_id,
        msg.opened(receiver@.seed) == Some(payload),
{
    message::law_messages_read_back(msg, sender, receiver, payload);
}

/// The three texts of a status, and what any text stands for.
pub proof fn law_status_texts(status: PeerStatus, text: Seq<char>)
    ensures
        status_text(status) == (match status {
            PeerStatus::PendingUs => "pending_us"@,
            PeerStatus::PendingThem => "pending_them"@,
            PeerStatus::Approved => "approved"@,
        }),
        status_of(text) == PeerStatus::Approved <==> text == "approved"@,
        status_of(text) == PeerStatus::PendingUs <==> text == "pending_us"@,
{
    reveal_strlit("pending_us");
    reveal_strlit("approved");
    assert("pending_us"@.len() == 10 && "approved"@.len() == 8);
}

/// A beacon is answered only when it is authentic, from another node, and heard of that node
/// for the first time in this run. Then a request is sent, and an approval besides if and
/// only if the store holds the node as approved; both go to the announced node, under the
/// name of the node that answers. Nothing else is sent.
pub proof fn law_only_stored_approvals_are_sent(node: NodeView, heard: AnnouncementView)
    ensures
        ({
            let id = heard.beacon.node_id;
            let answers = node.answers_to_beacon(heard);
            let asked = id != node.identity.tan_id && heard.beacon.authentic()
                && !node.peers.contains_key(id);
            let approved = node.store.peers.contains_key(id) && node.store.peers[id].status
                == "approved"@;
            &&& answers.len() == (if !asked {
                0int
            } else if !approved {
                1
            } else {
                2
            })
            &&& asked ==> answers[0].recipient == heard && answers[0].inner
                == (InnerView::FriendRequest { friendly_name: node.identity.friendly_name })
            &&& asked && approved ==> answers[1].recipient == heard && answers[1].inner
                == (InnerView::FriendApproval { friendly_name: node.identity.friendly_name })
            &&& (exists|i: int|
                0 <= i < answers.len() && (#[trigger] answers[i]).inner is FriendApproval)
                <==> asked && approved
        }),
{
    let id = heard.beacon.node_id;
    let answers = node.answers_to_beacon(heard);
    if node.store.peers.contains_key(id) {
        law_status_texts(PeerStatus::Approved, node.store.peers[id].status);
    }
    if answers.len() == 2 {
        assert(answers[1].inner is FriendApproval);
    }
}

/// What hearing a beacon changes. Nothing, if it is the node's own or not authentic.
/// Otherwise its sender is known with this beacon: under the status and the name it had, or,
/// heard of for the first time, under those that the store holds. A name that is empty gives
/// way. Identity, store and every other peer stay as they were.
pub proof fn law_hearing_a_beacon(node: NodeView, heard: AnnouncementView)
    ensures
        ({
            let id = heard.beacon.node_id;
            let after = node.after_beacon(heard);
            let known = node.peers.contains_key(id);
            let stored = node.store.peers.contains_key(id);
            let row = node.store.peers[id];
            if id == node.identity.tan_id || !heard.beacon.authentic() {
                after == node
            } else {
                &&& after.identity == node.identity
                &&& after.store == node.store
                &&& same_but(node.peers, after.peers, id)
                &&& after.peers.contains_key(id)
                &&& after.peers[id].beacon == heard
                &&& known ==> after.peers[id].status == node.peers[id].status
                &&& known ==> after.peers[id].friendly_name == (if heard.friendly_name.len()
                    > 0 {
                    heard.friendly_name
                } else {
                    node.peers[id].friendly_name
                })
                &&& !known ==> {
                    &&& after.peers[id].status == PeerStatus::Approved <==> stored && row.status
                        == "approved"@
                    &&& after.peers[id].status == PeerStatus::PendingUs <==> stored && row.status
                        == "pending_us"@
                    &&& after.peers[id].friendly_name == (if stored && row.friendly_name.len()
                        > 0 {
                        row.friendly_name
                    } else {
                        heard.friendly_name
                    })
                }
            }
        }),
{
    let id = heard.beacon.node_id;
    law_status_texts(PeerStatus::Approved, node.store.peers[id].status);
}

/// What a request for friendship changes: of a known peer the name, and where we waited for
/// that peer, it now waits for us, which is stored. It is answered, with our approval, if
/// and only if the peer is approved.
pub proof fn law_a_request(node: NodeView, from: Seq<char>, friendly_name: Seq<char>, now: i64)
    ensures
        ({
            let inner = InnerView::FriendRequest { friendly_name };
            let after = node.after_inner(from, inner, now);
            let answers = node.answers_to_inner(from, inner);
            if !node.peers.contains_key(from) {
                after == node && answers.len() == 0
            } else {
                let peer = node.peers[from];
                let waited = peer.status == PeerStatus::PendingThem;
                &&& after.identity == node.identity
                &&& same_but(node.peers, after.peers, from)
                &&& after.peers.contains_key(from)
                &&& after.peers[from].beacon == peer.beacon
                &&& after.peers[from].friendly_name == friendly_name
                &&& after.peers[from].status == (if waited {
                    PeerStatus::PendingUs
                } else {
                    peer.status
                })
                &&& waited ==> gained_peer(
                    node.store,
                    after.store,
                    from,
                    friendly_name,
                    "pending_us"@,
                    now,
                )
                &&& !waited ==> after.store == node.store
                &&& answers.len() == (if peer.status == PeerStatus::Approved {
                    1int
                } else {
                    0
                })
                &&& answers.len() == 1 ==> answers[0].recipient == peer.beacon && answers[0].inner
                    == (InnerView::FriendApproval { friendly_name: node.identity.friendly_name })
            }
        }),
{
}

/// What an approval changes: of a known peer the name, and unless that peer waits for us, it
/// is approved, which is stored. It is not answered.
pub proof fn law_an_approval(node: NodeView, from: Seq<char>, friendly_name: Seq<char>, now: i64)
    ensures
        ({
            let inner = InnerView::FriendApproval { friendly_name };
            let after = node.after_inner(from, inner, now);
            &&& node.answers_to_inner(from, inner).len() == 0
            &&& if !node.peers.contains_key(from) {
                after == node
            } else {
                let peer = node.peers[from];
                let waits = peer.status == PeerStatus::PendingUs;
                &&& after.identity == node.identity
                &&& same_but(node.peers, after.peers, from)
                &&& after.peers.contains_key(from)
                &&& after.peers[from].beacon == peer.beacon
                &&& after.peers[from].friendly_name == friendly_name
                &&& after.peers[from].status == (if waits {
                    PeerStatus::PendingUs
                } else {
                    PeerStatus::Approved
                })
                &&& waits ==> after.store == node.store
                &&& !waits ==> gained_peer(
                    node.store,
                    after.store,
                    from,
                    friendly_name,
                    "approved"@,
                    now,
                )
            }
        }),
{
}

/// What text changes: if and only if its sender is known and approved, it is stored as the
/// last message, received from that sender, as long as there is an id for it and it can be
/// counted. Nothing else changes, and text is not answered.
pub proof fn law_a_text(node: NodeView, from: Seq<char>, text: Seq<char>, now: i64)
    ensures
        ({
            let after = node.after_inner(from, InnerView::Text(text), now);
            let kept = node.peers.contains_key(from) && node.peers[from].status
                == PeerStatus::Approved && node.store.sequence < 0x7fff_ffff_ffff_ffff
                && node.store.messages.len() < 0x7fff_ffff_ffff_ffff;
            &&& node.answers_to_inner(from, InnerView::Text(text)).len() == 0
            &&& after.identity == node.identity
            &&& after.peers == node.peers
            &&& kept ==> gained_message(node.store, after.store, from, text, "received"@, now)
            &&& !kept ==> after == node
        }),
{
    crate::db::law_changes_of_the_store(node.store, from, text, "received"@, now);
}

/// What the user's approval of a known peer changes: the peer is approved, which is stored
/// under the name it has; nothing else changes.
pub proof fn law_the_users_approval(node: NodeView, id: Seq<char>, now: i64)
    requires
        node.peers.contains_key(id),
    ensures
        ({
            let after = node.after_approval(id, now);
            &&& after.identity == node.identity
            &&& same_but(node.peers, after.peers, id)
            &&& after.peers.contains_key(id)
            &&& after.peers[id].status == PeerStatus::Approved
            &&& after.peers[id].friendly_name == node.peers[id].friendly_name
            &&& after.peers[id].beacon == node.peers[id].beacon
            &&& gained_peer(
                node.store,
                after.store,
                id,
                node.peers[id].friendly_name,
                "approved"@,
                now,
            )
            &&& node.approval() == (InnerView::FriendApproval {
                friendly_name: node.identity.friendly_name,
            })
        }),
{
}

/// Sent or received text is stored as the last message while there is an id for it and it
/// can be counted, and otherwise not at all.
pub proof fn law_text_is_stored(
    store: StoreView,
    peer_id: Seq<char>,
    text: Seq<char>,
    direction: Seq<char>,
    now: i64,
)
    ensures
        ({
            let after = stored_message(store, peer_id, text, direction, now);
            if store.sequence < 0x7fff_ffff_ffff_ffff && store.messages.len()
                < 0x7fff_ffff_ffff_ffff {
                gained_message(store, after, peer_id, text, direction, now)
            } else {
                after == store
            }
        }),
{
    crate::db::law_changes_of_the_store(store, peer_id, text, direction, now);
}

/// What a node keeps in agreement: each peer stands under the id of its authentic beacon, is
/// not the node itself, and has the status that the store holds.
pub proof fn law_what_consistent_means(node: NodeView, id: Seq<char>)
    requires
        node.consistent(),
        node.peers.contains_key(id),
    ensures
        ({
            let peer = node.peers[id];
            let stored = node.store.peers.contains_key(id);
            &&& peer.beacon.beacon.node_id == id
            &&& peer.beacon.beacon.authentic()
            &&& id != node.identity.tan_id
            &&& peer.status == PeerStatus::Approved <==> stored && node.store.peers[id].status
                == "approved"@
            &&& peer.status == PeerStatus::PendingUs <==> stored && node.store.peers[id].status
                == "pending_us"@
        }),
{
    law_status_texts(PeerStatus::Approved, node.store.peers[id].status);
}

/// A view holds every field.
pub proof fn law_views_of_a_node(
    peer: PeerInfo,
    outgoing: Seq<Outgoing>,
    state: AppState,
    i: int,
    id: Seq<char>,
)
    ensures
        peer@ == (KnownPeer {
            status: peer.status,
            friendly_name: peer.friendly_name@,
            beacon: peer.beacon@,
        }),
        outgoing_views(outgoing).len() == outgoing.len(),
        0 <= i < outgoing.len() ==> outgoing_views(outgoing)[i] == (OutgoingView {
            recipient: outgoing[i].recipient@,
            inner: outgoing[i].inner@,
        }),
        state@.identity == state.identity@,
        state@.store == state.database@,
        state@.peers.contains_key(id) <==> state.peer_table@.contains_key(id),
        state.peer_table@.contains_key(id) ==> state@.peers[id] == state.peer_table@[id]@,
{
}

} // verus!
