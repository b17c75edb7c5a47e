//! What the dashboard and its programming interface ask of a node, and what they are
//! answered.
//!
//! A request that makes the node send something is answered in two steps: the first
//! decides and names what to send, the second turns the outcome of sending into an answer.
use crate::db::{in_order, of_peer, rows, ConversationPreview, StoredMessage};
use crate::hex_text;
use crate::hex_text::hex_encoded;
use crate::identity::IdentityView;
use crate::node::{
    status_text, stored_message, AppState, KnownPeer, NodeView, Outgoing, OutgoingView,
    PeerStatus,
};
use crate::table::lists;
use crate::text;
use crate::text::{blank, joined, words_of};
use crate::wire::{InnerMessage, InnerView};
use vstd::prelude::*;
use vstd::string::*;

verus! {

// Requests and answers.

/// Who the node is.
#[derive(Debug)]
pub struct IdentityResponse {
    pub tan_id: String,
    pub friendly_name: String,
    pub public_key: String,
}

/// A request to change the name of the node.
#[derive(Debug)]
pub struct UpdateIdentityRequest {
    pub friendly_name: String,
}

/// A peer, as the dashboard lists it.
#[derive(Debug)]
pub struct PeerResponse {
    pub tan_id: String,
    pub friendly_name: String,
    pub status: String,
    /// Hops that the peer's last beacon had travelled.
    pub hop_count: u8,
}

/// A request to approve a peer.
#[derive(Debug)]
pub struct ApproveRequest {
    pub tan_id: String,
}

/// A request to send text to a peer.
#[derive(Debug)]
pub struct SendRequest {
    pub tan_id: String,
    pub message: String,
}

/// Whether a request succeeded, and a word on it.
#[derive(Debug)]
pub struct ApiResult {
    pub ok: bool,
    pub message: String,
}

/// Whether the node is running, and which it is.
#[derive(Debug)]
pub struct StatusResponse {
    pub online: bool,
    pub tan_id: String,
}

/// A line typed at the console.
#[derive(Debug)]
pub struct ConsoleRequest {
    pub command: String,
}

/// What the console prints.
#[derive(Debug)]
pub struct ConsoleResponse {
    pub output: String,
}

impl ApiResult {
    /// The answer is this.
    pub open spec fn says(&self, ok: bool, message: Seq<char>) -> bool {
        self.ok == ok && self.message@ == message
    }

    fn new(ok: bool, message: &str) -> (r: Self)
        ensures
            r.says(ok, message@),
    {
        ApiResult { ok, message: message.to_owned() }
    }
}

/// Two texts, one after the other.
fn concat2(a: &str, b: &str) -> (r: String)
    ensures
        r@ == a@ + b@,
{
    let mut r = a.to_owned();
    r.append(b);
    r
}

// Reading.

/// What a peer listed on the dashboard stands for.
#[verifier::ext_equal]
pub struct ListedPeer {
    pub friendly_name: Seq<char>,
    pub status: Seq<char>,
    pub hop_count: u8,
}

/// How a known peer is listed.
pub open spec fn listed(peer: KnownPeer) -> ListedPeer {
    ListedPeer {
        friendly_name: peer.friendly_name,
        status: status_text(peer.status),
        hop_count: peer.beacon.beacon.hop_count,
    }
}

/// The ids of a list of peers.
pub open spec fn listed_ids(v: Seq<PeerResponse>) -> Seq<Seq<char>> {
    v.map_values(|p: PeerResponse| p.tan_id@)
}

/// The entries of a list of peers.
pub open spec fn listed_peers(v: Seq<PeerResponse>) -> Seq<ListedPeer> {
    v.map_values(
        |p: PeerResponse|
            ListedPeer {
                friendly_name: p.friendly_name@,
                status: p.status@,
                hop_count: p.hop_count,
            },
    )
}

impl AppState {
    /// Whether the node is running: it is, if it answers.
    pub fn get_status(&self) -> (r: StatusResponse)
        ensures
            r.online,
            r.tan_id@ == self@.identity.tan_id,
    {
        StatusResponse { online: true, tan_id: self.identity.tan_id.clone() }
    }

    /// Who the node is.
    pub fn get_identity(&self) -> (r: IdentityResponse)
        ensures
            r.tan_id@ == self@.identity.tan_id,
            r.friendly_name@ == self@.identity.friendly_name,
            r.public_key@ == hex_encoded(self@.identity.public_key),
    {
        IdentityResponse {
            tan_id: self.identity.tan_id.clone(),
            friendly_name: self.identity.friendly_name.clone(),
            public_key: hex_text::encode(&self.identity.public_key_bytes()),
        }
    }

    /// The peers that the node knows.
    pub fn get_peers(&self) -> (peers: Vec<PeerResponse>)
        ensures
            lists(
                self@.peers.map_values(|p: KnownPeer| listed(p)),
                listed_ids(peers@),
                listed_peers(peers@),
            ),
    {
        let mut peers: Vec<PeerResponse> = Vec::new();
        let n: usize = self.peer_table.len();
        let ghost keys = self.peer_table.keys();
        let ghost values = self.peer_table.values();
        let mut i: usize = 0;
        while i < n
            invariant
                i <= n,
                keys == self.peer_table.keys(),
                values == self.peer_table.values(),
                n == keys.len(),
                lists(self.peer_table@, keys, values),
                peers@.len() == i,
                forall|j: int|
                    0 <= j < i ==> {
                        &&& (#[trigger] peers@[j]).tan_id@ == keys[j]
                        &&& peers@[j].friendly_name@ == values[j]@.friendly_name
                        &&& peers@[j].status@ == status_text(values[j]@.status)
                        &&& peers@[j].hop_count == values[j]@.beacon.beacon.hop_count
                    },
            decreases n - i,
        {
            let info = self.peer_table.value_at(i);
            peers.push(
                PeerResponse {
                    tan_id: self.peer_table.key_at(i).clone(),
                    friendly_name: info.friendly_name.clone(),
                    status: info.status.as_str().to_owned(),
                    hop_count: info.beacon.beacon.hop_count,
                },
            );
            i = i + 1;
        }
        assert(listed_ids(peers@) =~= keys);
        assert forall|j: int| 0 <= j < keys.len() implies self@.peers.map_values(
            |p: KnownPeer| listed(p),
        )[#[trigger] keys[j]] == listed_peers(peers@)[j] by {
            assert(listed_peers(peers@)[j] == listed(values[j]@));
        }
        peers
    }

    /// The messages with a peer, ordered by time.
    pub fn get_messages(&self, peer_id: &str) -> (messages: Vec<StoredMessage>)
        ensures
            in_order::<StoredMessage>(rows(messages@)),
            rows(messages@).to_multiset() == self@.store.messages.filter(
                of_peer(peer_id@),
            ).to_multiset(),
    {
        self.database.get_messages_with_peer(peer_id)
    }

    /// The conversations, the most recent first.
    pub fn get_conversations(&self) -> (previews: Vec<ConversationPreview>)
        ensures
            in_order::<ConversationPreview>(rows(previews@)),
            rows(previews@).to_multiset() == self@.store.previews().to_multiset(),
    {
        self.database.get_conversations()
    }
}

// Changing the name.

impl AppState {
    /// Change the name of the node. A blank name is refused, with the answer; otherwise the
    /// identity has to be saved, and `identity_saved` gives the answer.
    pub fn update_identity(&mut self, req: &UpdateIdentityRequest) -> (refused: Option<ApiResult>)
        ensures
            match refused {
                Some(r) => {
                    &&& blank(req.friendly_name@)
                    &&& r.says(false, "Name cannot be empty"@)
                    &&& final(self)@ == old(self)@
                },
                None => {
                    &&& !blank(req.friendly_name@)
                    &&& final(self)@ == (NodeView {
                        identity: IdentityView {
                            friendly_name: req.friendly_name@,
                            ..old(self)@.identity
                        },
                        ..old(self)@
                    })
                    &&& old(self).identity.well_formed() ==> final(self).identity.well_formed()
                },
            },
            old(self)@.consistent() ==> final(self)@.consistent(),
    {
        if text::is_blank(req.friendly_name.as_str()) {
            return Some(ApiResult::new(false, "Name cannot be empty"));
        }
        let ghost before = self@;
        self.identity.friendly_name = req.friendly_name.clone();
        assert(self@.peers =~= before.peers);
        None
    }
}

/// The answer to a change of name, given what came of saving it.
pub fn identity_saved(saved: &Result<(), String>) -> (r: ApiResult)
    ensures
        match saved {
            Ok(()) => r.says(true, "Name updated"@),
            Err(e) => r.says(false, "Failed to save: "@ + e@),
        },
{
    match saved {
        Ok(()) => ApiResult::new(true, "Name updated"),
        Err(e) => ApiResult::new(false, concat2("Failed to save: ", e.as_str()).as_str()),
    }
}

// Approving.

impl AppState {
    /// Approve a peer. Returns what to send to it, or the answer if it is not known; the
    /// answer otherwise is what `approval_sent` gives.
    pub fn approve_peer(&mut self, req: &ApproveRequest, now: i64) -> (step: Result<
        Outgoing,
        ApiResult,
    >)
        ensures
            match step {
                Ok(o) => {
                    &&& old(self)@.peers.contains_key(req.tan_id@)
                    &&& o@ == (OutgoingView {
                        recipient: old(self)@.peers[req.tan_id@].beacon,
                        inner: old(self)@.approval(),
                    })
                    &&& final(self)@ == old(self)@.after_approval(req.tan_id@, now)
                },
                Err(r) => {
                    &&& !old(self)@.peers.contains_key(req.tan_id@)
                    &&& r.says(false, "Peer not found"@)
                    &&& final(self)@ == old(self)@
                },
            },
            old(self)@.consistent() ==> final(self)@.consistent(),
    {
        match self.approve(req.tan_id.as_str(), now) {
            Some(outgoing) => Ok(outgoing),
            None => Err(ApiResult::new(false, "Peer not found")),
        }
    }
}

/// The answer to an approval, given what came of sending it.
pub fn approval_sent(tan_id: &str, sent: &Result<(), String>) -> (r: ApiResult)
    ensures
        match sent {
            Ok(()) => r.says(true, "Approved "@ + tan_id@),
            Err(e) => r.says(false, "Approved locally but send failed: "@ + e@),
        },
{
    match sent {
        Ok(()) => ApiResult::new(true, concat2("Approved ", tan_id).as_str()),
        Err(e) => ApiResult::new(
            false,
            concat2("Approved locally but send failed: ", e.as_str()).as_str(),
        ),
    }
}

// Sending.

/// What stands in the way of sending text to a peer.
#[derive(Debug, Clone, Copy, PartialEq, Eq, Structural)]
pub enum SendRefusal {
    NotFound,
    NotApproved,
}

/// Whether text can be sent to a peer.
pub open spec fn send_refusal(node: NodeView, id: Seq<char>) -> Option<SendRefusal> {
    if !node.peers.contains_key(id) {
        Some(SendRefusal::NotFound)
    } else if node.peers[id].status != PeerStatus::Approved {
        Some(SendRefusal::NotApproved)
    } else {
        None
    }
}

impl AppState {
    /// Text for a peer that is known and approved, ready to be sent.
    fn text_for(&self, tan_id: &str, message: &str) -> (step: Result<Outgoing, SendRefusal>)
        ensures
            step is Ok <==> self@.peers.contains_key(tan_id@) && self@.peers[tan_id@].status
                == PeerStatus::Approved,
            match step {
                Ok(o) => {
                    &&& send_refusal(self@, tan_id@) is None
                    &&& o@ == (OutgoingView {
                        recipient: self@.peers[tan_id@].beacon,
                        inner: InnerView::Text(message@),
                    })
                },
                Err(e) => send_refusal(self@, tan_id@) == Some(e),
            },
    {
        match self.peer_table.get(tan_id) {
            Some(peer) => {
                if peer.status != PeerStatus::Approved {
                    Err(SendRefusal::NotApproved)
                } else {
                    Ok(
                        Outgoing {
                            recipient: peer.beacon.clone(),
                            inner: InnerMessage::Text(message.to_owned()),
                        },
                    )
                }
            },
            None => Err(SendRefusal::NotFound),
        }
    }

    /// Send text to a peer. Returns what to send, or the answer if the peer is not known
    /// or not approved; the answer otherwise is what `message_sent` gives.
    pub fn send_message(&self, req: &SendRequest) -> (step: Result<Outgoing, ApiResult>)
        ensures
            step is Ok <==> self@.peers.contains_key(req.tan_id@)
                && self@.peers[req.tan_id@].status == PeerStatus::Approved,
            match step {
                Ok(o) => {
                    &&& send_refusal(self@, req.tan_id@) is None
                    &&& o@ == (OutgoingView {
                        recipient: self@.peers[req.tan_id@].beacon,
                        inner: InnerView::Text(req.message@),
                    })
                },
                Err(r) => match send_refusal(self@, req.tan_id@) {
                    Some(SendRefusal::NotFound) => r.says(false, "Peer not found"@),
                    Some(SendRefusal::NotApproved) => r.says(false, "Peer not approved yet"@),
                    None => false,
                },
            },
    {
        match self.text_for(req.tan_id.as_str(), req.message.as_str()) {
            Ok(outgoing) => Ok(outgoing),
            Err(SendRefusal::NotFound) => Err(ApiResult::new(false, "Peer not found")),
            Err(SendRefusal::NotApproved) => Err(ApiResult::new(false, "Peer not approved yet")),
        }
    }

    /// Store text that was sent.
    fn store_sent(&mut self, tan_id: &str, message: &str, now: i64)
        ensures
            final(self)@ == (NodeView {
                store: stored_message(old(self)@.store, tan_id@, message@, "sent"@, now),
                ..old(self)@
            }),
            old(self)@.consistent() ==> final(self)@.consistent(),
    {
        let ghost before = self@;
        let _ = self.database.save_message_at(tan_id, message, "sent", now);
        assert(self@.peers =~= before.peers);
    }

    /// The answer to sending text, given what came of it. Text that was sent is stored.
    pub fn message_sent(&mut self, req: &SendRequest, sent: &Result<(), String>, now: i64) -> (r:
        ApiResult)
        ensures
            match sent {
                Ok(()) => {
                    &&& r.says(true, "Sent"@)
                    &&& final(self)@ == (NodeView {
                        store: stored_message(
                            old(self)@.store,
                            req.tan_id@,
                            req.message@,
                            "sent"@,
                            now,
                        ),
                        ..old(self)@
                    })
                },
                Err(e) => {
                    &&& r.says(false, "Failed: "@ + e@)
                    &&& final(self)@ == old(self)@
                },
            },
            old(self)@.consistent() ==> final(self)@.consistent(),
    {
        match sent {
            Ok(()) => {
                self.store_sent(req.tan_id.as_str(), req.message.as_str(), now);
                ApiResult::new(true, "Sent")
            },
            Err(e) => ApiResult::new(false, concat2("Failed: ", e.as_str()).as_str()),
        }
    }
}

// The console.

/// What a line typed at the console comes to.
pub enum ConsoleStep {
    /// Print this.
    Say(ConsoleResponse),
    /// Send this approval; `console_approved` then says what to print.
    Approve { tan_id: String, outgoing: Outgoing },
    /// Send this text; `console_sent` then says what to print.
    Send { tan_id: String, message: String, outgoing: Outgoing },
}

impl ConsoleStep {
    /// The step is to print this.
    pub open spec fn says(&self, output: Seq<char>) -> bool {
        self matches ConsoleStep::Say(r) && r.output@ == output
    }
}

fn say(output: String) -> (step: ConsoleStep)
    ensures
        step.says(output@),
{
    ConsoleStep::Say(ConsoleResponse { output })
}

/// What `id` prints.
pub open spec fn identity_text(identity: IdentityView) -> Seq<char> {
    "Identity:\n  TanID: "@ + identity.tan_id + "\n  Name:  "@ + identity.friendly_name
        + "\n  Key:   "@ + hex_encoded(identity.public_key)
}

/// The word for a status that `peers` prints.
pub open spec fn status_word(status: PeerStatus) -> Seq<char> {
    match status {
        PeerStatus::PendingUs => "PendingUs"@,
        PeerStatus::PendingThem => "PendingThem"@,
        PeerStatus::Approved => "Approved"@,
    }
}

/// The line that `peers` prints for a peer.
pub open spec fn peer_line(id: Seq<char>, peer: KnownPeer) -> Seq<char> {
    "  - "@ + peer.friendly_name + " ["@ + id + "] ("@ + status_word(peer.status) + ")\n"@
}

/// What `peers` prints for these peers, in this order.
pub open spec fn peers_text(ids: Seq<Seq<char>>, peers: Seq<KnownPeer>) -> Seq<char>
    recommends
        ids.len() == peers.len(),
    decreases ids.len(),
{
    if ids.len() == 0 {
        "Discovered Peers:\n"@
    } else {
        peers_text(ids.drop_last(), peers.drop_last()) + peer_line(ids.last(), peers.last())
    }
}

/// The known peers, as the values of a table.
pub open spec fn known_peers(v: Seq<crate::node::PeerInfo>) -> Seq<KnownPeer> {
    v.map_values(|p: crate::node::PeerInfo| p@)
}

/// What a line whose first word is `approve` comes to.
pub open spec fn console_approves(
    before: NodeView,
    after: NodeView,
    words: Seq<Seq<char>>,
    step: ConsoleStep,
    now: i64,
) -> bool {
    if words.len() < 2 {
        step.says("Usage: approve <tan_id>"@) && after == before
    } else if !before.peers.contains_key(words[1]) {
        step.says("Peer not found: "@ + words[1]) && after == before
    } else {
        &&& step matches ConsoleStep::Approve { tan_id, outgoing }
        &&& tan_id@ == words[1]
        &&& outgoing@ == (OutgoingView {
            recipient: before.peers[words[1]].beacon,
            inner: before.approval(),
        })
        &&& after == before.after_approval(words[1], now)
    }
}

/// What a line whose first word is `send` comes to.
pub open spec fn console_sends(node: NodeView, words: Seq<Seq<char>>, step: ConsoleStep) -> bool {
    if words.len() < 3 {
        step.says("Usage: send <tan_id> <message...>"@)
    } else {
        match send_refusal(node, words[1]) {
            Some(SendRefusal::NotFound) => step.says("Peer not found: "@ + words[1]),
            Some(SendRefusal::NotApproved) => step.says("Peer not approved yet."@),
            None => {
                &&& step matches ConsoleStep::Send { tan_id, message, outgoing }
                &&& tan_id@ == words[1]
                &&& message@ == joined(words.skip(2), " "@)
                &&& outgoing@ == (OutgoingView {
                    recipient: node.peers[words[1]].beacon,
                    inner: InnerView::Text(joined(words.skip(2), " "@)),
                })
            },
        }
    }
}

/// What `peers` comes to.
pub open spec fn console_lists(node: NodeView, step: ConsoleStep) -> bool {
    if forall|id: Seq<char>| !#[trigger] node.peers.contains_key(id) {
        step.says("No peers discovered yet."@)
    } else {
        exists|ids: Seq<Seq<char>>, peers: Seq<KnownPeer>| #[trigger]
            lists(node.peers, ids, peers) && step.says(peers_text(ids, peers))
    }
}

impl AppState {
    fn identity_output(&self) -> (output: String)
        ensures
            output@ == identity_text(self@.identity),
    {
        let mut output = "Identity:\n  TanID: ".to_owned();
        output.append(self.identity.tan_id.as_str());
        output.append("\n  Name:  ");
        output.append(self.identity.friendly_name.as_str());
        output.append("\n  Key:   ");
        output.append(hex_text::encode(&self.identity.public_key_bytes()).as_str());
        output
    }

    fn peers_output(&self) -> (step: ConsoleStep)
        ensures
            console_lists(self@, step),
    {
        let n: usize = self.peer_table.len();
        let ghost keys = self.peer_table.keys();
        let ghost peers = known_peers(self.peer_table.values());
        proof {
            assert(lists(self@.peers, keys, peers)) by {
                assert forall|j: int| 0 <= j < keys.len() implies self@.peers.contains_key(
                    #[trigger] keys[j],
                ) && self@.peers[keys[j]] == peers[j] by {}
            }
        }
        if n == 0 {
            assert forall|id: Seq<char>| !#[trigger] self@.peers.contains_key(id) by {
                assert(!keys.contains(id));
            }
            return say("No peers discovered yet.".to_owned());
        }
        assert(self@.peers.contains_key(keys[0]));
        let mut output = "Discovered Peers:\n".to_owned();
        let mut i: usize = 0;
        while i < n
            invariant
                i <= n,
                n == keys.len(),
                keys.len() == peers.len(),
                keys == self.peer_table.keys(),
                peers == known_peers(self.peer_table.values()),
                output@ == peers_text(keys.take(i as int), peers.take(i as int)),
            decreases n - i,
        {
            let info = self.peer_table.value_at(i);
            let ghost shown = output@;
            output.append("  - ");
            output.append(info.friendly_name.as_str());
            output.append(" [");
            output.append(self.peer_table.key_at(i).as_str());
            output.append("] (");
            output.append(
                match info.status {
                    PeerStatus::PendingUs => "PendingUs",
                    PeerStatus::PendingThem => "PendingThem",
                    PeerStatus::Approved => "Approved",
                },
            );
            output.append(")\n");
            proof {
                assert(info@ == peers[i as int]);
                assert(output@ =~= shown + peer_line(keys[i as int], peers[i as int]));
                assert(keys.take(i + 1).drop_last() =~= keys.take(i as int));
                assert(peers.take(i + 1).drop_last() =~= peers.take(i as int));
            }
            i = i + 1;
        }
        assert(keys.take(i as int) =~= keys);
        assert(peers.take(i as int) =~= peers);
        say(output)
    }

    /// Carry out a line typed at the console.
    pub fn execute_command(&mut self, req: &ConsoleRequest, now: i64) -> (step: ConsoleStep)
        ensures
            ({
                let words = words_of(req.command@);
                if words.len() == 0 {
                    step.says(Seq::empty()) && final(self)@ == old(self)@
                } else if words[0] == "help"@ {
                    &&& step.says(
                        "Available commands: id, peers, approve <id>, send <id> <msg>, clear, help"@,
                    )
                    &&& final(self)@ == old(self)@
                } else if words[0] == "id"@ {
                    step.says(identity_text(old(self)@.identity)) && final(self)@ == old(self)@
                } else if words[0] == "peers"@ {
                    console_lists(old(self)@, step) && final(self)@ == old(self)@
                } else if words[0] == "approve"@ {
                    console_approves(old(self)@, final(self)@, words, step, now)
                } else if words[0] == "send"@ {
                    console_sends(old(self)@, words, step) && final(self)@ == old(self)@
                } else {
                    step.says("Unknown command: "@ + words[0]) && final(self)@ == old(self)@
                }
            }),
            old(self)@.consistent() ==> final(self)@.consistent(),
    {
        let parts = text::words(req.command.as_str());
        let ghost words = words_of(req.command@);
        if parts.len() == 0 {
            return say(String::new());
        }
        assert(parts@[0]@ == words[0]);
        let first = parts[0].as_str();
        if text::same(first, "help") {
            say(
                "Available commands: id, peers, approve <id>, send <id> <msg>, clear, help".to_owned(),
            )
        } else if text::same(first, "id") {
            say(self.identity_output())
        } else if text::same(first, "peers") {
            self.peers_output()
        } else if text::same(first, "approve") {
            if parts.len() < 2 {
                return say("Usage: approve <tan_id>".to_owned());
            }
            assert(parts@[1]@ == words[1]);
            match self.approve(parts[1].as_str(), now) {
                Some(outgoing) => ConsoleStep::Approve { tan_id: parts[1].clone(), outgoing },
                None => say(concat2("Peer not found: ", parts[1].as_str())),
            }
        } else if text::same(first, "send") {
            if parts.len() < 3 {
                return say("Usage: send <tan_id> <message...>".to_owned());
            }
            assert(parts@[1]@ == words[1]);
            let message = text::join(&parts, 2, " ");
            match self.text_for(parts[1].as_str(), message.as_str()) {
                Ok(outgoing) => ConsoleStep::Send { tan_id: parts[1].clone(), message, outgoing },
                Err(SendRefusal::NotFound) => say(concat2("Peer not found: ", parts[1].as_str())),
                Err(SendRefusal::NotApproved) => say("Peer not approved yet.".to_owned()),
            }
        } else {
            say(concat2("Unknown command: ", first))
        }
    }

    /// What the console prints once text was sent or not. Text that was sent is stored.
    pub fn console_sent(
        &mut self,
        tan_id: &str,
        message: &str,
        sent: &Result<(), String>,
        now: i64,
    ) -> (r: ConsoleResponse)
        ensures
            match sent {
                Ok(()) => {
                    &&& r.output@ == "Message sent to "@ + tan_id@
                    &&& final(self)@ == (NodeView {
                        store: stored_message(old(self)@.store, tan_id@, message@, "sent"@, now),
                        ..old(self)@
                    })
                },
                Err(e) => {
                    &&& r.output@ == "Failed to send: "@ + e@
                    &&& final(self)@ == old(self)@
                },
            },
            old(self)@.consistent() ==> final(self)@.consistent(),
    {
        match sent {
            Ok(()) => {
                self.store_sent(tan_id, message, now);
                ConsoleResponse { output: concat2("Message sent to ", tan_id) }
            },
            Err(e) => ConsoleResponse { output: concat2("Failed to send: ", e.as_str()) },
        }
    }
}

/// What the console prints once an approval was sent or not.
pub fn console_approved(tan_id: &str, sent: &Result<(), String>) -> (r: ConsoleResponse)
    ensures
        match sent {
            Ok(()) => r.output@ == "Approved peer: "@ + tan_id@,
            Err(e) => r.output@ == "Approved locally but send failed: "@ + e@,
        },
{
    match sent {
        Ok(()) => ConsoleResponse { output: concat2("Approved peer: ", tan_id) },
        Err(e) => ConsoleResponse {
            output: concat2("Approved locally but send failed: ", e.as_str()),
        },
    }
}

// The server's port.

/// How many ports are tried.
pub const PORT_TRIES: u8 = 10;

/// The search for a free port.
#[derive(Debug, Clone, Copy, PartialEq, Eq, Structural)]
pub struct PortSearch {
    /// The port to try next.
    pub port: u16,
    /// How many tries are left, this one among them.
    pub tries_left: u8,
}

/// What came of trying a port.
#[derive(Debug, Clone, Copy, PartialEq, Eq, Structural)]
pub enum BindOutcome {
    Bound,
    InUse,
    Failed,
}

/// What to do after a port was tried.
#[derive(Debug, Clone, Copy, PartialEq, Eq, Structural)]
pub enum PortStep {
    /// Serve on this port.
    Serve(u16),
    /// Try the next port.
    Try(PortSearch),
    /// No port was free.
    Exhausted,
    /// The port could not be had for another reason.
    Abandon,
}

impl PortSearch {
    /// The search that begins at a port.
    pub fn new(port: u16) -> (search: Self)
        ensures
            search == (PortSearch { port, tries_left: PORT_TRIES }),
    {
        PortSearch { port, tries_left: PORT_TRIES }
    }

    /// What follows from trying the port.
    pub open spec fn follows(self, outcome: BindOutcome) -> PortStep {
        match outcome {
            BindOutcome::Bound => PortStep::Serve(self.port),
            BindOutcome::Failed => PortStep::Abandon,
            BindOutcome::InUse => if self.tries_left <= 1 {
                PortStep::Exhausted
            } else {
                PortStep::Try(
                    PortSearch {
                        port: (self.port + 1) as u16,
                        tries_left: (self.tries_left - 1) as u8,
                    },
                )
            },
        }
    }

    /// Decide what follows from trying the port.
    pub fn step(&self, outcome: BindOutcome) -> (step: PortStep)
        requires
            outcome == BindOutcome::InUse ==> self.port < u16::MAX,
        ensures
            step == self.follows(outcome),
    {
        match outcome {
            BindOutcome::Bound => PortStep::Serve(self.port),
            BindOutcome::Failed => PortStep::Abandon,
            BindOutcome::InUse => {
                if self.tries_left <= 1 {
                    PortStep::Exhausted
                } else {
                    PortStep::Try(
                        PortSearch { port: self.port + 1, tries_left: self.tries_left - 1 },
                    )
                }
            },
        }
    }
}

/// The search after this many ports were found in use.
pub open spec fn searched(search: PortSearch, in_use: nat) -> PortStep
    decreases in_use,
{
    if in_use == 0 {
        PortStep::Try(search)
    } else {
        match searched(search, (in_use - 1) as nat) {
            PortStep::Try(next) => next.follows(BindOutcome::InUse),
            other => other,
        }
    }
}

/// The ports that are tried are the first one and those that follow it, ten in all; then
/// the search is over.
pub proof fn law_ten_ports_are_tried(port: u16, in_use: nat)
    requires
        port + PORT_TRIES <= u16::MAX,
    ensures
        in_use < PORT_TRIES ==> searched(
            PortSearch { port, tries_left: PORT_TRIES },
            in_use,
        ) == PortStep::Try(
            PortSearch { port: (port + in_use) as u16, tries_left: (PORT_TRIES - in_use) as u8 },
        ),
        in_use >= PORT_TRIES ==> searched(PortSearch { port, tries_left: PORT_TRIES }, in_use)
            == PortStep::Exhausted,
    decreases in_use,
{
    if in_use > 0 {
        law_ten_ports_are_tried(port, (in_use - 1) as nat);
    }
}

// Laws.

/// Text may be sent to a peer if and only if the peer is known and approved. It is refused
/// as unknown if the peer is not known, and as not approved whatever else the status is.
pub proof fn law_text_goes_only_to_approved_peers(node: NodeView, id: Seq<char>)
    ensures
        send_refusal(node, id) is None <==> node.peers.contains_key(id) && node.peers[id].status
            == PeerStatus::Approved,
        send_refusal(node, id) == Some(SendRefusal::NotFound) <==> !node.peers.contains_key(id),
        send_refusal(node, id) == Some(SendRefusal::NotApproved) <==> node.peers.contains_key(id)
            && (node.peers[id].status == PeerStatus::PendingUs || node.peers[id].status
            == PeerStatus::PendingThem),
{
}

/// What a line that begins with `send` comes to: how to use it, without an id and a text; a
/// refusal, unless the peer is known and approved; and otherwise the words after the id, with
/// one space between each two, on their way to that peer.
pub proof fn law_console_sends_to_approved_peers(
    node: NodeView,
    words: Seq<Seq<char>>,
    step: ConsoleStep,
)
    requires
        console_sends(node, words, step),
    ensures
        step is Send <==> words.len() >= 3 && node.peers.contains_key(words[1])
            && node.peers[words[1]].status == PeerStatus::Approved,
        step !is Approve,
        step matches ConsoleStep::Send { tan_id, message, outgoing } ==> {
            &&& tan_id@ == words[1]
            &&& message@ == joined(words.skip(2), " "@)
            &&& outgoing@.recipient == node.peers[words[1]].beacon
            &&& outgoing@.inner == InnerView::Text(joined(words.skip(2), " "@))
        },
        step matches ConsoleStep::Say(r) ==> r.output@ == (if words.len() < 3 {
            "Usage: send <tan_id> <message...>"@
        } else if !node.peers.contains_key(words[1]) {
            "Peer not found: "@ + words[1]
        } else {
            "Peer not approved yet."@
        }),
{
}

/// What a line that begins with `approve` comes to: how to use it, without an id; a word on
/// it, if the peer is not known; and otherwise the peer is approved and told so.
pub proof fn law_console_approves_known_peers(
    before: NodeView,
    after: NodeView,
    words: Seq<Seq<char>>,
    step: ConsoleStep,
    now: i64,
)
    requires
        console_approves(before, after, words, step, now),
    ensures
        step is Approve <==> words.len() >= 2 && before.peers.contains_key(words[1]),
        step !is Send,
        step matches ConsoleStep::Approve { tan_id, outgoing } ==> {
            &&& tan_id@ == words[1]
            &&& outgoing@.recipient == before.peers[words[1]].beacon
            &&& outgoing@.inner == (InnerView::FriendApproval {
                friendly_name: before.identity.friendly_name,
            })
            &&& after == before.after_approval(words[1], now)
        },
        step matches ConsoleStep::Say(r) ==> {
            &&& after == before
            &&& r.output@ == (if words.len() < 2 {
                "Usage: approve <tan_id>"@
            } else {
                "Peer not found: "@ + words[1]
            })
        },
{
}

/// What `peers` prints: a word on it if nobody is known; otherwise a heading and then, for
/// each known peer, once, a line with its name, its id and its status.
pub proof fn law_console_lists_every_peer(node: NodeView, step: ConsoleStep)
    requires
        console_lists(node, step),
    ensures
        step is Say,
        node.peers.dom() =~= Set::<Seq<char>>::empty() ==> step->Say_0.output@
            == "No peers discovered yet."@,
        !(node.peers.dom() =~= Set::<Seq<char>>::empty()) ==> exists|
            ids: Seq<Seq<char>>,
            peers: Seq<KnownPeer>,
        | #[trigger]
            lists(node.peers, ids, peers) && step->Say_0.output@ == peers_text(ids, peers),
{
    assert((forall|id: Seq<char>| !#[trigger] node.peers.contains_key(id)) <==> node.peers.dom()
        =~= Set::<Seq<char>>::empty()) by {
        if forall|id: Seq<char>| !#[trigger] node.peers.contains_key(id) {
            assert forall|id: Seq<char>| !node.peers.dom().contains(id) by {
                assert(!node.peers.contains_key(id));
            }
        } else {
            let id = choose|id: Seq<char>| #[trigger] node.peers.contains_key(id);
            assert(node.peers.dom().contains(id));
        }
    }
}

/// The listing of `peers` begins with its heading and grows by one line for each peer.
pub proof fn law_one_line_for_each_peer(
    ids: Seq<Seq<char>>,
    peers: Seq<KnownPeer>,
    id: Seq<char>,
    peer: KnownPeer,
)
    requires
        ids.len() == peers.len(),
    ensures
        peers_text(Seq::empty(), Seq::empty()) == "Discovered Peers:\n"@,
        peers_text(ids.push(id), peers.push(peer)) == peers_text(ids, peers) + "  - "@
            + peer.friendly_name + " ["@ + id + "] ("@ + (match peer.status {
            PeerStatus::PendingUs => "PendingUs"@,
            PeerStatus::PendingThem => "PendingThem"@,
            PeerStatus::Approved => "Approved"@,
        }) + ")\n"@,
{
    assert(ids.push(id).drop_last() =~= ids);
    assert(peers.push(peer).drop_last() =~= peers);
    assert(peers_text(ids.push(id), peers.push(peer)) =~= peers_text(ids, peers) + "  - "@
        + peer.friendly_name + " ["@ + id + "] ("@ + (match peer.status {
        PeerStatus::PendingUs => "PendingUs"@,
        PeerStatus::PendingThem => "PendingThem"@,
        PeerStatus::Approved => "Approved"@,
    }) + ")\n"@);
}

/// `id` prints the id, the name and the public key of the node, each on its line.
pub proof fn law_console_prints_the_identity(identity: IdentityView)
    ensures
        identity_text(identity) == "Identity:\n  TanID: "@ + identity.tan_id + "\n  Name:  "@
            + identity.friendly_name + "\n  Key:   "@ + hex_encoded(identity.public_key),
{
}

/// The dashboard lists every known peer once, under its id, with its name, its status and
/// its hops.
pub proof fn law_dashboard_lists_every_peer(node: NodeView, listing: Seq<PeerResponse>, i: int)
    requires
        lists(
            node.peers.map_values(|p: KnownPeer| listed(p)),
            listed_ids(listing),
            listed_peers(listing),
        ),
        0 <= i < listing.len(),
    ensures
        ({
            let id = listing[i].tan_id@;
            let status = node.peers[id].status;
            &&& node.peers.contains_key(id)
            &&& listing[i].friendly_name@ == node.peers[id].friendly_name
            &&& listing[i].hop_count == node.peers[id].beacon.beacon.hop_count
            &&& listing[i].status@ == (match status {
                PeerStatus::PendingUs => "pending_us"@,
                PeerStatus::PendingThem => "pending_them"@,
                PeerStatus::Approved => "approved"@,
            })
        }),
{
    let ids = listed_ids(listing);
    let shown = node.peers.map_values(|p: KnownPeer| listed(p));
    assert(ids[i] == listing[i].tan_id@);
    assert(shown.contains_key(ids[i]) && shown[ids[i]] == listed_peers(listing)[i]);
    assert(shown[ids[i]] == listed(node.peers[ids[i]]));
}

/// A list of peers has an entry for each of its items, with all that the item says.
pub proof fn law_listing_holds_every_field(listing: Seq<PeerResponse>, i: int)
    ensures
        listed_ids(listing).len() == listing.len(),
        listed_peers(listing).len() == listing.len(),
        0 <= i < listing.len() ==> listed_ids(listing)[i] == listing[i].tan_id@,
        0 <= i < listing.len() ==> listed_peers(listing)[i] == (ListedPeer {
            friendly_name: listing[i].friendly_name@,
            status: listing[i].status@,
            hop_count: listing[i].hop_count,
        }),
{
}

/// To say something is to have it as the message or the output.
pub proof fn law_what_is_said(
    answer: ApiResult,
    step: ConsoleStep,
    ok: bool,
    message: Seq<char>,
)
    ensures
        answer.says(ok, message) <==> answer.ok == ok && answer.message@ == message,
        step.says(message) <==> (step is Say && step->Say_0.output@ == message),
{
}

/// A port that could be had is served on; one that is in use is followed by the next, while
/// tries are left; any other failure ends the search.
pub proof fn law_what_follows_a_try(search: PortSearch)
    ensures
        search.follows(BindOutcome::Bound) == PortStep::Serve(search.port),
        search.follows(BindOutcome::Failed) == PortStep::Abandon,
        search.tries_left <= 1 ==> search.follows(BindOutcome::InUse) == PortStep::Exhausted,
        search.tries_left > 1 && search.port < 65535 ==> search.follows(BindOutcome::InUse)
            == PortStep::Try(
            PortSearch {
                port: (search.port + 1) as u16,
                tries_left: (search.tries_left - 1) as u8,
            },
        ),
        PORT_TRIES == 10,
{
}

} // verus!
