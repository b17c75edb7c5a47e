//! The mesh engine: what it does on the network's events, and what it tells the node.
//!
//! The engine holds the connections; here it is only decided what it does. Peers and their
//! addresses are of whatever types the network library has for them.
use crate::crypto::decrypted;
use crate::node::{outgoing_views, AppState, NodeView, Outgoing};
use crate::wire::GossipPacket;
use vstd::prelude::*;

verus! {

/// Seconds between two heartbeats of the gossip protocol.
pub const HEARTBEAT_INTERVAL: u64 = 1;

/// Seconds after which an idle connection is closed.
pub const IDLE_TIMEOUT: u64 = 60;

/// How many packets or events may wait on a channel.
pub const CHANNEL_CAPACITY: usize = 100;

/// What the engine tells the node.
#[derive(Debug)]
pub enum NetworkEvent<P> {
    PeerDiscovered(P),
    PeerExpired(P),
    PacketReceived(GossipPacket),
}

/// What the engine is to do.
pub enum EngineAction<P, A> {
    /// Connect to this address.
    Dial(A),
    /// Pass gossip to this peer from now on.
    AddPeer(P),
    /// Pass no more gossip to this peer.
    RemovePeer(P),
    /// Tell the node.
    Notify(NetworkEvent<P>),
}

/// For each peer that was found: connect, pass gossip to it, and tell the node.
pub open spec fn discovered_actions<P, A>(found: Seq<(P, A)>) -> Seq<EngineAction<P, A>>
    decreases found.len(),
{
    if found.len() == 0 {
        Seq::empty()
    } else {
        let (peer, addr) = found.last();
        discovered_actions(found.drop_last()) + seq![
            EngineAction::Dial(addr),
            EngineAction::AddPeer(peer),
            EngineAction::Notify(NetworkEvent::PeerDiscovered(peer)),
        ]
    }
}

/// For each peer that was lost: pass no more gossip to it, and tell the node.
pub open spec fn expired_actions<P, A>(lost: Seq<(P, A)>) -> Seq<EngineAction<P, A>>
    decreases lost.len(),
{
    if lost.len() == 0 {
        Seq::empty()
    } else {
        let (peer, addr) = lost.last();
        expired_actions(lost.drop_last()) + seq![
            EngineAction::RemovePeer(peer),
            EngineAction::Notify(NetworkEvent::PeerExpired(peer)),
        ]
    }
}

/// What to do when peers were found on the local network.
pub fn on_discovered<P: Copy, A: Copy>(found: &Vec<(P, A)>) -> (actions: Vec<EngineAction<P, A>>)
    ensures
        actions@ == discovered_actions(found@),
{
    let mut actions: Vec<EngineAction<P, A>> = Vec::new();
    let mut i: usize = 0;
    while i < found.len()
        invariant
            i <= found@.len(),
            actions@ == discovered_actions(found@.take(i as int)),
        decreases found@.len() - i,
    {
        let ghost before = actions@;
        let (peer, addr) = found[i];
        actions.push(EngineAction::Dial(addr));
        actions.push(EngineAction::AddPeer(peer));
        actions.push(EngineAction::Notify(NetworkEvent::PeerDiscovered(peer)));
        i = i + 1;
        proof {
            assert(found@.take(i as int).drop_last() =~= found@.take(i - 1));
            assert(actions@ =~= discovered_actions(found@.take(i as int)));
        }
    }
    assert(found@.take(i as int) =~= found@);
    actions
}

/// What to do when peers were lost.
pub fn on_expired<P: Copy, A: Copy>(lost: &Vec<(P, A)>) -> (actions: Vec<EngineAction<P, A>>)
    ensures
        actions@ == expired_actions(lost@),
{
    let mut actions: Vec<EngineAction<P, A>> = Vec::new();
    let mut i: usize = 0;
    while i < lost.len()
        invariant
            i <= lost@.len(),
            actions@ == expired_actions(lost@.take(i as int)),
        decreases lost@.len() - i,
    {
        let (peer, _addr) = lost[i];
        actions.push(EngineAction::RemovePeer(peer));
        actions.push(EngineAction::Notify(NetworkEvent::PeerExpired(peer)));
        i = i + 1;
        proof {
            assert(lost@.take(i as int).drop_last() =~= lost@.take(i - 1));
            assert(actions@ =~= expired_actions(lost@.take(i as int)));
        }
    }
    assert(lost@.take(i as int) =~= lost@);
    actions
}

/// What came of publishing a packet.
#[derive(Debug, Clone, Copy, PartialEq, Eq, Structural)]
pub enum PublishOutcome {
    Published,
    /// Nobody else is on the mesh yet.
    NoPeers,
    Failed,
}

/// Whether the outcome is worth an error report. To be the first on the mesh is not.
pub fn is_publish_error(outcome: PublishOutcome) -> (r: bool)
    ensures
        r == (outcome == PublishOutcome::Failed),
{
    match outcome {
        PublishOutcome::Failed => true,
        _ => false,
    }
}

/// What the node wants done after an event.
pub enum NodeStep {
    /// Nothing.
    Idle,
    /// Send these.
    Send(Vec<Outgoing>),
    /// Parse this, which the node with this id said, and hand it to `AppState::on_inner`.
    Parse { from_id: String, plaintext: Vec<u8> },
}

/// What an event comes to for the node: a beacon is heard, a message is read if it is for
/// the node, and anything else is only worth a note.
pub open spec fn event_outcome<P>(
    before: NodeView,
    after: NodeView,
    event: NetworkEvent<P>,
    step: NodeStep,
) -> bool {
    match event {
        NetworkEvent::PacketReceived(GossipPacket::Beacon { data }) => {
            &&& step matches NodeStep::Send(outgoing)
            &&& outgoing_views(outgoing@) == before.answers_to_beacon(data@)
            &&& after == before.after_beacon(data@)
        },
        NetworkEvent::PacketReceived(GossipPacket::Message { data }) => {
            &&& after == before
            &&& if data@.to_id == before.identity.tan_id && data@.opened(
                before.identity.seed,
            ) is Some {
                &&& step matches NodeStep::Parse { from_id, plaintext }
                &&& from_id@ == data@.from_id
                &&& data@.opened(before.identity.seed) == Some(plaintext@)
            } else {
                step is Idle
            }
        },
        _ => step is Idle && after == before,
    }
}

impl AppState {
    /// Take in an event of the network.
    pub fn on_event<P>(&mut self, event: &NetworkEvent<P>) -> (step: NodeStep)
        ensures
            event_outcome(old(self)@, final(self)@, *event, step),
            old(self)@.consistent() ==> final(self)@.consistent(),
    {
        match event {
            NetworkEvent::PacketReceived(GossipPacket::Beacon { data }) => NodeStep::Send(
                self.on_beacon(data),
            ),
            NetworkEvent::PacketReceived(GossipPacket::Message { data }) => {
                match self.read_message(data) {
                    Some(plaintext) => NodeStep::Parse {
                        from_id: data.from_id.clone(),
                        plaintext,
                    },
                    None => NodeStep::Idle,
                }
            },
            NetworkEvent::PeerDiscovered(_) => NodeStep::Idle,
            NetworkEvent::PeerExpired(_) => NodeStep::Idle,
        }
    }
}

/// Each peer that was found is dialled, then gets gossip, then is reported, in the order of
/// the list; each that was lost gets no more gossip and is reported. Nothing else is done.
pub proof fn law_what_the_engine_does<P, A>(list: Seq<(P, A)>, i: int)
    ensures
        discovered_actions(list).len() == 3 * list.len(),
        expired_actions(list).len() == 2 * list.len(),
        0 <= i < list.len() ==> {
            &&& discovered_actions(list)[3 * i] == EngineAction::<P, A>::Dial(list[i].1)
            &&& discovered_actions(list)[3 * i + 1] == EngineAction::<P, A>::AddPeer(list[i].0)
            &&& discovered_actions(list)[3 * i + 2] == EngineAction::<P, A>::Notify(
                NetworkEvent::PeerDiscovered(list[i].0),
            )
            &&& expired_actions(list)[2 * i] == EngineAction::<P, A>::RemovePeer(list[i].0)
            &&& expired_actions(list)[2 * i + 1] == EngineAction::<P, A>::Notify(
                NetworkEvent::PeerExpired(list[i].0),
            )
        },
    decreases list.len(),
{
    if list.len() > 0 {
        law_what_the_engine_does(list.drop_last(), i);
    }
}

/// What the node makes of a packet and of other events. A beacon is heard, and what it
/// answers is sent. A message for the node that decrypts with its secret is to be parsed; any
/// other message, and any other event, comes to nothing.
pub proof fn law_what_events_come_to<P>(
    before: NodeView,
    after: NodeView,
    event: NetworkEvent<P>,
    step: NodeStep,
)
    requires
        event_outcome(before, after, event, step),
    ensures
        !(event is PacketReceived) ==> step is Idle && after == before,
        event matches NetworkEvent::PacketReceived(GossipPacket::Beacon { data }) ==> {
            &&& step is Send
            &&& outgoing_views(step->Send_0@) == before.answers_to_beacon(data@)
            &&& after == before.after_beacon(data@)
        },
        event matches NetworkEvent::PacketReceived(GossipPacket::Message { data }) ==> {
            let read = decrypted(
                before.identity.seed,
                data@.ephemeral_pubkey,
                data@.nonce,
                data@.payload,
            );
            let ours = data@.to_id == before.identity.tan_id && read is Some;
            &&& after == before
            &&& step is Parse <==> ours
            &&& !ours ==> step is Idle
            &&& ours ==> step->from_id@ == data@.from_id && step->plaintext@ == read->0
        },
        HEARTBEAT_INTERVAL == 1,
        IDLE_TIMEOUT == 60,
        CHANNEL_CAPACITY == 100,
        crate::node::ANNOUNCED_PORT == 7701,
        crate::node::ANNOUNCE_INTERVAL == 5,
{
}

} // verus!
