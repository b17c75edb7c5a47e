//! Peer table and routing table.
//!
//! Known peers with their addresses, hop counts, keys and the time they were last seen,
//! and for each of them the address through which messages reach it.
use crate::table::{distinct, lists, same_but, Table};
use crate::text::texts;
use crate::wire::{Announcement, AnnouncementView};
use vstd::prelude::*;

verus! {

/// How long, in nanoseconds, before a peer is considered stale and pruned.
pub const PEER_TIMEOUT: u64 = 30_000_000_000;

/// Seconds between two prune sweeps.
pub const PRUNE_INTERVAL: u64 = 10;

/// An internet address.
#[derive(Debug, Clone, Copy, PartialEq, Eq)]
pub enum Ip {
    V4([u8; 4]),
    V6([u8; 16]),
}

/// An internet address and a port.
#[derive(Debug, Clone, Copy, PartialEq, Eq)]
pub struct Endpoint {
    pub ip: Ip,
    pub port: u16,
}

/// Information about a known peer. Times are in nanoseconds on the node's own clock.
#[derive(Debug)]
pub struct PeerInfo {
    pub node_id: String,
    pub public_key: [u8; 32],
    pub encryption_pubkey: [u8; 32],
    pub addr: Endpoint,
    pub hop_count: u8,
    pub last_seen: u64,
}

/// What the information about a peer stands for.
#[verifier::ext_equal]
pub struct PeerView {
    pub node_id: Seq<char>,
    pub public_key: Seq<u8>,
    pub encryption_pubkey: Seq<u8>,
    pub addr: Endpoint,
    pub hop_count: u8,
    pub last_seen: u64,
}

impl View for PeerInfo {
    type V = PeerView;

    open spec fn view(&self) -> PeerView {
        PeerView {
            node_id: self.node_id@,
            public_key: self.public_key@,
            encryption_pubkey: self.encryption_pubkey@,
            addr: self.addr,
            hop_count: self.hop_count,
            last_seen: self.last_seen,
        }
    }
}

impl PeerView {
    /// Not seen for longer than the timeout. A peer seen in the future is not stale.
    pub open spec fn stale(self, now: u64) -> bool {
        now - self.last_seen > PEER_TIMEOUT
    }
}

impl Clone for PeerInfo {
    fn clone(&self) -> (copy: Self)
        ensures
            copy@ == self@,
    {
        PeerInfo {
            node_id: self.node_id.clone(),
            public_key: self.public_key,
            encryption_pubkey: self.encryption_pubkey,
            addr: self.addr,
            hop_count: self.hop_count,
            last_seen: self.last_seen,
        }
    }
}

/// Entry of the routing table: where to forward messages for a destination.
#[derive(Debug)]
pub struct RouteEntry {
    pub next_hop_id: String,
    pub next_hop_addr: Endpoint,
    pub hop_count: u8,
    pub last_updated: u64,
}

/// What an entry of the routing table stands for.
#[verifier::ext_equal]
pub struct RouteView {
    pub next_hop_id: Seq<char>,
    pub next_hop_addr: Endpoint,
    pub hop_count: u8,
    pub last_updated: u64,
}

impl View for RouteEntry {
    type V = RouteView;

    open spec fn view(&self) -> RouteView {
        RouteView {
            next_hop_id: self.next_hop_id@,
            next_hop_addr: self.next_hop_addr,
            hop_count: self.hop_count,
            last_updated: self.last_updated,
        }
    }
}

impl Clone for RouteEntry {
    fn clone(&self) -> (copy: Self)
        ensures
            copy@ == self@,
    {
        RouteEntry {
            next_hop_id: self.next_hop_id.clone(),
            next_hop_addr: self.next_hop_addr,
            hop_count: self.hop_count,
            last_updated: self.last_updated,
        }
    }
}

/// Known peers with integrated routing: under the id of each peer what is known of it, and
/// the route to it.
pub struct PeerTable {
    entries: Table<(PeerInfo, RouteEntry)>,
}

/// What a peer table holds: peers and routes, each under the id of the peer.
#[verifier::ext_equal]
pub struct PeerTableView {
    pub peers: Map<Seq<char>, PeerView>,
    pub routes: Map<Seq<char>, RouteView>,
}

/// The peers and the routes of a table of both.
spec fn split(entries: Map<Seq<char>, (PeerInfo, RouteEntry)>) -> PeerTableView {
    PeerTableView {
        peers: entries.map_values(|e: (PeerInfo, RouteEntry)| e.0@),
        routes: entries.map_values(|e: (PeerInfo, RouteEntry)| e.1@),
    }
}

impl View for PeerTable {
    type V = PeerTableView;

    closed spec fn view(&self) -> PeerTableView {
        split(self.entries@)
    }
}

/// What a beacon says of a peer whose beacon came from `addr`. The hop count is one more
/// than the beacon's, for the hop on which it was received.
pub open spec fn peer_of(heard: AnnouncementView, addr: Endpoint, now: u64) -> PeerView {
    PeerView {
        node_id: heard.beacon.node_id,
        public_key: heard.beacon.public_key,
        encryption_pubkey: heard.encryption_pubkey,
        addr,
        hop_count: (heard.beacon.hop_count + 1) as u8,
        last_seen: now,
    }
}

/// The route that a beacon which came from `addr` opens.
pub open spec fn route_of(heard: AnnouncementView, addr: Endpoint, now: u64) -> RouteView {
    RouteView {
        next_hop_id: heard.beacon.node_id,
        next_hop_addr: addr,
        hop_count: (heard.beacon.hop_count + 1) as u8,
        last_updated: now,
    }
}

impl PeerTableView {
    /// Every peer has a route and every route a peer, under the peer's own id; the two have
    /// the same hop count, and the route was refreshed when the peer was last seen.
    pub open spec fn consistent(self) -> bool {
        &&& forall|id: Seq<char>| #[trigger]
            self.peers.contains_key(id) <==> self.routes.contains_key(id)
        &&& forall|id: Seq<char>| #[trigger]
            self.peers.contains_key(id) ==> {
                &&& self.peers[id].node_id == id
                &&& self.routes[id].next_hop_id == id
                &&& self.peers[id].hop_count >= 1
                &&& self.routes[id].hop_count == self.peers[id].hop_count
                &&& self.routes[id].last_updated == self.peers[id].last_seen
            }
    }

    /// The beacon brings a shorter route than the table has, or the first.
    pub open spec fn shortens(self, heard: AnnouncementView) -> bool {
        let id = heard.beacon.node_id;
        !self.routes.contains_key(id) || heard.beacon.hop_count + 1 < self.routes[id].hop_count
    }

    /// The peer is known on a shorter way than the beacon came.
    pub open spec fn knows_shorter(self, heard: AnnouncementView) -> bool {
        let id = heard.beacon.node_id;
        self.peers.contains_key(id) && self.peers[id].hop_count < heard.beacon.hop_count + 1
    }

    /// The table once a beacon that came from `addr` is taken in. A peer that is known on a
    /// shorter way is only seen again; otherwise what is known of it is replaced. Its route
    /// is replaced by a shorter one and refreshed otherwise.
    pub open spec fn upserted(self, heard: AnnouncementView, addr: Endpoint, now: u64) -> Self {
        let id = heard.beacon.node_id;
        PeerTableView {
            peers: self.peers.insert(
                id,
                if self.knows_shorter(heard) {
                    PeerView { last_seen: now, ..self.peers[id] }
                } else {
                    peer_of(heard, addr, now)
                },
            ),
            routes: self.routes.insert(
                id,
                if self.shortens(heard) {
                    route_of(heard, addr, now)
                } else {
                    RouteView { last_updated: now, ..self.routes[id] }
                },
            ),
        }
    }

    /// The peers that are stale.
    pub open spec fn stale_ids(self, now: u64) -> Set<Seq<char>> {
        Set::new(|id: Seq<char>| self.peers.contains_key(id) && self.peers[id].stale(now))
    }

    /// The table without the stale peers and their routes.
    pub open spec fn pruned(self, now: u64) -> Self {
        PeerTableView {
            peers: self.peers.remove_keys(self.stale_ids(now)),
            routes: self.routes.remove_keys(self.stale_ids(now)),
        }
    }
}

/// The peers of a list.
pub open spec fn peer_views(v: Seq<PeerInfo>) -> Seq<PeerView> {
    v.map_values(|p: PeerInfo| p@)
}

/// The ids of a list of routes.
pub open spec fn route_ids(v: Seq<(String, RouteEntry)>) -> Seq<Seq<char>> {
    v.map_values(|r: (String, RouteEntry)| r.0@)
}

/// The routes of a list.
pub open spec fn route_views(v: Seq<(String, RouteEntry)>) -> Seq<RouteView> {
    v.map_values(|r: (String, RouteEntry)| r.1@)
}

impl PeerTable {
    #[verifier::type_invariant]
    spec fn peers_and_routes_agree(&self) -> bool {
        self@.consistent()
    }

    /// A table without peers.
    pub fn new() -> (table: Self)
        ensures
            table@.peers == Map::<Seq<char>, PeerView>::empty(),
            table@.routes == Map::<Seq<char>, RouteView>::empty(),
            table@.consistent(),
    {
        let entries: Table<(PeerInfo, RouteEntry)> = Table::new();
        assert(split(entries@).peers =~= Map::empty());
        assert(split(entries@).routes =~= Map::empty());
        PeerTable { entries }
    }

    /// Take in a beacon that came from `addr`. Returns `true` if it announces a peer that
    /// was not known.
    pub fn upsert(&mut self, heard: &Announcement, addr: Endpoint, now: u64) -> (is_new: bool)
        requires
            heard.beacon.hop_count < u8::MAX,
        ensures
            final(self)@ == old(self)@.upserted(heard@, addr, now),
            is_new == !old(self)@.peers.contains_key(heard@.beacon.node_id),
            final(self)@.consistent(),
    {
        proof {
            use_type_invariant(&*self);
        }
        let id = heard.beacon.node_id.as_str();
        let hop_count: u8 = heard.beacon.hop_count + 1;
        let mut peer = PeerInfo {
            node_id: heard.beacon.node_id.clone(),
            public_key: heard.beacon.public_key,
            encryption_pubkey: heard.encryption_pubkey,
            addr,
            hop_count,
            last_seen: now,
        };
        let mut route = RouteEntry {
            next_hop_id: heard.beacon.node_id.clone(),
            next_hop_addr: addr,
            hop_count,
            last_updated: now,
        };
        let is_new = match self.entries.get(id) {
            Some(known) => {
                if known.0.hop_count < hop_count {
                    peer = known.0.clone();
                    peer.last_seen = now;
                }
                if known.1.hop_count <= hop_count {
                    route = known.1.clone();
                    route.last_updated = now;
                }
                false
            },
            None => true,
        };
        let ghost before = self@;
        let ghost after = before.upserted(heard@, addr, now);
        assert(is_new == !before.peers.contains_key(id@));
        assert(peer@ =~= after.peers[id@]);
        assert(route@ =~= after.routes[id@]);
        let mut entries: Table<(PeerInfo, RouteEntry)> = Table::new();
        assert(split(entries@).peers =~= Map::empty());
        assert(split(entries@).routes =~= Map::empty());
        std::mem::swap(&mut entries, &mut self.entries);
        entries.insert(id, (peer, route));
        assert(split(entries@).peers =~= after.peers);
        assert(split(entries@).routes =~= after.routes);
        assert(after.consistent());
        self.entries = entries;
        is_new
    }

    /// Look up the route to a destination.
    pub fn get_route(&self, dest_id: &str) -> (route: Option<RouteEntry>)
        ensures
            match route {
                Some(r) => self@.routes.contains_key(dest_id@) && r@ == self@.routes[dest_id@],
                None => !self@.routes.contains_key(dest_id@),
            },
    {
        match self.entries.get(dest_id) {
            Some(entry) => Some(entry.1.clone()),
            None => None,
        }
    }

    /// Look up what is known of a peer.
    pub fn get_peer(&self, node_id: &str) -> (peer: Option<PeerInfo>)
        ensures
            match peer {
                Some(p) => self@.peers.contains_key(node_id@) && p@ == self@.peers[node_id@],
                None => !self@.peers.contains_key(node_id@),
            },
    {
        match self.entries.get(node_id) {
            Some(entry) => Some(entry.0.clone()),
            None => None,
        }
    }

    /// All known peers.
    pub fn snapshot_peers(&self) -> (peers: Vec<PeerInfo>)
        ensures
            exists|ids: Seq<Seq<char>>| #[trigger] lists(self@.peers, ids, peer_views(peers@)),
    {
        let mut peers: Vec<PeerInfo> = Vec::new();
        let n: usize = self.entries.len();
        let mut i: usize = 0;
        while i < n
            invariant
                i <= n,
                n == self.entries.keys().len(),
                lists(self.entries@, self.entries.keys(), self.entries.values()),
                peers@.len() == i,
                forall|j: int|
                    0 <= j < i ==> (#[trigger] peers@[j])@ == self.entries.values()[j].0@,
            decreases n - i,
        {
            peers.push(self.entries.value_at(i).0.clone());
            i = i + 1;
        }
        assert(lists(self@.peers, self.entries.keys(), peer_views(peers@)));
        peers
    }

    /// All routes, each with the id of its destination.
    pub fn snapshot_routes(&self) -> (routes: Vec<(String, RouteEntry)>)
        ensures
            lists(self@.routes, route_ids(routes@), route_views(routes@)),
    {
        let mut routes: Vec<(String, RouteEntry)> = Vec::new();
        let n: usize = self.entries.len();
        let mut i: usize = 0;
        while i < n
            invariant
                i <= n,
                n == self.entries.keys().len(),
                lists(self.entries@, self.entries.keys(), self.entries.values()),
                routes@.len() == i,
                forall|j: int|
                    0 <= j < i ==> (#[trigger] routes@[j]).0@ == self.entries.keys()[j]
                        && routes@[j].1@ == self.entries.values()[j].1@,
            decreases n - i,
        {
            routes.push((self.entries.key_at(i).clone(), self.entries.value_at(i).1.clone()));
            i = i + 1;
        }
        assert(route_ids(routes@) =~= self.entries.keys());
        assert(lists(self@.routes, route_ids(routes@), route_views(routes@)));
        routes
    }

    /// The ids of all peers.
    pub fn peer_ids(&self) -> (ids: Vec<String>)
        ensures
            distinct(texts(ids@)),
            forall|id: Seq<char>| #[trigger]
                self@.peers.contains_key(id) <==> texts(ids@).contains(id),
    {
        let mut ids: Vec<String> = Vec::new();
        let n: usize = self.entries.len();
        let mut i: usize = 0;
        while i < n
            invariant
                i <= n,
                n == self.entries.keys().len(),
                lists(self.entries@, self.entries.keys(), self.entries.values()),
                ids@.len() == i,
                forall|j: int| 0 <= j < i ==> (#[trigger] ids@[j])@ == self.entries.keys()[j],
            decreases n - i,
        {
            ids.push(self.entries.key_at(i).clone());
            i = i + 1;
        }
        assert(texts(ids@) =~= self.entries.keys());
        assert forall|id: Seq<char>| #[trigger]
            self@.peers.contains_key(id) <==> texts(ids@).contains(id) by {
            assert(self.entries@.contains_key(id) <==> self.entries.keys().contains(id));
        }
        ids
    }

    /// Remove the peers that have not been seen within the timeout, and their routes.
    pub fn prune_stale(&mut self, now: u64)
        ensures
            final(self)@ == old(self)@.pruned(now),
            final(self)@.consistent(),
    {
        proof {
            use_type_invariant(&*self);
        }
        let ghost before = self@;
        let ghost all = self.entries@;
        let mut entries: Table<(PeerInfo, RouteEntry)> = Table::new();
        assert(split(entries@).peers =~= Map::empty());
        assert(split(entries@).routes =~= Map::empty());
        std::mem::swap(&mut entries, &mut self.entries);
        let mut i: usize = 0;
        while i < entries.len()
            invariant
                i <= entries.keys().len(),
                forall|k: Seq<char>| #[trigger]
                    entries@.contains_key(k) ==> all.contains_key(k) && entries@[k] == all[k],
                forall|k: Seq<char>|
                    #![trigger all.contains_key(k)]
                    all.contains_key(k) && !entries@.contains_key(k) ==> all[k].0@.stale(now),
                forall|j: int| 0 <= j < i ==> !(#[trigger] entries.values()[j]).0@.stale(now),
            decreases entries.keys().len() - i,
        {
            let seen: u64 = entries.value_at(i).0.last_seen;
            if seen < now && now - seen > PEER_TIMEOUT {
                assert(entries@.contains_key(entries.keys()[i as int]));
                let ghost values = entries.values();
                entries.remove_at(i);
                assert forall|j: int| 0 <= j < i implies !(
                #[trigger] entries.values()[j]).0@.stale(now) by {
                    assert(entries.values()[j] == values[j]);
                }
            } else {
                i = i + 1;
            }
        }
        assert forall|k: Seq<char>| #[trigger] entries@.contains_key(k) implies !all[k].0@.stale(
            now,
        ) by {
            assert(entries.keys().contains(k));
            let j = entries.keys().index_of(k);
            assert(entries.keys()[j] == k);
            assert(!entries.values()[j].0@.stale(now));
        }
        assert(split(entries@).peers =~= before.pruned(now).peers);
        assert(split(entries@).routes =~= before.pruned(now).routes);
        assert(split(entries@).consistent());
        self.entries = entries;
    }
}

/// A table that has taken in a beacon knows its sender, seen now, and has a route to it.
/// Neither is longer than the way the beacon came, nor than the way it had before.
pub proof fn law_lower_hop_count_is_preferred(
    table: PeerTableView,
    heard: AnnouncementView,
    addr: Endpoint,
    now: u64,
)
    requires
        heard.beacon.hop_count < u8::MAX,
    ensures
        ({
            let id = heard.beacon.node_id;
            let after = table.upserted(heard, addr, now);
            &&& after.peers.contains_key(id) && after.routes.contains_key(id)
            &&& after.peers[id].last_seen == now
            &&& after.peers[id].hop_count <= heard.beacon.hop_count + 1
            &&& after.routes[id].hop_count <= heard.beacon.hop_count + 1
            &&& table.routes.contains_key(id) ==> after.routes[id].hop_count
                <= table.routes[id].hop_count
            &&& table.peers.contains_key(id) ==> after.peers[id].hop_count
                <= table.peers[id].hop_count
            &&& table.peers.contains_key(id) && table.peers[id].hop_count
                < heard.beacon.hop_count + 1 ==> after.peers[id] == (PeerView {
                last_seen: now,
                ..table.peers[id]
            })
        }),
{
}

/// Taking in a beacon leaves what is known of every other peer as it was.
pub proof fn law_upsert_leaves_other_peers(
    table: PeerTableView,
    heard: AnnouncementView,
    addr: Endpoint,
    now: u64,
    other: Seq<char>,
)
    requires
        other != heard.beacon.node_id,
    ensures
        ({
            let after = table.upserted(heard, addr, now);
            &&& after.peers.contains_key(other) == table.peers.contains_key(other)
            &&& after.routes.contains_key(other) == table.routes.contains_key(other)
            &&& table.peers.contains_key(other) ==> after.peers[other] == table.peers[other]
            &&& table.routes.contains_key(other) ==> after.routes[other] == table.routes[other]
        }),
{
}

/// A peer that was heard of within the timeout survives a prune sweep with its route, and
/// what survives is unchanged.
pub proof fn law_fresh_peers_survive_pruning(table: PeerTableView, now: u64, id: Seq<char>)
    requires
        table.consistent(),
        table.peers.contains_key(id),
    ensures
        !table.peers[id].stale(now) <==> table.pruned(now).peers.contains_key(id),
        !table.peers[id].stale(now) <==> table.pruned(now).routes.contains_key(id),
        !table.peers[id].stale(now) ==> table.pruned(now).peers[id] == table.peers[id]
            && table.pruned(now).routes[id] == table.routes[id],
{
}

/// A second prune sweep at the same time removes nothing more.
pub proof fn law_pruning_twice_is_pruning_once(table: PeerTableView, now: u64)
    ensures
        table.pruned(now).pruned(now) == table.pruned(now),
{
    let once = table.pruned(now);
    assert(once.pruned(now).peers =~= once.peers);
    assert(once.pruned(now).routes =~= once.routes);
}

/// What taking in a beacon comes to. Its sender is known, seen now, with the keys and the
/// address of the beacon and one hop more than it had travelled, unless it was known on a
/// shorter way: then all but the time stays. The route is the one it had, unless the beacon
/// came on a shorter way or is the first. Every other peer and route stays.
pub proof fn law_taking_in_a_beacon(
    table: PeerTableView,
    heard: AnnouncementView,
    addr: Endpoint,
    now: u64,
)
    requires
        heard.beacon.hop_count < 255,
    ensures
        ({
            let id = heard.beacon.node_id;
            let after = table.upserted(heard, addr, now);
            let hops = heard.beacon.hop_count + 1;
            let kept = table.peers.contains_key(id) && table.peers[id].hop_count < hops;
            let same_route = table.routes.contains_key(id) && table.routes[id].hop_count <= hops;
            &&& same_but(table.peers, after.peers, id)
            &&& same_but(table.routes, after.routes, id)
            &&& after.peers.contains_key(id)
            &&& after.routes.contains_key(id)
            &&& after.peers[id].last_seen == now
            &&& after.routes[id].last_updated == now
            &&& kept ==> {
                &&& after.peers[id].node_id == table.peers[id].node_id
                &&& after.peers[id].public_key == table.peers[id].public_key
                &&& after.peers[id].encryption_pubkey == table.peers[id].encryption_pubkey
                &&& after.peers[id].addr == table.peers[id].addr
                &&& after.peers[id].hop_count == table.peers[id].hop_count
            }
            &&& !kept ==> {
                &&& after.peers[id].node_id == id
                &&& after.peers[id].public_key == heard.beacon.public_key
                &&& after.peers[id].encryption_pubkey == heard.encryption_pubkey
                &&& after.peers[id].addr == addr
                &&& after.peers[id].hop_count == hops
            }
            &&& same_route ==> {
                &&& after.routes[id].next_hop_id == table.routes[id].next_hop_id
                &&& after.routes[id].next_hop_addr == table.routes[id].next_hop_addr
                &&& after.routes[id].hop_count == table.routes[id].hop_count
            }
            &&& !same_route ==> {
                &&& after.routes[id].next_hop_id == id
                &&& after.routes[id].next_hop_addr == addr
                &&& after.routes[id].hop_count == hops
            }
        }),
{
}

/// A sweep removes a peer, and its route, if and only if the peer was last seen more than
/// thirty seconds ago, and changes nothing else.
pub proof fn law_pruning_after_thirty_seconds(table: PeerTableView, now: u64, id: Seq<char>)
    ensures
        ({
            let after = table.pruned(now);
            let gone = table.peers.contains_key(id) && now - table.peers[id].last_seen
                > 30_000_000_000;
            &&& after.peers.contains_key(id) <==> table.peers.contains_key(id) && !gone
            &&& after.routes.contains_key(id) <==> table.routes.contains_key(id) && !gone
            &&& after.peers.contains_key(id) ==> after.peers[id] == table.peers[id]
            &&& after.routes.contains_key(id) ==> after.routes[id] == table.routes[id]
        }),
{
}

/// What every table keeps in agreement.
pub proof fn law_what_consistent_means(table: PeerTableView, id: Seq<char>)
    requires
        table.consistent(),
    ensures
        table.peers.contains_key(id) <==> table.routes.contains_key(id),
        table.peers.contains_key(id) ==> {
            &&& table.peers[id].node_id == id
            &&& table.routes[id].next_hop_id == id
            &&& table.peers[id].hop_count >= 1
            &&& table.routes[id].hop_count == table.peers[id].hop_count
            &&& table.routes[id].last_updated == table.peers[id].last_seen
        },
{
}

/// A view holds every field, and a list has one view for each item.
pub proof fn law_views_of_peers(
    peers: Seq<PeerInfo>,
    routes: Seq<(String, RouteEntry)>,
    i: int,
)
    ensures
        peer_views(peers).len() == peers.len(),
        route_ids(routes).len() == routes.len(),
        route_views(routes).len() == routes.len(),
        0 <= i < peers.len() ==> peer_views(peers)[i] == (PeerView {
            node_id: peers[i].node_id@,
            public_key: peers[i].public_key@,
            encryption_pubkey: peers[i].encryption_pubkey@,
            addr: peers[i].addr,
            hop_count: peers[i].hop_count,
            last_seen: peers[i].last_seen,
        }),
        0 <= i < routes.len() ==> route_ids(routes)[i] == routes[i].0@,
        0 <= i < routes.len() ==> route_views(routes)[i] == (RouteView {
            next_hop_id: routes[i].1.next_hop_id@,
            next_hop_addr: routes[i].1.next_hop_addr,
            hop_count: routes[i].1.hop_count,
            last_updated: routes[i].1.last_updated,
        }),
        PRUNE_INTERVAL == 10,
{
}

} // verus!
