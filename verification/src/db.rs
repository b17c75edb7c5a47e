//! Local store of messages and peers.
//!
//! The store holds every row; the application keeps a copy of the rows on disk and hands
//! them back when the node starts.
use crate::clock;
use crate::table::{distinct, lists, same_but, Table};
use crate::text;
use vstd::prelude::*;
use vstd::seq_lib::{to_multiset_build, to_multiset_insert};

verus! {

/// A stored chat message.
#[derive(Debug)]
pub struct StoredMessage {
    pub id: i64,
    pub peer_id: String,
    pub text: String,
    /// `sent` or `received`.
    pub direction: String,
    /// Seconds since the Unix epoch.
    pub timestamp: i64,
}

/// What a stored message stands for.
#[verifier::ext_equal]
pub struct MessageRow {
    pub id: i64,
    pub peer_id: Seq<char>,
    pub text: Seq<char>,
    pub direction: Seq<char>,
    pub timestamp: i64,
}

impl View for StoredMessage {
    type V = MessageRow;

    open spec fn view(&self) -> MessageRow {
        MessageRow {
            id: self.id,
            peer_id: self.peer_id@,
            text: self.text@,
            direction: self.direction@,
            timestamp: self.timestamp,
        }
    }
}

impl Clone for StoredMessage {
    fn clone(&self) -> (copy: Self)
        ensures
            copy@ == self@,
    {
        StoredMessage {
            id: self.id,
            peer_id: self.peer_id.clone(),
            text: self.text.clone(),
            direction: self.direction.clone(),
            timestamp: self.timestamp,
        }
    }
}

/// A stored peer.
#[derive(Debug)]
pub struct StoredPeer {
    pub tan_id: String,
    pub friendly_name: String,
    /// `pending_us`, `pending_them` or `approved`.
    pub status: String,
    /// Seconds since the Unix epoch.
    pub first_seen: i64,
}

/// What a stored peer stands for.
#[verifier::ext_equal]
pub struct PeerRow {
    pub tan_id: Seq<char>,
    pub friendly_name: Seq<char>,
    pub status: Seq<char>,
    pub first_seen: i64,
}

impl View for StoredPeer {
    type V = PeerRow;

    open spec fn view(&self) -> PeerRow {
        PeerRow {
            tan_id: self.tan_id@,
            friendly_name: self.friendly_name@,
            status: self.status@,
            first_seen: self.first_seen,
        }
    }
}

impl Clone for StoredPeer {
    fn clone(&self) -> (copy: Self)
        ensures
            copy@ == self@,
    {
        StoredPeer {
            tan_id: self.tan_id.clone(),
            friendly_name: self.friendly_name.clone(),
            status: self.status.clone(),
            first_seen: self.first_seen,
        }
    }
}

/// Preview of a conversation: the latest message with a peer, and how many there are.
#[derive(Debug)]
pub struct ConversationPreview {
    pub peer_id: String,
    pub last_message: String,
    pub last_direction: String,
    pub last_timestamp: i64,
    pub message_count: i64,
}

/// What a preview stands for.
#[verifier::ext_equal]
pub struct PreviewRow {
    pub peer_id: Seq<char>,
    pub last_message: Seq<char>,
    pub last_direction: Seq<char>,
    pub last_timestamp: i64,
    pub message_count: int,
}

impl View for ConversationPreview {
    type V = PreviewRow;

    open spec fn view(&self) -> PreviewRow {
        PreviewRow {
            peer_id: self.peer_id@,
            last_message: self.last_message@,
            last_direction: self.last_direction@,
            last_timestamp: self.last_timestamp,
            message_count: self.message_count as int,
        }
    }
}

/// Why the store refused something.
#[derive(Debug, Clone, Copy, PartialEq, Eq, Structural)]
pub enum StoreError {
    /// A message was neither sent nor received.
    Direction,
    /// There is no message id left, or no more messages can be counted.
    Full,
    /// The rows that were read break the rules of the store.
    Corrupt,
}

/// The rows of a list.
pub open spec fn rows<T: View>(v: Seq<T>) -> Seq<T::V> {
    v.map_values(|x: T| x@)
}

/// The ids of a list of peers.
pub open spec fn peer_row_ids(v: Seq<StoredPeer>) -> Seq<Seq<char>> {
    v.map_values(|p: StoredPeer| p.tan_id@)
}

/// What the store holds: the messages in the order of their ids, the peers under their
/// ids, and the highest message id ever given out.
#[verifier::ext_equal]
pub struct StoreView {
    pub messages: Seq<MessageRow>,
    pub peers: Map<Seq<char>, PeerRow>,
    pub sequence: i64,
}

/// A direction that a message can have.
pub open spec fn is_direction(direction: Seq<char>) -> bool {
    direction == "sent"@ || direction == "received"@
}

fn check_direction(direction: &str) -> (r: bool)
    ensures
        r == is_direction(direction@),
{
    text::same(direction, "sent") || text::same(direction, "received")
}

/// Message ids increase, none is above `sequence`, and every message was sent or received.
/// There are no more messages than can be counted.
pub open spec fn messages_in_order(messages: Seq<MessageRow>, sequence: i64) -> bool {
    &&& ids_increase(messages)
    &&& forall|i: int|
        0 <= i < messages.len() ==> (#[trigger] messages[i]).id <= sequence && is_direction(
            messages[i].direction,
        )
    &&& messages.len() <= i64::MAX
}

/// Each message has a higher id than the one before it.
pub open spec fn ids_increase(messages: Seq<MessageRow>) -> bool {
    forall|i: int, j: int|
        0 <= i < j < messages.len() ==> (#[trigger] messages[i]).id < (#[trigger] messages[j]).id
}

/// The highest message id given out: the one on record, or that of the last message if it
/// is higher. Before the first message it is not below zero.
pub open spec fn highest_id(messages: Seq<MessageRow>, recorded: i64) -> i64 {
    let last = if messages.len() == 0 {
        0
    } else {
        messages.last().id
    };
    if recorded > last {
        recorded
    } else {
        last
    }
}

/// Rows that the store takes: the ids increase, and every message was sent or received.
pub open spec fn acceptable(messages: Seq<MessageRow>) -> bool {
    &&& ids_increase(messages)
    &&& forall|i: int|
        0 <= i < messages.len() ==> is_direction((#[trigger] messages[i]).direction)
    &&& messages.len() <= i64::MAX
}

/// Every peer stands under its own id.
pub open spec fn peers_in_place(peers: Map<Seq<char>, PeerRow>) -> bool {
    forall|id: Seq<char>| #[trigger] peers.contains_key(id) ==> peers[id].tan_id == id
}

/// The messages with a peer.
pub open spec fn of_peer(peer_id: Seq<char>) -> spec_fn(MessageRow) -> bool {
    |m: MessageRow| m.peer_id == peer_id
}

/// The messages with an id above this one.
pub open spec fn later_than(id: i64) -> spec_fn(MessageRow) -> bool {
    |m: MessageRow| m.id > id
}

/// Something that is listed in an order of its own.
pub trait Listed: View + Sized {
    /// Whether the first may stand before the second.
    spec fn ahead(a: Self::V, b: Self::V) -> bool;

    /// The order is total and transitive.
    proof fn ahead_orders(a: Self::V, b: Self::V, c: Self::V)
        ensures
            Self::ahead(a, b) || Self::ahead(b, a),
            Self::ahead(a, b) && Self::ahead(b, c) ==> Self::ahead(a, c),
    ;

    /// Whether this may stand before the other.
    fn is_ahead(&self, other: &Self) -> (r: bool)
        ensures
            r == Self::ahead(self@, other@),
    ;
}

/// Messages are shown by time, and those of one time by id.
impl Listed for StoredMessage {
    open spec fn ahead(a: MessageRow, b: MessageRow) -> bool {
        a.timestamp < b.timestamp || (a.timestamp == b.timestamp && a.id <= b.id)
    }

    proof fn ahead_orders(a: MessageRow, b: MessageRow, c: MessageRow) {
    }

    fn is_ahead(&self, other: &Self) -> bool {
        self.timestamp < other.timestamp || (self.timestamp == other.timestamp && self.id
            <= other.id)
    }
}

/// Previews are shown with the most recent first.
impl Listed for ConversationPreview {
    open spec fn ahead(a: PreviewRow, b: PreviewRow) -> bool {
        a.last_timestamp >= b.last_timestamp
    }

    proof fn ahead_orders(a: PreviewRow, b: PreviewRow, c: PreviewRow) {
    }

    fn is_ahead(&self, other: &Self) -> bool {
        self.last_timestamp >= other.last_timestamp
    }
}

/// Peers are shown with the one first seen last at the head.
impl Listed for StoredPeer {
    open spec fn ahead(a: PeerRow, b: PeerRow) -> bool {
        a.first_seen >= b.first_seen
    }

    proof fn ahead_orders(a: PeerRow, b: PeerRow, c: PeerRow) {
    }

    fn is_ahead(&self, other: &Self) -> bool {
        self.first_seen >= other.first_seen
    }
}

/// The rows stand in their order.
pub open spec fn in_order<T: Listed>(listed: Seq<T::V>) -> bool {
    forall|i: int, j: int|
        0 <= i < j < listed.len() ==> T::ahead(#[trigger] listed[i], #[trigger] listed[j])
}

impl StoreView {
    /// The rules of the store.
    pub open spec fn well_formed(self) -> bool {
        messages_in_order(self.messages, self.sequence) && peers_in_place(self.peers)
    }

    /// There is a message id left, and one more message can be counted.
    pub open spec fn has_room(self) -> bool {
        self.sequence < i64::MAX && self.messages.len() < i64::MAX
    }

    /// The store once a message was added.
    pub open spec fn with_message(
        self,
        peer_id: Seq<char>,
        text: Seq<char>,
        direction: Seq<char>,
        now: i64,
    ) -> StoreView {
        let id = (self.sequence + 1) as i64;
        StoreView {
            messages: self.messages.push(
                MessageRow { id, peer_id, text, direction, timestamp: now },
            ),
            sequence: id,
            ..self
        }
    }

    /// The store once a peer was added or changed: a known peer gets the status, and the
    /// name unless that is empty.
    pub open spec fn with_peer(
        self,
        tan_id: Seq<char>,
        friendly_name: Seq<char>,
        status: Seq<char>,
        now: i64,
    ) -> StoreView {
        let row = if self.peers.contains_key(tan_id) {
            let known = self.peers[tan_id];
            PeerRow {
                friendly_name: if friendly_name.len() > 0 {
                    friendly_name
                } else {
                    known.friendly_name
                },
                status,
                ..known
            }
        } else {
            PeerRow { tan_id, friendly_name, status, first_seen: now }
        };
        StoreView { peers: self.peers.insert(tan_id, row), ..self }
    }

    /// The store once the status of a peer was changed, if the peer is known.
    pub open spec fn with_status(self, tan_id: Seq<char>, status: Seq<char>) -> StoreView {
        if self.peers.contains_key(tan_id) {
            StoreView {
                peers: self.peers.insert(tan_id, PeerRow { status, ..self.peers[tan_id] }),
                ..self
            }
        } else {
            self
        }
    }

    /// No later message with the same peer.
    pub open spec fn is_latest(self, i: int) -> bool {
        forall|j: int|
            i < j < self.messages.len() ==> (#[trigger] self.messages[j]).peer_id
                != self.messages[i].peer_id
    }

    /// The preview whose message is the one at this position.
    pub open spec fn preview(self, i: int) -> PreviewRow {
        let m = self.messages[i];
        PreviewRow {
            peer_id: m.peer_id,
            last_message: m.text,
            last_direction: m.direction,
            last_timestamp: m.timestamp,
            message_count: self.messages.filter(of_peer(m.peer_id)).len() as int,
        }
    }

    /// The positions before `n` of the messages that are the latest with their peer.
    pub open spec fn latest_before(self, n: int) -> Seq<int>
        decreases n,
    {
        if n <= 0 {
            Seq::empty()
        } else if self.is_latest(n - 1) {
            self.latest_before(n - 1).push(n - 1)
        } else {
            self.latest_before(n - 1)
        }
    }

    /// The previews of the messages at these positions.
    pub open spec fn previews_at(self, positions: Seq<int>) -> Seq<PreviewRow> {
        positions.map_values(|i: int| self.preview(i))
    }

    /// One preview for each message that is the latest with its peer.
    pub open spec fn previews(self) -> Seq<PreviewRow> {
        self.previews_at(self.latest_before(self.messages.len() as int))
    }
}

/// The store of messages and peers of a node.
pub struct SovereignDb {
    messages: Vec<StoredMessage>,
    peers: Table<StoredPeer>,
    sequence: i64,
}

impl View for SovereignDb {
    type V = StoreView;

    closed spec fn view(&self) -> StoreView {
        StoreView {
            messages: rows(self.messages@),
            peers: self.peers@.map_values(|p: StoredPeer| p@),
            sequence: self.sequence,
        }
    }
}

proof fn lemma_filter_step(
    all: Seq<MessageRow>,
    keep: spec_fn(MessageRow) -> bool,
    i: int,
)
    requires
        0 <= i < all.len(),
    ensures
        all.take(i + 1).filter(keep) == (if keep(all[i]) {
            all.take(i).filter(keep).push(all[i])
        } else {
            all.take(i).filter(keep)
        }),
{
    reveal(Seq::filter);
    assert(all.take(i + 1).drop_last() =~= all.take(i));
}

/// Insert an item where it belongs, behind those that may stand before it. Returns where.
fn insert_in_order<T: Listed>(out: &mut Vec<T>, item: T) -> (pos: usize)
    requires
        in_order::<T>(rows(old(out)@)),
    ensures
        in_order::<T>(rows(final(out)@)),
        pos <= old(out)@.len(),
        final(out)@ == old(out)@.insert(pos as int, item),
        rows(final(out)@).to_multiset() == rows(old(out)@).to_multiset().insert(item@),
{
    let ghost before = rows(out@);
    let ghost row = item@;
    let mut pos: usize = out.len();
    while pos > 0 && !out[pos - 1].is_ahead(&item)
        invariant
            pos <= out@.len(),
            before == rows(out@),
            row == item@,
            forall|j: int| pos <= j < before.len() ==> T::ahead(row, #[trigger] before[j]),
        decreases pos,
    {
        pos = pos - 1;
        proof {
            assert(before[pos as int] == out@[pos as int]@);
            T::ahead_orders(before[pos as int], row, row);
        }
    }
    proof {
        if pos > 0 {
            assert(before[pos - 1] == out@[pos - 1]@);
        }
        to_multiset_insert(before, pos as int, row);
    }
    out.insert(pos, item);
    proof {
        let after = rows(out@);
        assert(after =~= before.insert(pos as int, row));
        assert forall|i: int, j: int| 0 <= i < j < after.len() implies T::ahead(
            #[trigger] after[i],
            #[trigger] after[j],
        ) by {
            let a = if i < pos {
                i
            } else {
                i - 1
            };
            let b = if j < pos {
                j
            } else {
                j - 1
            };
            if i != pos && j != pos {
                assert(after[i] == before[a] && after[j] == before[b]);
            } else if j == pos {
                assert(after[i] == before[i]);
                if i < pos - 1 {
                    assert(T::ahead(before[i], before[pos - 1]));
                    T::ahead_orders(before[i], before[pos - 1], row);
                }
            } else {
                assert(after[j] == before[j - 1]);
            }
        }
    }
    pos
}

proof fn lemma_timestamps(messages: Seq<StoredMessage>)
    requires
        in_order::<StoredMessage>(rows(messages)),
    ensures
        forall|i: int, j: int|
            0 <= i < j < messages.len() ==> (#[trigger] messages[i]).timestamp <= (
            #[trigger] messages[j]).timestamp,
{
    assert forall|i: int, j: int| 0 <= i < j < messages.len() implies (
    #[trigger] messages[i]).timestamp <= (#[trigger] messages[j]).timestamp by {
        assert(StoredMessage::ahead(rows(messages)[i], rows(messages)[j]));
    }
}

/// Which messages are asked for.
enum Wanted<'a> {
    /// Those with this peer.
    Peer(&'a str),
    /// Those with a higher id.
    After(i64),
}

impl<'a> Wanted<'a> {
    spec fn keeps(&self) -> spec_fn(MessageRow) -> bool {
        match self {
            Wanted::Peer(peer_id) => of_peer(peer_id@),
            Wanted::After(id) => later_than(*id),
        }
    }

    fn wants(&self, m: &StoredMessage) -> (r: bool)
        ensures
            r == self.keeps()(m@),
    {
        match self {
            Wanted::Peer(peer_id) => text::same(m.peer_id.as_str(), peer_id),
            Wanted::After(id) => m.id > *id,
        }
    }
}

impl SovereignDb {
    #[verifier::type_invariant]
    spec fn rules_hold(&self) -> bool {
        self@.well_formed()
    }

    /// An empty store.
    pub fn new() -> (db: Self)
        ensures
            db@.messages == Seq::<MessageRow>::empty(),
            db@.peers == Map::<Seq<char>, PeerRow>::empty(),
            db@.sequence == 0,
            db@.well_formed(),
    {
        let messages: Vec<StoredMessage> = Vec::new();
        let peers: Table<StoredPeer> = Table::new();
        assert(rows(messages@) =~= Seq::empty());
        assert(peers@.map_values(|p: StoredPeer| p@) =~= Map::empty());
        SovereignDb { messages, peers, sequence: 0 }
    }

    /// The store with the rows that were read from disk: messages in the order of their
    /// ids, peers, and the highest message id on record. Rows that break the rules of the
    /// store are refused.
    pub fn open(messages: Vec<StoredMessage>, peers: Vec<StoredPeer>, recorded: i64) -> (db: Result<
        Self,
        StoreError,
    >)
        ensures
            match db {
                Ok(db) => {
                    &&& db@.well_formed()
                    &&& db@.messages == rows(messages@)
                    &&& db@.sequence == highest_id(rows(messages@), recorded)
                    &&& lists(db@.peers, peer_row_ids(peers@), rows(peers@))
                },
                Err(e) => {
                    &&& e == StoreError::Corrupt
                    &&& !acceptable(rows(messages@)) || !distinct(peer_row_ids(peers@))
                },
            },
    {
        let ghost all = rows(messages@);
        let total: usize = messages.len();
        if total as u64 > i64::MAX as u64 {
            return Err(StoreError::Corrupt);
        }
        let mut i: usize = 0;
        while i < total
            invariant
                i <= total,
                total == messages@.len(),
                all == rows(messages@),
                total <= i64::MAX,
                acceptable(all.take(i as int)),
            decreases total - i,
        {
            let m = &messages[i];
            assert(all[i as int] == m@);
            if (i > 0 && m.id <= messages[i - 1].id) || !check_direction(m.direction.as_str()) {
                proof {
                    if i > 0 {
                        assert(all[i - 1] == messages@[i - 1]@);
                    }
                }
                return Err(StoreError::Corrupt);
            }
            proof {
                let less = all.take(i as int);
                let more = all.take(i + 1);
                assert(more =~= less.push(all[i as int]));
                if i > 0 {
                    assert(less[i - 1] == messages@[i - 1]@);
                }
                assert forall|a: int, b: int| 0 <= a < b < more.len() implies (
                #[trigger] more[a]).id < (#[trigger] more[b]).id by {
                    assert(more[a] == less[a]);
                    if b < i {
                        assert(more[b] == less[b]);
                    } else if a < i - 1 {
                        assert(less[a].id < less[i - 1].id);
                    }
                }
            }
            i = i + 1;
        }
        assert(all.take(i as int) =~= all);
        let last: i64 = if total == 0 {
            0
        } else {
            messages[total - 1].id
        };
        let sequence: i64 = if recorded > last {
            recorded
        } else {
            last
        };
        proof {
            assert forall|k: int| 0 <= k < all.len() implies (#[trigger] all[k]).id <= sequence by {
                assert(all[total - 1] == messages@[total - 1]@);
                if k < total - 1 {
                    assert(all[k].id < all[total - 1].id);
                }
            }
            if total > 0 {
                assert(all.last() == messages@[total - 1]@);
            }
        }
        let mut table: Table<StoredPeer> = Table::new();
        let mut k: usize = 0;
        assert(peer_row_ids(peers@).take(0) =~= Seq::empty());
        while k < peers.len()
            invariant
                k <= peers@.len(),
                table.keys() == peer_row_ids(peers@).take(k as int),
                table.values().len() == k,
                forall|j: int| 0 <= j < k ==> (#[trigger] table.values()[j])@ == peers@[j]@,
            decreases peers@.len() - k,
        {
            if table.contains_key(peers[k].tan_id.as_str()) {
                proof {
                    let ids = peer_row_ids(peers@);
                    let n: int = table.keys().index_of(peers@[k as int].tan_id@);
                    assert(ids[n] == ids[k as int]);
                }
                return Err(StoreError::Corrupt);
            }
            table.insert(peers[k].tan_id.as_str(), peers[k].clone());
            k = k + 1;
            assert(table.keys() =~= peer_row_ids(peers@).take(k as int));
        }
        let ghost peers_view = table@.map_values(|p: StoredPeer| p@);
        proof {
            use_type_invariant(&table);
            table.entries_are_listed();
            let ids = peer_row_ids(peers@);
            assert(ids.take(k as int) =~= ids);
            assert forall|id: Seq<char>| #[trigger] peers_view.contains_key(
                id,
            ) implies peers_view[id].tan_id == id by {
                let n: int = ids.index_of(id);
                assert(ids.contains(id));
                assert(ids[n] == id);
                assert(table.values()[n]@ == peers@[n]@);
            }
            assert forall|n: int| 0 <= n < ids.len() implies peers_view.contains_key(
                #[trigger] ids[n],
            ) && peers_view[ids[n]] == rows(peers@)[n] by {
                assert(table.values()[n]@ == peers@[n]@);
            }
        }
        Ok(SovereignDb { messages, peers: table, sequence })
    }

    // Messages.

    /// Store a message, dated now. Returns its id.
    pub fn save_message(&mut self, peer_id: &str, text: &str, direction: &str) -> (id: Result<
        i64,
        StoreError,
    >)
        ensures
            final(self)@.well_formed(),
            id is Ok <==> (direction@ == "sent"@ || direction@ == "received"@) && old(self)@.sequence
                < i64::MAX && old(self)@.messages.len() < i64::MAX,
            match id {
                Ok(id) => {
                    &&& is_direction(direction@)
                    &&& old(self)@.has_room()
                    &&& id == old(self)@.sequence + 1
                    &&& exists|now: i64| #[trigger]
                        old(self)@.with_message(peer_id@, text@, direction@, now) == final(self)@
                },
                Err(e) => {
                    &&& final(self)@ == old(self)@
                    &&& e == (if is_direction(direction@) {
                        StoreError::Full
                    } else {
                        StoreError::Direction
                    })
                    &&& is_direction(direction@) ==> !old(self)@.has_room()
                },
            },
    {
        self.save_message_at(peer_id, text, direction, clock::unix_secs())
    }

    /// Store a message with the given date. Returns its id.
    pub fn save_message_at(
        &mut self,
        peer_id: &str,
        text: &str,
        direction: &str,
        now: i64,
    ) -> (id: Result<i64, StoreError>)
        ensures
            final(self)@.well_formed(),
            id is Ok <==> (direction@ == "sent"@ || direction@ == "received"@) && old(self)@.sequence
                < i64::MAX && old(self)@.messages.len() < i64::MAX,
            match id {
                Ok(id) => {
                    &&& is_direction(direction@)
                    &&& old(self)@.has_room()
                    &&& id == old(self)@.sequence + 1
                    &&& final(self)@ == old(self)@.with_message(peer_id@, text@, direction@, now)
                },
                Err(e) => {
                    &&& final(self)@ == old(self)@
                    &&& e == (if is_direction(direction@) {
                        StoreError::Full
                    } else {
                        StoreError::Direction
                    })
                    &&& is_direction(direction@) ==> !old(self)@.has_room()
                },
            },
    {
        proof {
            use_type_invariant(&*self);
        }
        if !check_direction(direction) {
            return Err(StoreError::Direction);
        }
        if self.sequence == i64::MAX || self.messages.len() as u64 >= i64::MAX as u64 {
            return Err(StoreError::Full);
        }
        let id: i64 = self.sequence + 1;
        let message = StoredMessage {
            id,
            peer_id: peer_id.to_owned(),
            text: text.to_owned(),
            direction: direction.to_owned(),
            timestamp: now,
        };
        let ghost before = self@;
        let ghost after = before.with_message(peer_id@, text@, direction@, now);
        let mut messages: Vec<StoredMessage> = Vec::new();
        assert(rows(messages@) =~= Seq::empty());
        std::mem::swap(&mut messages, &mut self.messages);
        messages.push(message);
        assert(rows(messages@) =~= after.messages);
        self.sequence = id;
        self.messages = messages;
        assert(self@ =~= after);
        Ok(id)
    }

    /// The messages that are asked for, ordered by time.
    fn select(&self, wanted: &Wanted<'_>) -> (messages: Vec<StoredMessage>)
        ensures
            in_order::<StoredMessage>(rows(messages@)),
            rows(messages@).to_multiset() == self@.messages.filter(wanted.keeps()).to_multiset(),
    {
        let ghost all = self@.messages;
        let ghost keep = wanted.keeps();
        let mut out: Vec<StoredMessage> = Vec::new();
        let mut i: usize = 0;
        proof {
            assert(all.take(0) =~= Seq::empty());
            reveal(Seq::filter);
            assert(rows(out@) =~= Seq::empty());
        }
        while i < self.messages.len()
            invariant
                i <= self.messages@.len(),
                all == rows(self.messages@),
                keep == wanted.keeps(),
                in_order::<StoredMessage>(rows(out@)),
                rows(out@).to_multiset() == all.take(i as int).filter(keep).to_multiset(),
            decreases self.messages@.len() - i,
        {
            proof {
                lemma_filter_step(all, keep, i as int);
                to_multiset_build(all.take(i as int).filter(keep), all[i as int]);
            }
            assert(all[i as int] == self.messages@[i as int]@);
            if wanted.wants(&self.messages[i]) {
                let _ = insert_in_order(&mut out, self.messages[i].clone());
            }
            i = i + 1;
        }
        assert(all.take(i as int) =~= all);
        out
    }

    /// All messages with a peer, ordered by time.
    pub fn get_messages_with_peer(&self, peer_id: &str) -> (messages: Vec<StoredMessage>)
        ensures
            forall|i: int, j: int|
                0 <= i < j < messages@.len() ==> (#[trigger] messages@[i]).timestamp <= (
                #[trigger] messages@[j]).timestamp,
            in_order::<StoredMessage>(rows(messages@)),
            rows(messages@).to_multiset() == self@.messages.filter(
                of_peer(peer_id@),
            ).to_multiset(),
    {
        let messages = self.select(&Wanted::Peer(peer_id));
        proof {
            lemma_timestamps(messages@);
        }
        messages
    }

    /// All messages after a given id, ordered by time.
    pub fn get_messages_since(&self, since_id: i64) -> (messages: Vec<StoredMessage>)
        ensures
            forall|i: int, j: int|
                0 <= i < j < messages@.len() ==> (#[trigger] messages@[i]).timestamp <= (
                #[trigger] messages@[j]).timestamp,
            in_order::<StoredMessage>(rows(messages@)),
            rows(messages@).to_multiset() == self@.messages.filter(
                later_than(since_id),
            ).to_multiset(),
    {
        let messages = self.select(&Wanted::After(since_id));
        proof {
            lemma_timestamps(messages@);
        }
        messages
    }

    /// How many messages there are with a peer.
    fn count_with_peer(&self, peer_id: &str) -> (n: i64)
        ensures
            n == self@.messages.filter(of_peer(peer_id@)).len(),
    {
        let messages = self.get_messages_with_peer(peer_id);
        proof {
            use_type_invariant(self);
            let kept = self@.messages.filter(of_peer(peer_id@));
            self@.messages.lemma_filter_len(of_peer(peer_id@));
            rows(messages@).to_multiset_ensures();
            kept.to_multiset_ensures();
        }
        messages.len() as i64
    }

    /// Whether there is no later message with the same peer.
    fn check_latest(&self, i: usize) -> (r: bool)
        requires
            i < self@.messages.len(),
        ensures
            r == self@.is_latest(i as int),
    {
        let ghost all = self@.messages;
        let total: usize = self.messages.len();
        let mut j: usize = i + 1;
        while j < total
            invariant
                i < j <= total,
                total == self.messages@.len(),
                all == rows(self.messages@),
                forall|k: int| i < k < j ==> (#[trigger] all[k]).peer_id != all[i as int].peer_id,
            decreases total - j,
        {
            assert(all[j as int] == self.messages@[j as int]@);
            assert(all[i as int] == self.messages@[i as int]@);
            if text::same(self.messages[j].peer_id.as_str(), self.messages[i].peer_id.as_str()) {
                assert(self@.messages[j as int].peer_id == self@.messages[i as int].peer_id);
                return false;
            }
            j = j + 1;
        }
        true
    }

    /// The peers there were messages with, each with its latest message and the number of
    /// messages, the most recent first.
    pub fn get_conversations(&self) -> (previews: Vec<ConversationPreview>)
        ensures
            in_order::<ConversationPreview>(rows(previews@)),
            rows(previews@).to_multiset() == self@.previews().to_multiset(),
    {
        let ghost all = self@.messages;
        let mut out: Vec<ConversationPreview> = Vec::new();
        let mut i: usize = 0;
        assert(rows(out@) =~= self@.previews_at(self@.latest_before(0)));
        while i < self.messages.len()
            invariant
                i <= self.messages@.len(),
                all == rows(self.messages@),
                in_order::<ConversationPreview>(rows(out@)),
                rows(out@).to_multiset() == self@.previews_at(
                    self@.latest_before(i as int),
                ).to_multiset(),
            decreases self.messages@.len() - i,
        {
            proof {
                let done = self@.previews_at(self@.latest_before(i as int));
                to_multiset_build(done, self@.preview(i as int));
                assert(self@.is_latest(i as int) ==> self@.previews_at(
                    self@.latest_before(i + 1),
                ) =~= done.push(self@.preview(i as int)));
            }
            if self.check_latest(i) {
                let m = &self.messages[i];
                assert(all[i as int] == m@);
                let preview = ConversationPreview {
                    peer_id: m.peer_id.clone(),
                    last_message: m.text.clone(),
                    last_direction: m.direction.clone(),
                    last_timestamp: m.timestamp,
                    message_count: self.count_with_peer(m.peer_id.as_str()),
                };
                assert(preview@ =~= self@.preview(i as int));
                let _ = insert_in_order(&mut out, preview);
            }
            i = i + 1;
        }
        out
    }

    // Peers.

    /// Add a peer, first seen now, or change the status and the name of a known one.
    pub fn upsert_peer(&mut self, tan_id: &str, friendly_name: &str, status: &str)
        ensures
            final(self)@.well_formed(),
            exists|now: i64| #[trigger]
                old(self)@.with_peer(tan_id@, friendly_name@, status@, now) == final(self)@,
    {
        self.upsert_peer_at(tan_id, friendly_name, status, clock::unix_secs())
    }

    /// Add a peer, first seen at the given time, or change the status and the name of a
    /// known one.
    pub fn upsert_peer_at(&mut self, tan_id: &str, friendly_name: &str, status: &str, now: i64)
        ensures
            final(self)@.well_formed(),
            final(self)@ == old(self)@.with_peer(tan_id@, friendly_name@, status@, now),
    {
        proof {
            use_type_invariant(&*self);
        }
        let row = match self.peers.get(tan_id) {
            Some(known) => {
                assert(self@.peers.contains_key(tan_id@));
                let name = if friendly_name.unicode_len() > 0 {
                    friendly_name.to_owned()
                } else {
                    known.friendly_name.clone()
                };
                StoredPeer {
                    tan_id: known.tan_id.clone(),
                    friendly_name: name,
                    status: status.to_owned(),
                    first_seen: known.first_seen,
                }
            },
            None => StoredPeer {
                tan_id: tan_id.to_owned(),
                friendly_name: friendly_name.to_owned(),
                status: status.to_owned(),
                first_seen: now,
            },
        };
        self.put_peer(tan_id, row);
        assert(self@ =~= old(self)@.with_peer(tan_id@, friendly_name@, status@, now));
    }

    fn put_peer(&mut self, tan_id: &str, row: StoredPeer)
        requires
            row@.tan_id == tan_id@,
        ensures
            final(self)@.well_formed(),
            final(self)@ == (StoreView {
                peers: old(self)@.peers.insert(tan_id@, row@),
                ..old(self)@
            }),
    {
        proof {
            use_type_invariant(&*self);
        }
        let ghost before = self@;
        let ghost after = row@;
        let mut peers: Table<StoredPeer> = Table::new();
        assert(peers@.map_values(|p: StoredPeer| p@) =~= Map::empty());
        std::mem::swap(&mut peers, &mut self.peers);
        peers.insert(tan_id, row);
        assert(peers@.map_values(|p: StoredPeer| p@) =~= before.peers.insert(tan_id@, after));
        self.peers = peers;
    }

    /// Change the status of a peer, if it is known.
    pub fn update_peer_status(&mut self, tan_id: &str, status: &str)
        ensures
            final(self)@.well_formed(),
            final(self)@ == old(self)@.with_status(tan_id@, status@),
    {
        proof {
            use_type_invariant(&*self);
        }
        let row = match self.peers.get(tan_id) {
            Some(known) => StoredPeer {
                tan_id: known.tan_id.clone(),
                friendly_name: known.friendly_name.clone(),
                status: status.to_owned(),
                first_seen: known.first_seen,
            },
            None => {
                return ;
            },
        };
        assert(self@.peers.contains_key(tan_id@));
        self.put_peer(tan_id, row);
        assert(self@ =~= old(self)@.with_status(tan_id@, status@));
    }

    /// Look up a peer.
    pub fn get_peer(&self, tan_id: &str) -> (peer: Option<StoredPeer>)
        ensures
            match peer {
                Some(p) => self@.peers.contains_key(tan_id@) && p@ == self@.peers[tan_id@],
                None => !self@.peers.contains_key(tan_id@),
            },
    {
        match self.peers.get(tan_id) {
            Some(peer) => Some(peer.clone()),
            None => None,
        }
    }

    /// All peers, the one first seen last at the head.
    pub fn get_all_peers(&self) -> (peers: Vec<StoredPeer>)
        ensures
            in_order::<StoredPeer>(rows(peers@)),
            lists(self@.peers, peer_row_ids(peers@), rows(peers@)),
    {
        proof {
            use_type_invariant(self);
        }
        let mut out: Vec<StoredPeer> = Vec::new();
        let n: usize = self.peers.len();
        let ghost keys = self.peers.keys();
        let mut i: usize = 0;
        while i < n
            invariant
                i <= n,
                n == keys.len(),
                keys == self.peers.keys(),
                self@.well_formed(),
                lists(self.peers@, keys, self.peers.values()),
                in_order::<StoredPeer>(rows(out@)),
                distinct(peer_row_ids(out@)),
                out@.len() == i,
                forall|j: int|
                    0 <= j < i ==> keys.take(i as int).contains((#[trigger] out@[j]).tan_id@)
                        && self@.peers[out@[j].tan_id@] == out@[j]@,
                forall|k: int|
                    0 <= k < i ==> peer_row_ids(out@).contains(#[trigger] keys[k]),
            decreases n - i,
        {
            let p = self.peers.value_at(i).clone();
            let ghost before = out@;
            let ghost row = p;
            proof {
                assert(self@.peers.contains_key(keys[i as int]));
                assert(p@.tan_id == keys[i as int]);
            }
            let pos = insert_in_order(&mut out, p);
            i = i + 1;
            proof {
                lemma_peer_inserted(before, row, pos as int, keys, i - 1, self@.peers);
            }
        }
        proof {
            assert(keys.take(i as int) =~= keys);
            let ids = peer_row_ids(out@);
            assert forall|id: Seq<char>| #[trigger] self@.peers.contains_key(id) <==> ids.contains(
                id,
            ) by {
                assert(self.peers@.contains_key(id) <==> keys.contains(id));
                if keys.contains(id) {
                    let k = keys.index_of(id);
                    assert(keys[k] == id);
                }
                if ids.contains(id) {
                    let j = ids.index_of(id);
                    assert(ids[j] == out@[j].tan_id@);
                }
            }
            assert forall|j: int| 0 <= j < ids.len() implies self@.peers.contains_key(
                #[trigger] ids[j],
            ) && self@.peers[ids[j]] == rows(out@)[j] by {
                assert(ids[j] == out@[j].tan_id@);
                assert(ids.contains(ids[j]));
            }
        }
        out
    }
}

/// The peer of a new key, inserted among those of the keys before it.
proof fn lemma_peer_inserted(
    before: Seq<StoredPeer>,
    row: StoredPeer,
    pos: int,
    keys: Seq<Seq<char>>,
    i: int,
    peers: Map<Seq<char>, PeerRow>,
)
    requires
        0 <= pos <= before.len(),
        before.len() == i,
        0 <= i < keys.len(),
        distinct(keys),
        distinct(peer_row_ids(before)),
        row.tan_id@ == keys[i],
        peers[keys[i]] == row@,
        forall|j: int|
            0 <= j < i ==> keys.take(i).contains((#[trigger] before[j]).tan_id@)
                && peers[before[j].tan_id@] == before[j]@,
        forall|k: int| 0 <= k < i ==> peer_row_ids(before).contains(#[trigger] keys[k]),
    ensures
        ({
            let out = before.insert(pos, row);
            &&& distinct(peer_row_ids(out))
            &&& forall|j: int|
                0 <= j < i + 1 ==> keys.take(i + 1).contains((#[trigger] out[j]).tan_id@)
                    && peers[out[j].tan_id@] == out[j]@
            &&& forall|k: int| 0 <= k < i + 1 ==> peer_row_ids(out).contains(#[trigger] keys[k])
        }),
{
    let out = before.insert(pos, row);
    let ids = peer_row_ids(before);
    let more = peer_row_ids(out);
    assert(more =~= ids.insert(pos, keys[i]));
    assert(!ids.contains(keys[i])) by {
        if ids.contains(keys[i]) {
            let j = ids.index_of(keys[i]);
            assert(before[j].tan_id@ == keys[i]);
            assert(keys.take(i).contains(keys[i]));
            let k = keys.take(i).index_of(keys[i]);
            assert(keys[k] == keys[i]);
        }
    }
    assert forall|j: int| 0 <= j < i + 1 implies keys.take(i + 1).contains(
        (#[trigger] out[j]).tan_id@,
    ) && peers[out[j].tan_id@] == out[j]@ by {
        if j == pos {
            assert(keys.take(i + 1)[i] == keys[i]);
        } else {
            let b = if j < pos {
                j
            } else {
                j - 1
            };
            assert(out[j] == before[b]);
            let k = keys.take(i).index_of(before[b].tan_id@);
            assert(keys.take(i + 1)[k] == keys.take(i)[k]);
        }
    }
    assert forall|k: int| 0 <= k < i + 1 implies more.contains(#[trigger] keys[k]) by {
        if k == i {
            assert(more[pos] == keys[i]);
        } else {
            let j = ids.index_of(keys[k]);
            let a = if j < pos {
                j
            } else {
                j + 1
            };
            assert(more[a] == keys[k]);
        }
    }
    assert forall|a: int, b: int|
        0 <= a < more.len() && 0 <= b < more.len() && #[trigger] more[a]
            == #[trigger] more[b] implies a == b by {
        let c = if a < pos {
            a
        } else {
            a - 1
        };
        let d = if b < pos {
            b
        } else {
            b - 1
        };
        if a != pos && b != pos {
            assert(more[a] == ids[c] && more[b] == ids[d]);
        } else if a != pos {
            assert(ids.contains(ids[c]));
        } else if b != pos {
            assert(ids.contains(ids[d]));
        }
    }
}

// Laws.

/// A stored message is shown with its peer, after what was shown before, under an id that
/// no message had; what is shown with other peers does not change.
pub proof fn law_saved_message_is_shown(
    store: StoreView,
    peer_id: Seq<char>,
    text: Seq<char>,
    direction: Seq<char>,
    now: i64,
    other: Seq<char>,
)
    requires
        store.well_formed(),
        store.has_room(),
    ensures
        ({
            let after = store.with_message(peer_id, text, direction, now);
            let row = after.messages.last();
            &&& after.messages.filter(of_peer(peer_id)) == store.messages.filter(
                of_peer(peer_id),
            ).push(row)
            &&& row == (MessageRow { id: row.id, peer_id, text, direction, timestamp: now })
            &&& forall|i: int|
                0 <= i < store.messages.len() ==> (#[trigger] store.messages[i]).id < row.id
            &&& other != peer_id ==> after.messages.filter(of_peer(other))
                == store.messages.filter(of_peer(other))
        }),
{
    let after = store.with_message(peer_id, text, direction, now);
    let n = store.messages.len() as int;
    assert(after.messages.take(n + 1) =~= after.messages);
    assert(after.messages.take(n) =~= store.messages);
    lemma_filter_step(after.messages, of_peer(peer_id), n);
    lemma_filter_step(after.messages, of_peer(other), n);
}

/// The greatest message id that a reader has seen who asked for the messages after `since`.
pub open spec fn greatest_seen(messages: Seq<MessageRow>, since: i64) -> i64 {
    if messages.len() > 0 && messages.last().id > since {
        messages.last().id
    } else {
        since
    }
}

/// A reader who asks for the messages after an id, and later, when more were stored, for
/// those after the greatest id seen, gets each message once: the two answers together are
/// what the first question would be answered later.
pub proof fn law_polling_gives_each_message_once(
    earlier: StoreView,
    later: StoreView,
    since: i64,
)
    requires
        later.well_formed(),
        earlier.messages.is_prefix_of(later.messages),
    ensures
        later.messages.filter(later_than(since)) == earlier.messages.filter(later_than(since))
            + later.messages.filter(later_than(greatest_seen(earlier.messages, since))),
{
    let all = later.messages;
    let n = earlier.messages.len() as int;
    assert(all.take(n) =~= earlier.messages);
    lemma_polled(all, n, all.len() as int, since);
    assert(all.take(all.len() as int) =~= all);
}

proof fn lemma_polled(all: Seq<MessageRow>, n: int, k: int, since: i64)
    requires
        ids_increase(all),
        0 <= n <= k <= all.len(),
    ensures
        all.take(k).filter(later_than(since)) == all.take(n).filter(later_than(since)) + all.take(
            k,
        ).filter(later_than(greatest_seen(all.take(n), since))),
    decreases k,
{
    let seen = greatest_seen(all.take(n), since);
    if k == n {
        let first = all.take(n);
        assert forall|i: int| 0 <= i < n implies (#[trigger] first[i]).id <= seen by {
            if i < n - 1 {
                assert(all[i].id < all[n - 1].id);
            }
            assert(first.last() == all[n - 1]);
        }
        lemma_nothing_later(first, seen);
        assert(first.filter(later_than(since)) + Seq::<MessageRow>::empty() =~= first.filter(
            later_than(since),
        ));
    } else {
        lemma_polled(all, n, k - 1, since);
        lemma_filter_step(all, later_than(since), k - 1);
        lemma_filter_step(all, later_than(seen), k - 1);
        if n > 0 {
            assert(all.take(n).last() == all[n - 1]);
            assert(all[n - 1].id < all[k - 1].id);
        }
        assert(all.take(k).filter(later_than(since)) =~= all.take(n).filter(later_than(since))
            + all.take(k).filter(later_than(seen)));
    }
}

proof fn lemma_nothing_later(messages: Seq<MessageRow>, id: i64)
    requires
        forall|i: int| 0 <= i < messages.len() ==> (#[trigger] messages[i]).id <= id,
    ensures
        messages.filter(later_than(id)) == Seq::<MessageRow>::empty(),
    decreases messages.len(),
{
    reveal(Seq::filter);
    if messages.len() > 0 {
        lemma_nothing_later(messages.drop_last(), id);
        assert(messages[messages.len() - 1].id <= id);
    }
}

/// Adding a peer again keeps when it was first seen, and keeps its name if the new one is
/// empty; other peers are left as they were.
pub proof fn law_upsert_keeps_first_seen(
    store: StoreView,
    tan_id: Seq<char>,
    friendly_name: Seq<char>,
    status: Seq<char>,
    now: i64,
    other: Seq<char>,
)
    requires
        store.peers.contains_key(tan_id),
    ensures
        ({
            let after = store.with_peer(tan_id, friendly_name, status, now);
            &&& after.peers[tan_id].first_seen == store.peers[tan_id].first_seen
            &&& after.peers[tan_id].status == status
            &&& friendly_name.len() == 0 ==> after.peers[tan_id].friendly_name
                == store.peers[tan_id].friendly_name
            &&& friendly_name.len() > 0 ==> after.peers[tan_id].friendly_name == friendly_name
            &&& after.messages == store.messages
            &&& other != tan_id ==> after.peers.contains_key(other)
                == store.peers.contains_key(other) && after.peers[other] == store.peers[other]
        }),
{
}

/// The peers that have a preview are those that have messages, and each has one.
pub proof fn law_one_preview_per_peer(store: StoreView)
    ensures
        ({
            let peers = store.previews().map_values(|p: PreviewRow| p.peer_id);
            &&& distinct(peers)
            &&& forall|i: int|
                0 <= i < store.messages.len() ==> peers.contains(
                    (#[trigger] store.messages[i]).peer_id,
                )
        }),
{
    let n = store.messages.len() as int;
    let positions = store.latest_before(n);
    let peers = store.previews().map_values(|p: PreviewRow| p.peer_id);
    lemma_latest_before(store, n);
    assert forall|a: int| 0 <= a < peers.len() implies #[trigger] peers[a]
        == store.messages[positions[a]].peer_id by {}
    assert forall|a: int, b: int|
        0 <= a < peers.len() && 0 <= b < peers.len() && #[trigger] peers[a]
            == #[trigger] peers[b] implies a == b by {
        assert(store.is_latest(positions[a]) && store.is_latest(positions[b]));
    }
    assert forall|i: int| 0 <= i < n implies peers.contains(
        (#[trigger] store.messages[i]).peer_id,
    ) by {
        lemma_latest_exists(store, i);
        let a = positions.index_of(latest_with(store, i));
        assert(peers[a] == store.messages[i].peer_id);
    }
}

/// Where the latest message stands that has the same peer as the one at `i`.
spec fn latest_with(store: StoreView, i: int) -> int
    decreases store.messages.len() - i,
{
    if i >= store.messages.len() || store.is_latest(i) {
        i
    } else {
        let j = choose|j: int|
            i < j < store.messages.len() && (#[trigger] store.messages[j]).peer_id
                == store.messages[i].peer_id;
        if i < j < store.messages.len() {
            latest_with(store, j)
        } else {
            i
        }
    }
}

proof fn lemma_latest_exists(store: StoreView, i: int)
    requires
        0 <= i < store.messages.len(),
    ensures
        i <= latest_with(store, i) < store.messages.len(),
        store.is_latest(latest_with(store, i)),
        store.messages[latest_with(store, i)].peer_id == store.messages[i].peer_id,
    decreases store.messages.len() - i,
{
    if !store.is_latest(i) {
        let j = choose|j: int|
            i < j < store.messages.len() && (#[trigger] store.messages[j]).peer_id
                == store.messages[i].peer_id;
        lemma_latest_exists(store, j);
    }
}

proof fn lemma_latest_before(store: StoreView, n: int)
    requires
        0 <= n <= store.messages.len(),
    ensures
        forall|a: int|
            0 <= a < store.latest_before(n).len() ==> 0 <= #[trigger] store.latest_before(n)[a] < n
                && store.is_latest(store.latest_before(n)[a]),
        forall|a: int, b: int|
            0 <= a < b < store.latest_before(n).len() ==> #[trigger] store.latest_before(n)[a]
                < #[trigger] store.latest_before(n)[b],
        forall|i: int|
            0 <= i < n && #[trigger] store.is_latest(i) ==> store.latest_before(n).contains(i),
    decreases n,
{
    if n > 0 {
        lemma_latest_before(store, n - 1);
        let shorter = store.latest_before(n - 1);
        let positions = store.latest_before(n);
        if store.is_latest(n - 1) {
            assert(positions[shorter.len() as int] == n - 1);
            assert forall|i: int| 0 <= i < n && #[trigger] store.is_latest(
                i,
            ) implies positions.contains(i) by {
                if i < n - 1 {
                    let a = shorter.index_of(i);
                    assert(positions[a] == shorter[a]);
                }
            }
        }
    }
}

/// Messages are listed by time: no timestamp is followed by a smaller one, whoever wrote the
/// messages, and messages of one time stand in the order of their ids.
pub proof fn law_messages_are_listed_by_time(listed: Seq<MessageRow>)
    ensures
        in_order::<StoredMessage>(listed) <==> (forall|i: int, j: int|
            0 <= i < j < listed.len() ==> {
                &&& (#[trigger] listed[i]).timestamp <= (#[trigger] listed[j]).timestamp
                &&& listed[i].timestamp == listed[j].timestamp ==> listed[i].id <= listed[j].id
            }),
{
    if in_order::<StoredMessage>(listed) {
        assert forall|i: int, j: int| 0 <= i < j < listed.len() implies {
            &&& (#[trigger] listed[i]).timestamp <= (#[trigger] listed[j]).timestamp
            &&& listed[i].timestamp == listed[j].timestamp ==> listed[i].id <= listed[j].id
        } by {
            assert(StoredMessage::ahead(listed[i], listed[j]));
        }
    }
}

/// Conversations are listed with the most recent first, and peers with the one first seen
/// last at the head.
pub proof fn law_the_newest_is_listed_first(previews: Seq<PreviewRow>, peers: Seq<PeerRow>)
    ensures
        in_order::<ConversationPreview>(previews) <==> (forall|i: int, j: int|
            0 <= i < j < previews.len() ==> (#[trigger] previews[i]).last_timestamp >= (
            #[trigger] previews[j]).last_timestamp),
        in_order::<StoredPeer>(peers) <==> (forall|i: int, j: int|
            0 <= i < j < peers.len() ==> (#[trigger] peers[i]).first_seen >= (
            #[trigger] peers[j]).first_seen),
{
    if in_order::<ConversationPreview>(previews) {
        assert forall|i: int, j: int| 0 <= i < j < previews.len() implies (
        #[trigger] previews[i]).last_timestamp >= (#[trigger] previews[j]).last_timestamp by {
            assert(ConversationPreview::ahead(previews[i], previews[j]));
        }
    }
    if in_order::<StoredPeer>(peers) {
        assert forall|i: int, j: int| 0 <= i < j < peers.len() implies (
        #[trigger] peers[i]).first_seen >= (#[trigger] peers[j]).first_seen by {
            assert(StoredPeer::ahead(peers[i], peers[j]));
        }
    }
}

/// There is room for a message while the highest id given out and the number of messages are
/// both below the largest 64-bit number; a message is sent or received.
pub proof fn law_room_ends_at_the_limits(store: StoreView, direction: Seq<char>)
    ensures
        store.has_room() <==> store.sequence < 0x7fff_ffff_ffff_ffff && store.messages.len()
            < 0x7fff_ffff_ffff_ffff,
        is_direction(direction) <==> (direction == "sent"@ || direction == "received"@),
{
}

/// The store after is the one before with one more message at its end, under the next id.
pub open spec fn gained_message(
    before: StoreView,
    after: StoreView,
    peer_id: Seq<char>,
    text: Seq<char>,
    direction: Seq<char>,
    now: i64,
) -> bool {
    let n = before.messages.len() as int;
    &&& after.peers == before.peers
    &&& after.sequence == before.sequence + 1
    &&& after.messages.len() == n + 1
    &&& after.messages.take(n) == before.messages
    &&& after.messages[n].id == before.sequence + 1
    &&& after.messages[n].peer_id == peer_id
    &&& after.messages[n].text == text
    &&& after.messages[n].direction == direction
    &&& after.messages[n].timestamp == now
}

/// The store after is the one before with this peer: first seen when it was first stored,
/// called by the new name unless that is empty, and with the new status.
pub open spec fn gained_peer(
    before: StoreView,
    after: StoreView,
    tan_id: Seq<char>,
    friendly_name: Seq<char>,
    status: Seq<char>,
    now: i64,
) -> bool {
    let known = before.peers.contains_key(tan_id);
    &&& after.messages == before.messages
    &&& after.sequence == before.sequence
    &&& after.peers.contains_key(tan_id)
    &&& after.peers[tan_id].status == status
    &&& after.peers[tan_id].first_seen == (if known {
        before.peers[tan_id].first_seen
    } else {
        now
    })
    &&& after.peers[tan_id].friendly_name == (if known && friendly_name.len() == 0 {
        before.peers[tan_id].friendly_name
    } else {
        friendly_name
    })
    &&& after.peers[tan_id].tan_id == (if known {
        before.peers[tan_id].tan_id
    } else {
        tan_id
    })
    &&& same_but(before.peers, after.peers, tan_id)
}

/// What the three changes of a store come to: a message is added at the end, a peer is added
/// or changed, and the status of a peer is changed only if the peer is known.
pub proof fn law_changes_of_the_store(
    store: StoreView,
    id: Seq<char>,
    name: Seq<char>,
    text: Seq<char>,
    now: i64,
)
    ensures
        store.sequence < 0x7fff_ffff_ffff_ffff ==> gained_message(
            store,
            store.with_message(id, name, text, now),
            id,
            name,
            text,
            now,
        ),
        gained_peer(store, store.with_peer(id, name, text, now), id, name, text, now),
        store.peers.contains_key(id) ==> gained_peer(
            store,
            store.with_status(id, text),
            id,
            Seq::empty(),
            text,
            now,
        ),
        !store.peers.contains_key(id) ==> store.with_status(id, text) == store,
{
    let n = store.messages.len() as int;
    assert(store.with_message(id, name, text, now).messages.take(n) =~= store.messages);
}

/// The messages with a peer are those that name it, and the messages after an id are those
/// with a greater one.
pub proof fn law_selections(messages: Seq<MessageRow>, peer_id: Seq<char>, id: i64)
    ensures
        messages.filter(of_peer(peer_id)) == messages.filter(|m: MessageRow| m.peer_id == peer_id),
        messages.filter(later_than(id)) == messages.filter(|m: MessageRow| m.id > id),
{
    assert(of_peer(peer_id) =~= (|m: MessageRow| m.peer_id == peer_id));
    assert(later_than(id) =~= (|m: MessageRow| m.id > id));
}

/// The preview shows the message at this position, which is the last one with its peer, and
/// counts the messages with that peer.
pub open spec fn shows_last(messages: Seq<MessageRow>, preview: PreviewRow, i: int) -> bool {
    &&& 0 <= i < messages.len()
    &&& messages[i].peer_id == preview.peer_id
    &&& messages[i].text == preview.last_message
    &&& messages[i].direction == preview.last_direction
    &&& messages[i].timestamp == preview.last_timestamp
    &&& forall|j: int|
        i < j < messages.len() ==> (#[trigger] messages[j]).peer_id != preview.peer_id
    &&& preview.message_count == messages.filter(
        |m: MessageRow| m.peer_id == preview.peer_id,
    ).len()
}

/// Every preview shows the last message with its peer.
pub proof fn law_previews_show_the_last_message(store: StoreView, a: int)
    requires
        0 <= a < store.previews().len(),
    ensures
        exists|i: int| #[trigger] shows_last(store.messages, store.previews()[a], i),
{
    let n = store.messages.len() as int;
    lemma_latest_before(store, n);
    let i = store.latest_before(n)[a];
    let preview = store.previews()[a];
    assert(store.is_latest(i));
    law_selections(store.messages, preview.peer_id, 0);
    assert(shows_last(store.messages, preview, i));
}

/// The highest id given out is that on record or that of the last message, whichever is
/// greater, so that no message has a greater one; an empty store without a record counts
/// from zero.
pub proof fn law_highest_id(messages: Seq<MessageRow>, recorded: i64, i: int)
    requires
        forall|i: int, j: int|
            0 <= i < j < messages.len() ==> (#[trigger] messages[i]).id < (
            #[trigger] messages[j]).id,
    ensures
        ({
            let highest = highest_id(messages, recorded);
            &&& highest >= recorded
            &&& 0 <= i < messages.len() ==> messages[i].id <= highest
            &&& messages.len() == 0 ==> highest == (if recorded > 0 {
                recorded
            } else {
                0
            })
            &&& messages.len() > 0 ==> highest == recorded || highest == messages[messages.len()
                - 1].id
        }),
{
    if 0 <= i < messages.len() - 1 {
        assert(messages[i].id < messages[messages.len() - 1].id);
    }
}

/// The rows that a store takes, and the rules that every store keeps.
pub proof fn law_rules_of_the_store(store: StoreView)
    ensures
        acceptable(store.messages) <==> {
            &&& store.messages.len() <= 0x7fff_ffff_ffff_ffff
            &&& forall|i: int, j: int|
                0 <= i < j < store.messages.len() ==> (#[trigger] store.messages[i]).id < (
                #[trigger] store.messages[j]).id
            &&& forall|i: int|
                0 <= i < store.messages.len() ==> (#[trigger] store.messages[i]).direction
                    == "sent"@ || store.messages[i].direction == "received"@
        },
        store.well_formed() <==> {
            &&& acceptable(store.messages)
            &&& forall|i: int|
                0 <= i < store.messages.len() ==> (#[trigger] store.messages[i]).id
                    <= store.sequence
            &&& forall|id: Seq<char>| #[trigger]
                store.peers.contains_key(id) ==> store.peers[id].tan_id == id
        },
{
}

/// A list has one row for each item, at its position; a row holds every field of its item.
pub proof fn law_rows_hold_every_field(
    messages: Seq<StoredMessage>,
    peers: Seq<StoredPeer>,
    previews: Seq<ConversationPreview>,
    i: int,
)
    ensures
        rows(messages).len() == messages.len(),
        rows(peers).len() == peers.len(),
        rows(previews).len() == previews.len(),
        peer_row_ids(peers).len() == peers.len(),
        0 <= i < messages.len() ==> rows(messages)[i] == (MessageRow {
            id: messages[i].id,
            peer_id: messages[i].peer_id@,
            text: messages[i].text@,
            direction: messages[i].direction@,
            timestamp: messages[i].timestamp,
        }),
        0 <= i < peers.len() ==> rows(peers)[i] == (PeerRow {
            tan_id: peers[i].tan_id@,
            friendly_name: peers[i].friendly_name@,
            status: peers[i].status@,
            first_seen: peers[i].first_seen,
        }),
        0 <= i < peers.len() ==> peer_row_ids(peers)[i] == peers[i].tan_id@,
        0 <= i < previews.len() ==> rows(previews)[i] == (PreviewRow {
            peer_id: previews[i].peer_id@,
            last_message: previews[i].last_message@,
            last_direction: previews[i].last_direction@,
            last_timestamp: previews[i].last_timestamp,
            message_count: previews[i].message_count as int,
        }),
{
}

} // verus!
