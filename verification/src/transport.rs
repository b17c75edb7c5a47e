//! Transport: how messages are framed on a connection, which are delivered, which are
//! forwarded, and which are dropped.
//!
//! On a connection a message is its length, four bytes with the most significant first,
//! followed by its bytes. A message for this node is verified under its sender's key and
//! decrypted. One for another node goes to the next hop of its route with one hop less to
//! live.
use crate::bytes;
use crate::bytes::{be32, from_be32, law_be32_reads_back};
use crate::crypto;
use crate::crypto::{decrypted, ed25519_accepts, x25519_public_key, MAX_PLAINTEXT_BYTES};
use crate::identity::{IdentityView, NodeIdentity};
use crate::message;
use crate::peers::{Endpoint, PeerTable, PeerTableView};
use crate::table::distinct;
use crate::text;
use crate::text::decimal_digits;
use crate::wire::{MessageView, TanMessage};
use std::collections::VecDeque;
use vstd::prelude::*;
use vstd::string::*;

verus! {

/// Default TCP port for messages.
pub const MESSAGE_PORT: u16 = 7701;

/// Maximum message size that is accepted.
pub const MAX_MESSAGE_SIZE: u32 = 65_536;

/// Maximum number of message ids kept to tell duplicates.
pub const DEDUP_CAPACITY: usize = 100;

/// Why a message could not be sent, forwarded or received.
#[derive(Debug)]
pub enum TransportError {
    /// There is no route to the destination of a new message.
    NoRoute(String),
    /// There is no route to the destination of a message that came in.
    NoForwardRoute(String),
    /// The peer has a route and is not known.
    UnknownPeer(String),
    /// The payload could not be encrypted.
    Encryption,
    /// A message for this node comes from a sender that is not known.
    UnknownSender(String),
    /// A message for this node does not carry its sender's signature.
    BadSignature,
    /// A message for this node could not be decrypted.
    Decryption,
    /// A message announces more bytes than are accepted.
    TooLarge(u32),
}

/// What a transport error stands for.
#[verifier::ext_equal]
pub enum TransportErrorView {
    NoRoute(Seq<char>),
    NoForwardRoute(Seq<char>),
    UnknownPeer(Seq<char>),
    Encryption,
    UnknownSender(Seq<char>),
    BadSignature,
    Decryption,
    TooLarge(u32),
}

impl View for TransportError {
    type V = TransportErrorView;

    open spec fn view(&self) -> TransportErrorView {
        match self {
            TransportError::NoRoute(id) => TransportErrorView::NoRoute(id@),
            TransportError::NoForwardRoute(id) => TransportErrorView::NoForwardRoute(id@),
            TransportError::UnknownPeer(id) => TransportErrorView::UnknownPeer(id@),
            TransportError::Encryption => TransportErrorView::Encryption,
            TransportError::UnknownSender(id) => TransportErrorView::UnknownSender(id@),
            TransportError::BadSignature => TransportErrorView::BadSignature,
            TransportError::Decryption => TransportErrorView::Decryption,
            TransportError::TooLarge(n) => TransportErrorView::TooLarge(*n),
        }
    }
}

impl TransportErrorView {
    /// The text under which the error is reported.
    pub open spec fn message(self) -> Seq<char> {
        match self {
            TransportErrorView::NoRoute(id) => "no route to "@ + id,
            TransportErrorView::NoForwardRoute(id) => "no route to destination "@ + id,
            TransportErrorView::UnknownPeer(id) => "peer "@ + id + " not found in table"@,
            TransportErrorView::Encryption => "failed to encrypt message payload"@,
            TransportErrorView::UnknownSender(id) => "unknown sender "@ + id,
            TransportErrorView::BadSignature => "message signature invalid"@,
            TransportErrorView::Decryption => "failed to decrypt message"@,
            TransportErrorView::TooLarge(n) => "message too large: "@ + decimal_digits(n as nat)
                + " bytes (max 65536)"@,
        }
    }
}

impl TransportError {
    /// The text under which the error is reported.
    pub fn message(&self) -> (message: String)
        ensures
            message@ == self@.message(),
    {
        match self {
            TransportError::NoRoute(id) => {
                let mut message = "no route to ".to_owned();
                message.append(id.as_str());
                message
            },
            TransportError::NoForwardRoute(id) => {
                let mut message = "no route to destination ".to_owned();
                message.append(id.as_str());
                message
            },
            TransportError::UnknownPeer(id) => {
                let mut message = "peer ".to_owned();
                message.append(id.as_str());
                message.append(" not found in table");
                message
            },
            TransportError::Encryption => "failed to encrypt message payload".to_owned(),
            TransportError::UnknownSender(id) => {
                let mut message = "unknown sender ".to_owned();
                message.append(id.as_str());
                message
            },
            TransportError::BadSignature => "message signature invalid".to_owned(),
            TransportError::Decryption => "failed to decrypt message".to_owned(),
            TransportError::TooLarge(n) => {
                let mut message = "message too large: ".to_owned();
                message.append(text::decimal(*n as u64).as_str());
                message.append(" bytes (max 65536)");
                message
            },
        }
    }
}

// Duplicates.

/// Recently seen message ids, the oldest first.
pub struct SeenMessages {
    ids: VecDeque<String>,
}

impl View for SeenMessages {
    type V = Seq<Seq<char>>;

    closed spec fn view(&self) -> Seq<Seq<char>> {
        text::texts(self.ids@)
    }
}

/// No more ids than are kept, and none twice.
pub open spec fn within_capacity(seen: Seq<Seq<char>>) -> bool {
    seen.len() <= DEDUP_CAPACITY && distinct(seen)
}

/// The ids that are remembered once `id` was seen: a new one comes last, and the oldest
/// leaves when there is no room.
pub open spec fn remembered(seen: Seq<Seq<char>>, id: Seq<char>) -> Seq<Seq<char>> {
    if seen.contains(id) {
        seen
    } else if seen.len() >= DEDUP_CAPACITY {
        seen.skip(1).push(id)
    } else {
        seen.push(id)
    }
}

impl SeenMessages {
    #[verifier::type_invariant]
    spec fn stays_within_capacity(&self) -> bool {
        within_capacity(self@)
    }

    /// Nothing seen yet.
    pub fn new() -> (seen: Self)
        ensures
            seen@ == Seq::<Seq<char>>::empty(),
            within_capacity(seen@),
    {
        let ids: VecDeque<String> = VecDeque::with_capacity(DEDUP_CAPACITY);
        assert(text::texts(ids@) =~= Seq::empty());
        SeenMessages { ids }
    }

    /// Returns `true` if the id was already seen, and remembers it otherwise.
    pub fn check_and_insert(&mut self, id: &str) -> (duplicate: bool)
        ensures
            duplicate == old(self)@.contains(id@),
            final(self)@ == remembered(old(self)@, id@),
            within_capacity(final(self)@),
    {
        let ghost before = self@;
        proof {
            use_type_invariant(&*self);
            law_memory_stays_within_capacity(before, id@);
        }
        let mut i: usize = 0;
        while i < self.ids.len()
            invariant
                i <= self.ids@.len(),
                self@ == before,
                within_capacity(before),
                forall|j: int| 0 <= j < i ==> #[trigger] before[j] != id@,
            decreases self.ids@.len() - i,
        {
            if text::same(self.ids[i].as_str(), id) {
                assert(before[i as int] == id@);
                return true;
            }
            i = i + 1;
        }
        assert(!before.contains(id@));
        let mut ids: VecDeque<String> = VecDeque::new();
        assert(text::texts(ids@) =~= Seq::empty());
        std::mem::swap(&mut ids, &mut self.ids);
        if ids.len() >= DEDUP_CAPACITY {
            let _ = ids.pop_front();
            assert(text::texts(ids@) =~= before.skip(1));
        }
        let ghost shifted = text::texts(ids@);
        ids.push_back(id.to_owned());
        assert(text::texts(ids@) =~= shifted.push(id@));
        self.ids = ids;
        false
    }
}

/// However many messages are seen, no more ids are remembered than there is room for, and
/// none twice. The id that was seen last is among them.
pub proof fn law_memory_stays_within_capacity(seen: Seq<Seq<char>>, id: Seq<char>)
    requires
        within_capacity(seen),
    ensures
        within_capacity(remembered(seen, id)),
        remembered(seen, id).contains(id),
{
    let after = remembered(seen, id);
    if !seen.contains(id) {
        assert(after.last() == id);
        let kept = after.drop_last();
        let shift: int = if seen.len() >= DEDUP_CAPACITY {
            1
        } else {
            0
        };
        assert forall|i: int, j: int|
            0 <= i < after.len() && 0 <= j < after.len() && #[trigger] after[i]
                == #[trigger] after[j] implies i == j by {
            if i < kept.len() {
                assert(after[i] == seen[i + shift]);
            }
            if j < kept.len() {
                assert(after[j] == seen[j + shift]);
            }
        }
    }
}

/// The ids that are remembered once others were seen as well.
pub open spec fn remembered_all(seen: Seq<Seq<char>>, others: Seq<Seq<char>>) -> Seq<Seq<char>>
    decreases others.len(),
{
    if others.len() == 0 {
        seen
    } else {
        remembered(remembered_all(seen, others.drop_last()), others.last())
    }
}

/// An id at a position is still remembered after others, at most as many as the positions
/// before it and the room behind the last.
proof fn lemma_still_remembered(seen: Seq<Seq<char>>, position: int, others: Seq<Seq<char>>) -> (at:
    int)
    requires
        within_capacity(seen),
        0 <= position < seen.len(),
        seen.len() - 1 - position + others.len() < DEDUP_CAPACITY,
    ensures
        within_capacity(remembered_all(seen, others)),
        0 <= at < remembered_all(seen, others).len(),
        remembered_all(seen, others)[at] == seen[position],
        remembered_all(seen, others).len() - 1 - at <= seen.len() - 1 - position + others.len(),
    decreases others.len(),
{
    if others.len() == 0 {
        position
    } else {
        let before = remembered_all(seen, others.drop_last());
        let at = lemma_still_remembered(seen, position, others.drop_last());
        law_memory_stays_within_capacity(before, others.last());
        if before.contains(others.last()) || before.len() < DEDUP_CAPACITY {
            at
        } else {
            assert(remembered(before, others.last())[at - 1] == before[at]);
            at - 1
        }
    }
}

/// A message that comes again is told as a duplicate while fewer others than are kept came
/// since.
pub proof fn law_recent_messages_are_remembered(
    seen: Seq<Seq<char>>,
    id: Seq<char>,
    others: Seq<Seq<char>>,
)
    requires
        within_capacity(seen),
        !seen.contains(id),
        others.len() < DEDUP_CAPACITY,
    ensures
        remembered_all(remembered(seen, id), others).contains(id),
{
    law_memory_stays_within_capacity(seen, id);
    let after = remembered(seen, id);
    assert(after[after.len() - 1] == id);
    let at = lemma_still_remembered(after, after.len() - 1, others);
}

// Framing.

/// The bytes of a message as they go over a connection.
pub open spec fn framed(body: Seq<u8>) -> Seq<u8> {
    be32((body.len() % 0x1_0000_0000) as u32) + body
}

/// Put the length of a message in front of it.
pub fn frame(body: &[u8]) -> (bytes: Vec<u8>)
    ensures
        bytes@ == framed(body@),
{
    let len: u32 = (body.len() as u64 % 0x1_0000_0000) as u32;
    let mut out: Vec<u8> = Vec::new();
    out.extend_from_slice(&bytes::u32_to_be(len));
    out.extend_from_slice(body);
    assert(out@ =~= framed(body@));
    out
}

/// The length that the first four bytes of a frame announce, or why it is refused.
pub open spec fn announced_length(prefix: Seq<u8>) -> Result<u32, TransportErrorView> {
    let len = from_be32(prefix);
    if len > MAX_MESSAGE_SIZE {
        Err(TransportErrorView::TooLarge(len as u32))
    } else {
        Ok(len as u32)
    }
}

/// Read the length of a message off the first four bytes.
pub fn read_length(prefix: &[u8; 4]) -> (len: Result<u32, TransportError>)
    ensures
        match (len, announced_length(prefix@)) {
            (Ok(n), Ok(m)) => n == m,
            (Err(e), Err(f)) => e@ == f,
            _ => false,
        },
{
    let len: u32 = bytes::u32_from_be(prefix);
    if len > MAX_MESSAGE_SIZE {
        Err(TransportError::TooLarge(len))
    } else {
        Ok(len)
    }
}

/// A body of at most the maximum size reads back from a connection, whatever follows it:
/// the frame is four bytes longer than the body, announces its length, and the body and
/// what was sent after it follow.
pub proof fn law_frames_read_back(body: Seq<u8>, rest: Seq<u8>)
    requires
        body.len() <= MAX_MESSAGE_SIZE,
    ensures
        framed(body).len() == 4 + body.len(),
        framed(body).take(4) == be32(body.len() as u32),
        received(framed(body) + rest) == (Received::Body { body, rest }),
{
    let len = body.len() as u32;
    let stream = framed(body) + rest;
    law_be32_reads_back(len);
    assert(framed(body).take(4) =~= be32(len));
    assert(stream.take(4) =~= be32(len));
    assert(stream.subrange(4, 4 + len) =~= body);
    assert(stream.skip(4 + len) =~= rest);
}

/// What is read off a connection.
pub enum Received {
    /// Less than a whole frame has come yet.
    Incomplete,
    /// The frame is refused.
    Refused(TransportErrorView),
    /// The body of a frame, and what came after it.
    Body { body: Seq<u8>, rest: Seq<u8> },
}

/// What is read off a connection on which these bytes came: four bytes of length, and then
/// as many bytes as those announce.
pub open spec fn received(stream: Seq<u8>) -> Received {
    if stream.len() < 4 {
        Received::Incomplete
    } else {
        match announced_length(stream.take(4)) {
            Err(e) => Received::Refused(e),
            Ok(n) => if stream.len() < 4 + n {
                Received::Incomplete
            } else {
                Received::Body { body: stream.subrange(4, 4 + n), rest: stream.skip(4 + n) }
            },
        }
    }
}

/// The message that is read off a connection, and what is left on it, given how bytes are
/// parsed.
pub open spec fn received_message(
    stream: Seq<u8>,
    parsed: spec_fn(Seq<u8>) -> Option<MessageView>,
) -> Option<(MessageView, Seq<u8>)> {
    match received(stream) {
        Received::Body { body, rest } => match parsed(body) {
            Some(msg) => Some((msg, rest)),
            None => None,
        },
        _ => None,
    }
}

/// A message that is written as bytes, framed and sent reads back as itself, and what is
/// sent after it is left on the connection, for any way of writing messages as bytes that
/// reads back and stays within the maximum size.
pub proof fn law_messages_read_back_from_a_connection(
    msg: MessageView,
    written: spec_fn(MessageView) -> Seq<u8>,
    parsed: spec_fn(Seq<u8>) -> Option<MessageView>,
    rest: Seq<u8>,
)
    requires
        parsed(written(msg)) == Some(msg),
        written(msg).len() <= MAX_MESSAGE_SIZE,
    ensures
        received_message(framed(written(msg)) + rest, parsed) == Some((msg, rest)),
{
    law_frames_read_back(written(msg), rest);
}

/// A longer message, if its length fits in the frame, is refused with its length.
pub proof fn law_longer_messages_are_refused(body: Seq<u8>)
    requires
        MAX_MESSAGE_SIZE < body.len() < 0x1_0000_0000,
    ensures
        announced_length(framed(body).take(4)) == Err::<u32, TransportErrorView>(
            TransportErrorView::TooLarge(body.len() as u32),
        ),
{
    let len = body.len() as u32;
    law_be32_reads_back(len);
    assert(framed(body).take(4) =~= be32(len));
}

// Receiving.

/// What became of a message that came in.
pub enum Delivery {
    /// It was seen before, and is ignored.
    Duplicate,
    /// It was for this node, and says this.
    Own(Vec<u8>),
    /// It was for another node and has no hops left, and is dropped.
    Expired,
    /// It is for another node: pass this message on to this address.
    Forward { msg: TanMessage, next_hop: Endpoint },
}

/// What a delivery stands for.
#[verifier::ext_equal]
pub enum DeliveryView {
    Duplicate,
    Own(Seq<u8>),
    Expired,
    Forward { msg: MessageView, next_hop: Endpoint },
}

impl View for Delivery {
    type V = DeliveryView;

    open spec fn view(&self) -> DeliveryView {
        match self {
            Delivery::Duplicate => DeliveryView::Duplicate,
            Delivery::Own(plaintext) => DeliveryView::Own(plaintext@),
            Delivery::Expired => DeliveryView::Expired,
            Delivery::Forward { msg, next_hop } => DeliveryView::Forward {
                msg: msg@,
                next_hop: *next_hop,
            },
        }
    }
}

/// The sender of a message is known, and the message carries the signature of that sender
/// over its payload.
pub open spec fn from_its_sender(msg: MessageView, table: PeerTableView) -> bool {
    table.peers.contains_key(msg.from_id) && ed25519_accepts(
        table.peers[msg.from_id].public_key,
        msg.payload,
        msg.signature,
    )
}

/// What a node reads in a message addressed to it. A message whose sender is not known, or
/// that its sender did not sign, is refused.
pub open spec fn own_message(
    msg: MessageView,
    identity: IdentityView,
    table: PeerTableView,
) -> Result<DeliveryView, TransportErrorView> {
    if !table.peers.contains_key(msg.from_id) {
        Err(TransportErrorView::UnknownSender(msg.from_id))
    } else if !from_its_sender(msg, table) {
        Err(TransportErrorView::BadSignature)
    } else {
        match msg.opened(identity.seed) {
            Some(plaintext) => Ok(DeliveryView::Own(plaintext)),
            None => Err(TransportErrorView::Decryption),
        }
    }
}

/// What is done with a message for another node: it is dropped when it has no hops left,
/// refused without a route, and otherwise passed on with one hop less.
pub open spec fn forwarded(msg: MessageView, table: PeerTableView) -> Result<
    DeliveryView,
    TransportErrorView,
> {
    if msg.ttl == 0 {
        Ok(DeliveryView::Expired)
    } else if !table.routes.contains_key(msg.to_id) {
        Err(TransportErrorView::NoForwardRoute(msg.to_id))
    } else {
        Ok(
            DeliveryView::Forward {
                msg: MessageView { ttl: (msg.ttl - 1) as u8, ..msg },
                next_hop: table.routes[msg.to_id].next_hop_addr,
            },
        )
    }
}

/// What is done with a message that came in.
pub open spec fn delivered(
    msg: MessageView,
    identity: IdentityView,
    table: PeerTableView,
    seen: Seq<Seq<char>>,
) -> Result<DeliveryView, TransportErrorView> {
    if seen.contains(msg.id) {
        Ok(DeliveryView::Duplicate)
    } else if msg.to_id == identity.tan_id {
        own_message(msg, identity, table)
    } else {
        forwarded(msg, table)
    }
}

/// The outcome is the one that was specified.
pub open spec fn comes_to(
    outcome: Result<Delivery, TransportError>,
    expected: Result<DeliveryView, TransportErrorView>,
) -> bool {
    match (outcome, expected) {
        (Ok(d), Ok(e)) => d@ == e,
        (Err(d), Err(e)) => d@ == e,
        _ => false,
    }
}

/// Verify and decrypt a message addressed to this node.
pub fn handle_own_message(msg: &TanMessage, identity: &NodeIdentity, peer_table: &PeerTable) -> (
    outcome: Result<Delivery, TransportError>)
    ensures
        comes_to(outcome, own_message(msg@, identity@, peer_table@)),
{
    let sender = match peer_table.get_peer(msg.from_id.as_str()) {
        Some(peer) => peer,
        None => {
            return Err(TransportError::UnknownSender(msg.from_id.clone()));
        },
    };
    if !crypto::accepts(&sender.public_key, msg.payload.as_slice(), &msg.signature) {
        return Err(TransportError::BadSignature);
    }
    match message::open_message(msg, identity) {
        Ok(plaintext) => Ok(Delivery::Own(plaintext)),
        Err(_) => Err(TransportError::Decryption),
    }
}

/// Decide how a message for another node goes on.
pub fn forward_message(msg: &TanMessage, peer_table: &PeerTable) -> (outcome: Result<
    Delivery,
    TransportError,
>)
    ensures
        comes_to(outcome, forwarded(msg@, peer_table@)),
{
    if msg.ttl == 0 {
        return Ok(Delivery::Expired);
    }
    match peer_table.get_route(msg.to_id.as_str()) {
        Some(route) => {
            let mut onward = msg.clone();
            onward.ttl = msg.ttl - 1;
            assert(onward@ =~= (MessageView { ttl: (msg@.ttl - 1) as u8, ..msg@ }));
            Ok(Delivery::Forward { msg: onward, next_hop: route.next_hop_addr })
        },
        None => Err(TransportError::NoForwardRoute(msg.to_id.clone())),
    }
}

/// Decide what to do with a message that came in, and remember its id.
pub fn handle_message(
    msg: &TanMessage,
    identity: &NodeIdentity,
    peer_table: &PeerTable,
    seen: &mut SeenMessages,
) -> (outcome: Result<Delivery, TransportError>)
    ensures
        comes_to(outcome, delivered(msg@, identity@, peer_table@, old(seen)@)),
        final(seen)@ == remembered(old(seen)@, msg@.id),
        within_capacity(final(seen)@),
{
    if seen.check_and_insert(msg.id.as_str()) {
        return Ok(Delivery::Duplicate);
    }
    if text::same(msg.to_id.as_str(), identity.tan_id.as_str()) {
        handle_own_message(msg, identity, peer_table)
    } else {
        forward_message(msg, peer_table)
    }
}

/// Each hop shortens the life of a message by one, and changes nothing else in it. A
/// message with no hops left is not passed on.
pub proof fn law_forwarding_uses_up_a_hop(msg: MessageView, table: PeerTableView)
    ensures
        match forwarded(msg, table) {
            Ok(DeliveryView::Forward { msg: onward, next_hop }) => {
                &&& onward.ttl == msg.ttl - 1
                &&& onward == (MessageView { ttl: onward.ttl, ..msg })
                &&& table.routes.contains_key(msg.to_id)
                &&& next_hop == table.routes[msg.to_id].next_hop_addr
            },
            Ok(_) => msg.ttl == 0,
            Err(_) => msg.ttl > 0 && !table.routes.contains_key(msg.to_id),
        },
{
}

/// What is left of a message that passes through nodes with these tables, one after the
/// other, if all of them pass it on.
pub open spec fn passed_through(msg: MessageView, tables: Seq<PeerTableView>) -> Option<
    MessageView,
>
    decreases tables.len(),
{
    if tables.len() == 0 {
        Some(msg)
    } else {
        match passed_through(msg, tables.drop_last()) {
            None => None,
            Some(before) => match forwarded(before, tables.last()) {
                Ok(DeliveryView::Forward { msg: onward, next_hop }) => Some(onward),
                _ => None,
            },
        }
    }
}

/// Every table has a route to the destination.
pub open spec fn all_have_route(tables: Seq<PeerTableView>, to_id: Seq<char>) -> bool {
    forall|i: int| 0 <= i < tables.len() ==> (#[trigger] tables[i]).routes.contains_key(to_id)
}

/// A message passes through as many nodes as it has hops, if each of them has a route, and
/// through no more; it comes out as it went in, but for the hops it has used up.
pub proof fn law_messages_travel_as_far_as_their_hops(
    msg: MessageView,
    tables: Seq<PeerTableView>,
)
    ensures
        passed_through(msg, tables) is Some <==> tables.len() <= msg.ttl && all_have_route(
            tables,
            msg.to_id,
        ),
        passed_through(msg, tables) is Some ==> passed_through(msg, tables)->0 == (MessageView {
            ttl: (msg.ttl - tables.len()) as u8,
            ..msg
        }),
    decreases tables.len(),
{
    if tables.len() > 0 {
        let shorter = tables.drop_last();
        law_messages_travel_as_far_as_their_hops(msg, shorter);
        assert(all_have_route(tables, msg.to_id) <==> all_have_route(shorter, msg.to_id)
            && tables.last().routes.contains_key(msg.to_id)) by {
            if all_have_route(tables, msg.to_id) {
                assert forall|i: int| 0 <= i < shorter.len() implies (
                #[trigger] shorter[i]).routes.contains_key(msg.to_id) by {
                    assert(tables[i].routes.contains_key(msg.to_id));
                }
                assert(tables[tables.len() - 1].routes.contains_key(msg.to_id));
            } else if all_have_route(shorter, msg.to_id) {
                let i = choose|i: int|
                    0 <= i < tables.len() && !(#[trigger] tables[i]).routes.contains_key(msg.to_id);
                assert(i < shorter.len() ==> shorter[i].routes.contains_key(msg.to_id));
            }
        }
    }
}

/// A message that comes a second time is a duplicate, whatever came of the first.
pub proof fn law_second_copy_is_a_duplicate(
    msg: MessageView,
    identity: IdentityView,
    table: PeerTableView,
    seen: Seq<Seq<char>>,
)
    requires
        within_capacity(seen),
    ensures
        delivered(msg, identity, table, remembered(seen, msg.id)) == Ok::<
            DeliveryView,
            TransportErrorView,
        >(DeliveryView::Duplicate),
{
    law_memory_stays_within_capacity(seen, msg.id);
}

/// A message that was passed on reads, at its destination, as it would have read before.
pub proof fn law_forwarded_messages_read_the_same(
    msg: MessageView,
    table: PeerTableView,
    receiver: IdentityView,
    receiver_table: PeerTableView,
)
    requires
        forwarded(msg, table) is Ok,
        forwarded(msg, table)->Ok_0 is Forward,
        msg.to_id == receiver.tan_id,
    ensures
        own_message(forwarded(msg, table)->Ok_0->Forward_msg, receiver, receiver_table)
            == own_message(msg, receiver, receiver_table),
{
}

/// Nothing is delivered to a node but what a known sender signed.
pub proof fn law_only_signed_messages_are_delivered(
    msg: MessageView,
    identity: IdentityView,
    table: PeerTableView,
    seen: Seq<Seq<char>>,
)
    ensures
        delivered(msg, identity, table, seen) matches Ok(DeliveryView::Own(plaintext)) ==> {
            &&& msg.to_id == identity.tan_id
            &&& !seen.contains(msg.id)
            &&& from_its_sender(msg, table)
            &&& msg.opened(identity.seed) == Some(plaintext)
        },
{
}

/// What one node sends to another is delivered there: a message made for the key that the
/// receiver decrypts with, signed by a sender whom the receiver knows under the key that
/// accepts the signature, is read as what was written.
pub proof fn law_sent_messages_are_delivered(
    msg: MessageView,
    sender: IdentityView,
    receiver: NodeIdentity,
    table: PeerTableView,
    seen: Seq<Seq<char>>,
    plaintext: Seq<u8>,
)
    requires
        receiver.well_formed(),
        msg.made_for(sender, receiver@.tan_id, x25519_public_key(receiver@.seed), plaintext),
        ed25519_accepts(sender.public_key, msg.payload, msg.signature),
        table.peers.contains_key(sender.tan_id),
        table.peers[sender.tan_id].public_key == sender.public_key,
        !seen.contains(msg.id),
    ensures
        delivered(msg, receiver@, table, seen) == Ok::<DeliveryView, TransportErrorView>(
            DeliveryView::Own(plaintext),
        ),
{
    message::law_messages_read_back(msg, sender, receiver, plaintext);
}

// Sending.

/// Why a message to this destination is refused, if it is.
pub open spec fn send_refusal(
    table: PeerTableView,
    to_id: Seq<char>,
    plaintext: Seq<u8>,
) -> Option<TransportErrorView> {
    if !table.routes.contains_key(to_id) {
        Some(TransportErrorView::NoRoute(to_id))
    } else if !table.peers.contains_key(to_id) {
        Some(TransportErrorView::UnknownPeer(to_id))
    } else if plaintext.len() > MAX_PLAINTEXT_BYTES {
        Some(TransportErrorView::Encryption)
    } else {
        None
    }
}

/// Build, encrypt and sign a message to a peer, and say where to send it. The payload is
/// encrypted under the key that the peer announced for that.
pub fn send_message(
    identity: &NodeIdentity,
    peer_table: &PeerTable,
    to_id: &str,
    plaintext: &[u8],
) -> (sent: Result<(TanMessage, Endpoint), TransportError>)
    ensures
        match sent {
            Ok((msg, next_hop)) => {
                &&& send_refusal(peer_table@, to_id@, plaintext@) is None
                &&& msg@.made_for(
                    identity@,
                    to_id@,
                    peer_table@.peers[to_id@].encryption_pubkey,
                    plaintext@,
                )
                &&& identity.well_formed() ==> ed25519_accepts(
                    identity@.public_key,
                    msg@.payload,
                    msg@.signature,
                )
                &&& next_hop == peer_table@.routes[to_id@].next_hop_addr
            },
            Err(e) => send_refusal(peer_table@, to_id@, plaintext@) == Some(e@),
        },
{
    let route = match peer_table.get_route(to_id) {
        Some(route) => route,
        None => {
            return Err(TransportError::NoRoute(to_id.to_owned()));
        },
    };
    let peer = match peer_table.get_peer(to_id) {
        Some(peer) => peer,
        None => {
            return Err(TransportError::UnknownPeer(to_id.to_owned()));
        },
    };
    match message::make_message(identity, to_id, &peer.encryption_pubkey, plaintext) {
        Ok(msg) => Ok((msg, route.next_hop_addr)),
        Err(_) => Err(TransportError::Encryption),
    }
}

/// What is done with a message that was not seen before and is for another node. While it
/// has hops left and there is a route, the same message goes on, with one hop less, to the
/// next hop of the route to its destination. It is dropped if and only if it has no hops
/// left, and refused if and only if it has hops left and there is no route.
pub proof fn law_messages_for_others_go_on(
    msg: MessageView,
    identity: IdentityView,
    table: PeerTableView,
    seen: Seq<Seq<char>>,
)
    requires
        !seen.contains(msg.id),
        msg.to_id != identity.tan_id,
    ensures
        ({
            let done = delivered(msg, identity, table, seen);
            let routed = table.routes.contains_key(msg.to_id);
            &&& msg.ttl > 0 && routed ==> done == Ok::<DeliveryView, TransportErrorView>(
                DeliveryView::Forward {
                    msg: MessageView {
                        id: msg.id,
                        from_id: msg.from_id,
                        to_id: msg.to_id,
                        payload: msg.payload,
                        ephemeral_pubkey: msg.ephemeral_pubkey,
                        nonce: msg.nonce,
                        ttl: (msg.ttl - 1) as u8,
                        signature: msg.signature,
                    },
                    next_hop: table.routes[msg.to_id].next_hop_addr,
                },
            )
            &&& done == Ok::<DeliveryView, TransportErrorView>(DeliveryView::Expired) <==> msg.ttl
                == 0
            &&& done is Err <==> msg.ttl > 0 && !routed
            &&& done is Err ==> done->Err_0 == TransportErrorView::NoForwardRoute(msg.to_id)
        }),
{
}

/// What is done with a message that was not seen before and is for this node. It is read if
/// and only if its sender is known, the sender's key accepts the signature over the payload,
/// and the payload decrypts with the node's secret; otherwise the first of these that fails
/// is reported. It is never forwarded nor dropped.
pub proof fn law_messages_for_this_node_are_read(
    msg: MessageView,
    identity: IdentityView,
    table: PeerTableView,
    seen: Seq<Seq<char>>,
)
    requires
        !seen.contains(msg.id),
        msg.to_id == identity.tan_id,
    ensures
        ({
            let done = delivered(msg, identity, table, seen);
            let known = table.peers.contains_key(msg.from_id);
            let signed = ed25519_accepts(
                table.peers[msg.from_id].public_key,
                msg.payload,
                msg.signature,
            );
            let plaintext = decrypted(
                identity.seed,
                msg.ephemeral_pubkey,
                msg.nonce,
                msg.payload,
            );
            &&& known && signed && plaintext is Some ==> done == Ok::<
                DeliveryView,
                TransportErrorView,
            >(DeliveryView::Own(plaintext->0))
            &&& !known ==> done == Err::<DeliveryView, TransportErrorView>(
                TransportErrorView::UnknownSender(msg.from_id),
            )
            &&& known && !signed ==> done == Err::<DeliveryView, TransportErrorView>(
                TransportErrorView::BadSignature,
            )
            &&& known && signed && plaintext is None ==> done == Err::<
                DeliveryView,
                TransportErrorView,
            >(TransportErrorView::Decryption)
        }),
{
}

/// A message is a duplicate if and only if its id was seen, whomever it is for.
pub proof fn law_only_seen_messages_are_duplicates(
    msg: MessageView,
    identity: IdentityView,
    table: PeerTableView,
    seen: Seq<Seq<char>>,
)
    ensures
        delivered(msg, identity, table, seen) == Ok::<DeliveryView, TransportErrorView>(
            DeliveryView::Duplicate,
        ) <==> seen.contains(msg.id),
{
}

/// An outcome comes to what is expected exactly if both are deliveries, or both errors, and
/// say the same.
pub proof fn law_what_an_outcome_comes_to(
    outcome: Result<Delivery, TransportError>,
    expected: Result<DeliveryView, TransportErrorView>,
)
    ensures
        comes_to(outcome, expected) <==> (if outcome is Ok {
            expected is Ok && outcome->Ok_0@ == expected->Ok_0
        } else {
            expected is Err && outcome->Err_0@ == expected->Err_0
        }),
{
}

/// A hundred ids are remembered. One that was seen again changes nothing; a new one comes
/// last, and the first leaves where there are a hundred.
pub proof fn law_a_hundred_ids_are_remembered(seen: Seq<Seq<char>>, id: Seq<char>, i: int)
    ensures
        ({
            let after = remembered(seen, id);
            let dropped: int = if seen.len() >= 100 {
                1
            } else {
                0
            };
            &&& seen.contains(id) ==> after == seen
            &&& !seen.contains(id) ==> {
                &&& after.len() == seen.len() + 1 - dropped
                &&& after[after.len() - 1] == id
                &&& 0 <= i < after.len() - 1 ==> after[i] == seen[i + dropped]
            }
            &&& within_capacity(seen) ==> seen.len() <= 100
            &&& within_capacity(seen) && 0 <= i < seen.len() ==> forall|j: int|
                0 <= j < seen.len() && j != i ==> #[trigger] seen[j] != seen[i]
        }),
{
}

/// A frame is four bytes, which give the length of the body with the most significant first,
/// and the body.
pub proof fn law_a_frame_is_length_and_body(body: Seq<u8>)
    ensures
        framed(body).len() == body.len() + 4,
        framed(body).skip(4) == body,
        framed(body)[0] * 0x100_0000 + framed(body)[1] * 0x1_0000 + framed(body)[2] * 0x100
            + framed(body)[3] == body.len() % 0x1_0000_0000,
{
    assert(framed(body).skip(4) =~= body);
    law_be32_reads_back((body.len() % 0x1_0000_0000) as u32);
}

/// Four bytes announce a length, the most significant byte first; one of more than 65536 is
/// refused, and no other.
pub proof fn law_lengths_up_to_the_limit_are_read(prefix: Seq<u8>)
    requires
        prefix.len() == 4,
    ensures
        ({
            let n = prefix[0] * 0x100_0000 + prefix[1] * 0x1_0000 + prefix[2] * 0x100 + prefix[3];
            &&& n <= 65536 ==> announced_length(prefix) == Ok::<u32, TransportErrorView>(n as u32)
            &&& n > 65536 ==> announced_length(prefix) == Err::<u32, TransportErrorView>(
                TransportErrorView::TooLarge(n as u32),
            )
        }),
{
}

/// A message is sent if and only if there is a route to the destination, the destination is
/// known, and the plaintext is not too long for the cipher; otherwise the first of these that
/// fails is reported.
pub proof fn law_sending_needs_route_peer_and_length(
    table: PeerTableView,
    to_id: Seq<char>,
    plaintext: Seq<u8>,
)
    ensures
        ({
            let refusal = send_refusal(table, to_id, plaintext);
            let routed = table.routes.contains_key(to_id);
            let known = table.peers.contains_key(to_id);
            &&& refusal is None <==> routed && known && plaintext.len() <= 274_877_906_816
            &&& !routed ==> refusal == Some(TransportErrorView::NoRoute(to_id))
            &&& routed && !known ==> refusal == Some(TransportErrorView::UnknownPeer(to_id))
            &&& routed && known && refusal is Some ==> refusal == Some(
                TransportErrorView::Encryption,
            )
        }),
{
}

/// The texts of the errors.
pub proof fn law_error_texts(id: Seq<char>, n: u32)
    ensures
        TransportErrorView::NoRoute(id).message() == "no route to "@ + id,
        TransportErrorView::NoForwardRoute(id).message() == "no route to destination "@ + id,
        TransportErrorView::UnknownPeer(id).message() == "peer "@ + id + " not found in table"@,
        TransportErrorView::Encryption.message() == "failed to encrypt message payload"@,
        TransportErrorView::UnknownSender(id).message() == "unknown sender "@ + id,
        TransportErrorView::BadSignature.message() == "message signature invalid"@,
        TransportErrorView::Decryption.message() == "failed to decrypt message"@,
        TransportErrorView::TooLarge(n).message() == "message too large: "@ + decimal_digits(
            n as nat,
        ) + " bytes (max 65536)"@,
{
}

/// A view holds every field.
pub proof fn law_views_of_outcomes(
    msg: TanMessage,
    next_hop: Endpoint,
    plaintext: Vec<u8>,
    id: String,
    n: u32,
)
    ensures
        (Delivery::Forward { msg, next_hop })@ == (DeliveryView::Forward { msg: msg@, next_hop }),
        Delivery::Own(plaintext)@ == DeliveryView::Own(plaintext@),
        Delivery::Duplicate@ == DeliveryView::Duplicate,
        Delivery::Expired@ == DeliveryView::Expired,
        TransportError::NoRoute(id)@ == TransportErrorView::NoRoute(id@),
        TransportError::NoForwardRoute(id)@ == TransportErrorView::NoForwardRoute(id@),
        TransportError::UnknownPeer(id)@ == TransportErrorView::UnknownPeer(id@),
        TransportError::UnknownSender(id)@ == TransportErrorView::UnknownSender(id@),
        TransportError::Encryption@ == TransportErrorView::Encryption,
        TransportError::Decryption@ == TransportErrorView::Decryption,
        TransportError::BadSignature@ == TransportErrorView::BadSignature,
        TransportError::TooLarge(n)@ == TransportErrorView::TooLarge(n),
        MESSAGE_PORT == 7701,
{
}

} // verus!
