//! Wire formats: the beacon that announces a node, the message that carries an encrypted
//! payload, and what the mesh passes around.
use crate::bytes;
use crate::bytes::{law_le16_injective, law_le64_injective, le16, le64};
use crate::clock;
use crate::crypto;
use crate::crypto::{
    ed25519_accepts, ed25519_key_decodes, ed25519_signature, x25519_public_key, CryptoError,
};
use crate::hex_text;
use crate::hex_text::{hex_decoded, hex_encoded, hex_value, is_hex, law_hex_reads_back};
use crate::identity::{IdentityView, NodeIdentity};
use vstd::prelude::*;
use vstd::string::*;
use vstd::utf8::*;

verus! {

// Signatures as text.

/// Why a text is no signature.
#[derive(Debug, Clone, Copy, PartialEq, Eq, Structural)]
pub enum SignatureTextError {
    /// The text is not made of pairs of hexadecimal digits.
    NotHex,
    /// The text stands for this many bytes, and not 64.
    WrongLength(usize),
}

/// The signature that a text stands for, or why it stands for none.
pub open spec fn signature_of(text: Seq<char>) -> Result<Seq<u8>, SignatureTextError> {
    if !is_hex(text) {
        Err(SignatureTextError::NotHex)
    } else if hex_decoded(text).len() != 64 {
        Err(SignatureTextError::WrongLength(hex_decoded(text).len() as usize))
    } else {
        Ok(hex_decoded(text))
    }
}

/// Write a signature as hexadecimal text.
pub fn serialize(bytes: &[u8; 64]) -> (text: String)
    ensures
        text@ == hex_encoded(bytes@),
{
    hex_text::encode(bytes)
}

/// Read a signature from hexadecimal text.
pub fn deserialize(text: &str) -> (signature: Result<[u8; 64], SignatureTextError>)
    ensures
        match (signature, signature_of(text@)) {
            (Ok(s), Ok(t)) => s@ == t,
            (Err(e), Err(f)) => e == f,
            _ => false,
        },
{
    let raw = match hex_text::decode(text) {
        Ok(raw) => raw,
        Err(_) => {
            return Err(SignatureTextError::NotHex);
        },
    };
    if raw.len() != 64 {
        return Err(SignatureTextError::WrongLength(raw.len()));
    }
    let mut signature = [0u8;64];
    let mut i: usize = 0;
    while i < 64
        invariant
            i <= 64,
            raw@.len() == 64,
            signature@.take(i as int) == raw@.take(i as int),
        decreases 64 - i,
    {
        signature[i] = raw[i];
        i = i + 1;
        assert(signature@.take(i as int) =~= raw@.take(i as int));
    }
    assert(signature@ =~= signature@.take(64));
    assert(raw@ =~= raw@.take(64));
    Ok(signature)
}

/// A signature that was written as text reads back as itself.
pub proof fn law_signature_text_reads_back(signature: Seq<u8>)
    requires
        signature.len() == 64,
    ensures
        signature_of(hex_encoded(signature)) == Ok::<Seq<u8>, SignatureTextError>(signature),
{
    law_hex_reads_back(signature);
}

// Beacons.

/// Broadcast every few seconds to announce a node on the mesh.
#[derive(Debug)]
pub struct DiscoveryBeacon {
    /// Short id: hexadecimal text of the first eight bytes of the public key.
    pub node_id: String,
    /// Ed25519 public key.
    pub public_key: [u8; 32],
    /// TCP port on which the node listens for messages.
    pub listen_port: u16,
    /// Number of hops this beacon has travelled, zero at first.
    pub hop_count: u8,
    /// Milliseconds since the Unix epoch when the beacon was made.
    pub timestamp: u64,
    /// Ed25519 signature over all fields above.
    pub signature: [u8; 64],
}

/// What a beacon stands for.
#[verifier::ext_equal]
pub struct BeaconView {
    pub node_id: Seq<char>,
    pub public_key: Seq<u8>,
    pub listen_port: u16,
    pub hop_count: u8,
    pub timestamp: u64,
    pub signature: Seq<u8>,
}

impl View for DiscoveryBeacon {
    type V = BeaconView;

    open spec fn view(&self) -> BeaconView {
        BeaconView {
            node_id: self.node_id@,
            public_key: self.public_key@,
            listen_port: self.listen_port,
            hop_count: self.hop_count,
            timestamp: self.timestamp,
            signature: self.signature@,
        }
    }
}

impl BeaconView {
    /// The bytes that are signed: every field but the signature, in order.
    pub open spec fn signable(self) -> Seq<u8> {
        encode_utf8(self.node_id) + self.public_key + le16(self.listen_port) + seq![
            self.hop_count,
        ] + le64(self.timestamp)
    }

    /// The signature is the announced key's signature over the other fields.
    pub open spec fn authentic(self) -> bool {
        &&& ed25519_key_decodes(self.public_key)
        &&& ed25519_accepts(self.public_key, self.signable(), self.signature)
    }

    /// The beacon as its sender sent it: before any hop.
    pub open spec fn as_sent(self) -> BeaconView {
        BeaconView { hop_count: 0, ..self }
    }

    /// What verification of the signature reports.
    pub open spec fn verdict(self) -> Result<(), CryptoError> {
        if !ed25519_key_decodes(self.public_key) {
            Err(CryptoError::InvalidPublicKey)
        } else {
            crypto::verify_verdict(
                ed25519_accepts(self.public_key, self.signable(), self.signature),
            )
        }
    }
}

/// The beacon of a node before it is signed.
pub open spec fn unsigned_beacon(
    identity: IdentityView,
    listen_port: u16,
    timestamp: u64,
) -> BeaconView {
    BeaconView {
        node_id: identity.tan_id,
        public_key: identity.public_key,
        listen_port,
        hop_count: 0,
        timestamp,
        signature: Seq::new(64, |i: int| 0u8),
    }
}

/// The signed beacon of a node.
pub open spec fn signed_beacon(
    identity: IdentityView,
    listen_port: u16,
    timestamp: u64,
) -> BeaconView {
    let unsigned = unsigned_beacon(identity, listen_port, timestamp);
    BeaconView { signature: ed25519_signature(identity.seed, unsigned.signable()), ..unsigned }
}

impl DiscoveryBeacon {
    /// The bytes used for signing and verification. They cover every field but the
    /// signature itself.
    pub fn signable_bytes(&self) -> (buf: Vec<u8>)
        ensures
            buf@ == self@.signable(),
    {
        let mut buf: Vec<u8> = Vec::new();
        buf.extend_from_slice(self.node_id.as_str().as_bytes());
        buf.extend_from_slice(&self.public_key);
        buf.extend_from_slice(&bytes::u16_to_le(self.listen_port));
        buf.push(self.hop_count);
        buf.extend_from_slice(&bytes::u64_to_le(self.timestamp));
        assert(buf@ =~= self@.signable());
        buf
    }

    /// Create the signed beacon of a node, dated now.
    pub fn new_signed(identity: &NodeIdentity, listen_port: u16) -> (beacon: Self)
        ensures
            beacon@ == signed_beacon(identity@, listen_port, beacon.timestamp),
            identity.well_formed() ==> beacon@.authentic(),
    {
        Self::new_signed_at(identity, listen_port, clock::unix_millis())
    }

    /// Create the signed beacon of a node with the given date.
    pub fn new_signed_at(identity: &NodeIdentity, listen_port: u16, timestamp: u64) -> (beacon:
        Self)
        ensures
            beacon@ == signed_beacon(identity@, listen_port, timestamp),
            identity.well_formed() ==> beacon@.authentic(),
    {
        let mut beacon = DiscoveryBeacon {
            node_id: identity.tan_id.clone(),
            public_key: identity.public_key_bytes(),
            listen_port,
            hop_count: 0,
            timestamp,
            signature: [0u8;64],
        };
        let buf = beacon.signable_bytes();
        assert(beacon@ =~= unsigned_beacon(identity@, listen_port, timestamp));
        beacon.signature = crypto::sign(&identity.signing_key, buf.as_slice());
        beacon
    }

    /// Verify the signature of the beacon against the key that it announces.
    pub fn verify_signature(&self) -> (verdict: Result<(), CryptoError>)
        ensures
            verdict == self@.verdict(),
            verdict is Ok <==> self@.authentic(),
    {
        match crypto::verifying_key_from_bytes(&self.public_key) {
            Ok(key) => crypto::verify(&key, self.signable_bytes().as_slice(), &self.signature),
            Err(e) => Err(e),
        }
    }
}

impl DiscoveryBeacon {
    /// Verify the signature of the beacon as it was before any hop. The nodes that pass a
    /// beacon on raise its hop count and keep its signature.
    pub fn verify_origin(&self) -> (verdict: Result<(), CryptoError>)
        ensures
            verdict == self@.as_sent().verdict(),
            verdict is Ok <==> self@.as_sent().authentic(),
    {
        let mut sent = self.clone();
        sent.hop_count = 0;
        assert(sent@ =~= self@.as_sent());
        sent.verify_signature()
    }
}

impl Clone for DiscoveryBeacon {
    fn clone(&self) -> (copy: Self)
        ensures
            copy@ == self@,
    {
        DiscoveryBeacon {
            node_id: self.node_id.clone(),
            public_key: self.public_key,
            listen_port: self.listen_port,
            hop_count: self.hop_count,
            timestamp: self.timestamp,
            signature: self.signature,
        }
    }
}

/// Two beacons with the same signed bytes agree in every field but the signature.
pub proof fn law_signed_bytes_cover_every_field(a: BeaconView, b: BeaconView)
    requires
        a.public_key.len() == 32,
        b.public_key.len() == 32,
        a.signable() == b.signable(),
    ensures
        a == (BeaconView { signature: a.signature, ..b }),
{
    let s = a.signable();
    let id_a = encode_utf8(a.node_id);
    let id_b = encode_utf8(b.node_id);
    let n = id_a.len() as int;
    assert(s.len() == n + 43 && s.len() == id_b.len() + 43);
    assert(id_a =~= s.subrange(0, n) && id_b =~= s.subrange(0, n));
    assert(a.public_key =~= s.subrange(n, n + 32) && b.public_key =~= s.subrange(n, n + 32));
    assert(le16(a.listen_port) =~= s.subrange(n + 32, n + 34));
    assert(le16(b.listen_port) =~= s.subrange(n + 32, n + 34));
    assert(s[n + 34] == a.hop_count && s[n + 34] == b.hop_count);
    assert(le64(a.timestamp) =~= s.subrange(n + 35, n + 43));
    assert(le64(b.timestamp) =~= s.subrange(n + 35, n + 43));
    law_le16_injective(a.listen_port, b.listen_port);
    law_le64_injective(a.timestamp, b.timestamp);
    encode_utf8_decode_utf8(a.node_id);
    encode_utf8_decode_utf8(b.node_id);
}

/// A signature is one over the signed bytes of a beacon only: no other bytes are accepted
/// with it under the key that the beacon announces.
pub open spec fn signature_covers_only(beacon: BeaconView) -> bool {
    forall|data: Seq<u8>| #[trigger]
        ed25519_accepts(beacon.public_key, data, beacon.signature) ==> data == beacon.signable()
}

/// Where signatures cannot be forged, a beacon that carries the key and the signature of an
/// authentic one verifies exactly if no other field was changed.
pub proof fn law_changed_beacons_do_not_verify(beacon: BeaconView, changed: BeaconView)
    requires
        beacon.authentic(),
        beacon.public_key.len() == 32,
        signature_covers_only(beacon),
        changed.public_key == beacon.public_key,
        changed.signature == beacon.signature,
    ensures
        changed.verdict() is Ok <==> changed.node_id == beacon.node_id && changed.listen_port
            == beacon.listen_port && changed.hop_count == beacon.hop_count && changed.timestamp
            == beacon.timestamp,
{
    if changed.verdict() is Ok {
        assert(ed25519_accepts(beacon.public_key, changed.signable(), beacon.signature));
        law_signed_bytes_cover_every_field(changed, beacon);
    }
}

// Announcements.

/// A beacon with what its sender announces beside it: the key under which to encrypt for
/// it, and its display name. The signature of the beacon covers neither of the two: whoever
/// passes an announcement on can replace them, and the beacon still verifies.
#[derive(Debug)]
pub struct Announcement {
    pub beacon: DiscoveryBeacon,
    pub encryption_pubkey: [u8; 32],
    pub friendly_name: String,
}

/// What an announcement stands for.
#[verifier::ext_equal]
pub struct AnnouncementView {
    pub beacon: BeaconView,
    pub encryption_pubkey: Seq<u8>,
    pub friendly_name: Seq<char>,
}

impl View for Announcement {
    type V = AnnouncementView;

    open spec fn view(&self) -> AnnouncementView {
        AnnouncementView {
            beacon: self.beacon@,
            encryption_pubkey: self.encryption_pubkey@,
            friendly_name: self.friendly_name@,
        }
    }
}

impl Clone for Announcement {
    fn clone(&self) -> (copy: Self)
        ensures
            copy@ == self@,
    {
        Announcement {
            beacon: self.beacon.clone(),
            encryption_pubkey: self.encryption_pubkey,
            friendly_name: self.friendly_name.clone(),
        }
    }
}

/// The announcement of a node: its signed beacon, the X25519 public key of its secret,
/// and its name.
pub open spec fn announcement_of(
    identity: IdentityView,
    listen_port: u16,
    timestamp: u64,
) -> AnnouncementView {
    AnnouncementView {
        beacon: signed_beacon(identity, listen_port, timestamp),
        encryption_pubkey: x25519_public_key(identity.seed),
        friendly_name: identity.friendly_name,
    }
}

impl Announcement {
    /// The announcement of a node, dated now.
    pub fn new(identity: &NodeIdentity, listen_port: u16) -> (announcement: Self)
        ensures
            announcement@ == announcement_of(
                identity@,
                listen_port,
                announcement.beacon.timestamp,
            ),
            identity.well_formed() ==> announcement@.beacon.authentic(),
    {
        Announcement {
            beacon: DiscoveryBeacon::new_signed(identity, listen_port),
            encryption_pubkey: crypto::x25519_pubkey_from_secret(&identity.secret_key_bytes()),
            friendly_name: identity.friendly_name.clone(),
        }
    }
}

// Messages.

/// Sent for encrypted communication between two nodes.
#[derive(Debug)]
pub struct TanMessage {
    /// Identifier by which duplicates are told.
    pub id: String,
    /// Short id of the sender.
    pub from_id: String,
    /// Short id of the destination.
    pub to_id: String,
    /// Encrypted payload.
    pub payload: Vec<u8>,
    /// X25519 public key made for this message alone.
    pub ephemeral_pubkey: [u8; 32],
    /// Nonce used for ChaCha20-Poly1305.
    pub nonce: [u8; 12],
    /// Hops left. Decremented at each hop; dropped at zero.
    pub ttl: u8,
    /// Ed25519 signature over the encrypted payload.
    pub signature: [u8; 64],
}

/// What a message stands for.
#[verifier::ext_equal]
pub struct MessageView {
    pub id: Seq<char>,
    pub from_id: Seq<char>,
    pub to_id: Seq<char>,
    pub payload: Seq<u8>,
    pub ephemeral_pubkey: Seq<u8>,
    pub nonce: Seq<u8>,
    pub ttl: u8,
    pub signature: Seq<u8>,
}

impl View for TanMessage {
    type V = MessageView;

    open spec fn view(&self) -> MessageView {
        MessageView {
            id: self.id@,
            from_id: self.from_id@,
            to_id: self.to_id@,
            payload: self.payload@,
            ephemeral_pubkey: self.ephemeral_pubkey@,
            nonce: self.nonce@,
            ttl: self.ttl,
            signature: self.signature@,
        }
    }
}

impl TanMessage {
    /// The bytes used for signing: the encrypted payload.
    pub fn signable_bytes(&self) -> (buf: Vec<u8>)
        ensures
            buf@ == self@.payload,
    {
        let buf = self.payload.clone();
        assert(buf@ =~= self.payload@);
        buf
    }
}

impl Clone for TanMessage {
    fn clone(&self) -> (copy: Self)
        ensures
            copy@ == self@,
    {
        TanMessage {
            id: self.id.clone(),
            from_id: self.from_id.clone(),
            to_id: self.to_id.clone(),
            payload: self.signable_bytes(),
            ephemeral_pubkey: self.ephemeral_pubkey,
            nonce: self.nonce,
            ttl: self.ttl,
            signature: self.signature,
        }
    }
}

/// What the nodes of a mesh pass around.
#[allow(inconsistent_fields)]
#[derive(Debug)]
pub enum GossipPacket {
    Beacon { data: Announcement },
    Message { data: TanMessage },
}

/// What a message says once it is decrypted.
#[derive(Debug)]
pub enum InnerMessage {
    FriendRequest { friendly_name: String },
    FriendApproval { friendly_name: String },
    Text(String),
}

/// What a decrypted message stands for.
pub enum InnerView {
    FriendRequest { friendly_name: Seq<char> },
    FriendApproval { friendly_name: Seq<char> },
    Text(Seq<char>),
}

impl View for InnerMessage {
    type V = InnerView;

    open spec fn view(&self) -> InnerView {
        match self {
            InnerMessage::FriendRequest { friendly_name } => InnerView::FriendRequest {
                friendly_name: friendly_name@,
            },
            InnerMessage::FriendApproval { friendly_name } => InnerView::FriendApproval {
                friendly_name: friendly_name@,
            },
            InnerMessage::Text(text) => InnerView::Text(text@),
        }
    }
}

/// What is signed in a beacon: the id, the key, the port, the hop count and the time, in this
/// order. A beacon is authentic if and only if its key decodes and accepts its signature over
/// these, and is reported so.
pub proof fn law_what_makes_a_beacon_authentic(beacon: BeaconView)
    ensures
        ({
            let signed = encode_utf8(beacon.node_id) + beacon.public_key + le16(
                beacon.listen_port,
            ) + seq![beacon.hop_count] + le64(beacon.timestamp);
            let decodes = ed25519_key_decodes(beacon.public_key);
            let accepted = ed25519_accepts(beacon.public_key, signed, beacon.signature);
            &&& beacon.signable() == signed
            &&& beacon.authentic() <==> decodes && accepted
            &&& beacon.verdict() is Ok <==> decodes && accepted
            &&& !decodes ==> beacon.verdict() == Err::<(), CryptoError>(
                CryptoError::InvalidPublicKey,
            )
            &&& decodes && !accepted ==> beacon.verdict() == Err::<(), CryptoError>(
                CryptoError::VerificationFailed,
            )
            &&& beacon.as_sent() == (BeaconView {
                node_id: beacon.node_id,
                public_key: beacon.public_key,
                listen_port: beacon.listen_port,
                hop_count: 0,
                timestamp: beacon.timestamp,
                signature: beacon.signature,
            })
        }),
{
}

/// What a node announces: its own id, key, port and time, no hops yet, signed with its own
/// seed; beside it the X25519 key of that seed, and its name.
pub proof fn law_what_a_node_announces(identity: IdentityView, listen_port: u16, timestamp: u64)
    ensures
        ({
            let announced = announcement_of(identity, listen_port, timestamp);
            let beacon = announced.beacon;
            &&& beacon == signed_beacon(identity, listen_port, timestamp)
            &&& beacon.node_id == identity.tan_id
            &&& beacon.public_key == identity.public_key
            &&& beacon.listen_port == listen_port
            &&& beacon.hop_count == 0
            &&& beacon.timestamp == timestamp
            &&& beacon.signature == ed25519_signature(
                identity.seed,
                encode_utf8(identity.tan_id) + identity.public_key + le16(listen_port) + seq![0u8]
                    + le64(timestamp),
            )
            &&& announced.encryption_pubkey == x25519_public_key(identity.seed)
            &&& announced.friendly_name == identity.friendly_name
        }),
{
}

/// A text stands for a signature if and only if it is made of 128 hexadecimal digits; else it
/// is reported as no hexadecimal text, or with the number of bytes it stands for.
pub proof fn law_which_texts_are_signatures(text: Seq<char>)
    ensures
        ({
            let digits = text.len() % 2 == 0 && forall|i: int|
                0 <= i < text.len() ==> hex_value(#[trigger] text[i]) is Some;
            &&& digits && text.len() == 128 ==> signature_of(text) == Ok::<
                Seq<u8>,
                SignatureTextError,
            >(hex_decoded(text))
            &&& !digits ==> signature_of(text) == Err::<Seq<u8>, SignatureTextError>(
                SignatureTextError::NotHex,
            )
            &&& digits && text.len() != 128 ==> signature_of(text) == Err::<
                Seq<u8>,
                SignatureTextError,
            >(SignatureTextError::WrongLength((text.len() / 2) as usize))
        }),
{
}

/// A view holds every field.
pub proof fn law_views_of_packets(
    beacon: DiscoveryBeacon,
    announcement: Announcement,
    msg: TanMessage,
    text: String,
)
    ensures
        beacon@ == (BeaconView {
            node_id: beacon.node_id@,
            public_key: beacon.public_key@,
            listen_port: beacon.listen_port,
            hop_count: beacon.hop_count,
            timestamp: beacon.timestamp,
            signature: beacon.signature@,
        }),
        announcement@ == (AnnouncementView {
            beacon: announcement.beacon@,
            encryption_pubkey: announcement.encryption_pubkey@,
            friendly_name: announcement.friendly_name@,
        }),
        msg@ == (MessageView {
            id: msg.id@,
            from_id: msg.from_id@,
            to_id: msg.to_id@,
            payload: msg.payload@,
            ephemeral_pubkey: msg.ephemeral_pubkey@,
            nonce: msg.nonce@,
            ttl: msg.ttl,
            signature: msg.signature@,
        }),
        InnerMessage::Text(text)@ == InnerView::Text(text@),
        (InnerMessage::FriendRequest { friendly_name: text })@ == (InnerView::FriendRequest {
            friendly_name: text@,
        }),
        (InnerMessage::FriendApproval { friendly_name: text })@ == (InnerView::FriendApproval {
            friendly_name: text@,
        }),
{
}

} // verus!
