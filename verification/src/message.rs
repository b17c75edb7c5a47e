//! Making messages: an encrypted payload with a fresh id, addressed and signed.
use crate::crypto;
use crate::crypto::{
    aead_sealed, decrypted, ed25519_accepts, ed25519_signature, x25519_public_key,
    x25519_shared_secret, CryptoError, EncryptedPayload, MAX_PLAINTEXT_BYTES,
};
use crate::identity::{IdentityView, NodeIdentity};
use crate::wire::{MessageView, TanMessage};
use vstd::prelude::*;
use vstd::string::*;

verus! {

/// Hops that a new message may take.
pub const INITIAL_TTL: u8 = 5;

/// A digit of hexadecimal text, in lower case.
pub open spec fn is_lower_hex(c: char) -> bool {
    '0' <= c <= '9' || 'a' <= c <= 'f'
}

/// The text of a random identifier: 32 lower-case hexadecimal digits in five groups, with
/// a `4` where the version stands and one of `8`, `9`, `a`, `b` where the variant stands.
pub open spec fn is_random_id(s: Seq<char>) -> bool {
    &&& s.len() == 36
    &&& forall|i: int|
        0 <= i < 36 ==> if i == 8 || i == 13 || i == 18 || i == 23 {
            #[trigger] s[i] == '-'
        } else {
            is_lower_hex(s[i])
        }
    &&& s[14] == '4'
    &&& s[19] == '8' || s[19] == '9' || s[19] == 'a' || s[19] == 'b'
}

/// Calls `Uuid::new_v4` of the `uuid` crate and writes the result as text. The text has
/// the shape of a random identifier; nothing is claimed of its random digits.
#[verifier::external_body]
fn random_id() -> (id: String)
    ensures
        is_random_id(id@),
{
    uuid::Uuid::new_v4().to_string()
}

/// The message that carries this encrypted payload from a node to a destination.
pub open spec fn enveloped(
    identity: IdentityView,
    id: Seq<char>,
    to_id: Seq<char>,
    payload: Seq<u8>,
    ephemeral_pubkey: Seq<u8>,
    nonce: Seq<u8>,
) -> MessageView {
    MessageView {
        id,
        from_id: identity.tan_id,
        to_id,
        payload,
        ephemeral_pubkey,
        nonce,
        ttl: INITIAL_TTL,
        signature: ed25519_signature(identity.seed, payload),
    }
}

/// Address and sign an encrypted payload.
pub fn envelope(
    identity: &NodeIdentity,
    id: String,
    to_id: &str,
    encrypted: EncryptedPayload,
) -> (msg: TanMessage)
    ensures
        msg@ == enveloped(
            identity@,
            id@,
            to_id@,
            encrypted.ciphertext@,
            encrypted.ephemeral_pubkey@,
            encrypted.nonce@,
        ),
        identity.well_formed() ==> ed25519_accepts(
            identity@.public_key,
            msg@.payload,
            msg@.signature,
        ),
{
    let signature = crypto::sign(&identity.signing_key, encrypted.ciphertext.as_slice());
    TanMessage {
        id,
        from_id: identity.tan_id.clone(),
        to_id: to_id.to_owned(),
        payload: encrypted.ciphertext,
        ephemeral_pubkey: encrypted.ephemeral_pubkey,
        nonce: encrypted.nonce,
        ttl: INITIAL_TTL,
        signature,
    }
}

impl MessageView {
    /// The message is what a node makes of `plaintext` for `to_id`, encrypted under the
    /// X25519 key `recipient` with this ephemeral secret and nonce.
    pub open spec fn made_with(
        self,
        ephemeral_secret: Seq<u8>,
        nonce: Seq<u8>,
        identity: IdentityView,
        to_id: Seq<char>,
        recipient: Seq<u8>,
        plaintext: Seq<u8>,
    ) -> bool {
        self == enveloped(
            identity,
            self.id,
            to_id,
            aead_sealed(x25519_shared_secret(ephemeral_secret, recipient), nonce, plaintext),
            x25519_public_key(ephemeral_secret),
            nonce,
        )
    }

    /// The message is what a node makes of `plaintext` for `to_id`, encrypted under the
    /// X25519 key `recipient`, with a random id.
    pub open spec fn made_for(
        self,
        identity: IdentityView,
        to_id: Seq<char>,
        recipient: Seq<u8>,
        plaintext: Seq<u8>,
    ) -> bool {
        &&& is_random_id(self.id)
        &&& self.from_id == identity.tan_id
        &&& self.to_id == to_id
        &&& self.ttl == INITIAL_TTL
        &&& self.signature == ed25519_signature(identity.seed, self.payload)
        &&& exists|secret: Seq<u8>, nonce: Seq<u8>|
            secret.len() == 32 && nonce.len() == 12 && #[trigger] self.made_with(
                secret,
                nonce,
                identity,
                to_id,
                recipient,
                plaintext,
            )
        &&& self.readable(recipient, plaintext)
    }

    /// What the owner of a secret reads in the message, if it is for them.
    pub open spec fn opened(self, secret: Seq<u8>) -> Option<Seq<u8>> {
        decrypted(secret, self.ephemeral_pubkey, self.nonce, self.payload)
    }

    /// Whoever holds a secret of the X25519 key `recipient` reads `plaintext`.
    pub open spec fn readable(self, recipient: Seq<u8>, plaintext: Seq<u8>) -> bool {
        forall|secret: Seq<u8>|
            secret.len() == 32 && recipient == #[trigger] x25519_public_key(secret)
                ==> self.opened(secret) == Some(plaintext)
    }
}

/// Encrypt, address and sign a plaintext for the node `to_id`, whose X25519 key is
/// `recipient_pubkey`.
pub fn make_message(
    identity: &NodeIdentity,
    to_id: &str,
    recipient_pubkey: &[u8; 32],
    plaintext: &[u8],
) -> (msg: Result<TanMessage, CryptoError>)
    ensures
        match msg {
            Ok(m) => {
                &&& plaintext@.len() <= MAX_PLAINTEXT_BYTES
                &&& m@.made_for(identity@, to_id@, recipient_pubkey@, plaintext@)
                &&& identity.well_formed() ==> ed25519_accepts(
                    identity@.public_key,
                    m@.payload,
                    m@.signature,
                )
            },
            Err(e) => {
                &&& plaintext@.len() > MAX_PLAINTEXT_BYTES
                &&& e == CryptoError::EncryptionFailed
            },
        },
{
    match crypto::encrypt(recipient_pubkey, plaintext) {
        Ok(encrypted) => {
            let ghost (secret, nonce) = choose|secret: Seq<u8>, nonce: Seq<u8>|
                secret.len() == 32 && nonce.len() == 12 && #[trigger] encrypted.is_sealed(
                    secret,
                    nonce,
                    recipient_pubkey@,
                    plaintext@,
                );
            let msg = envelope(identity, random_id(), to_id, encrypted);
            assert(msg@.made_with(
                secret,
                nonce,
                identity@,
                to_id@,
                recipient_pubkey@,
                plaintext@,
            ));
            Ok(msg)
        },
        Err(e) => Err(e),
    }
}

/// Read a message with the node's own secret.
pub fn open_message(msg: &TanMessage, identity: &NodeIdentity) -> (plaintext: Result<
    Vec<u8>,
    CryptoError,
>)
    ensures
        match plaintext {
            Ok(p) => msg@.opened(identity@.seed) == Some(p@),
            Err(e) => msg@.opened(identity@.seed) is None && e == CryptoError::DecryptionFailed,
        },
{
    crypto::decrypt(
        &identity.secret_key_bytes(),
        &msg.ephemeral_pubkey,
        &msg.nonce,
        msg.payload.as_slice(),
    )
}

/// A message made for the key that a node announces reads, at that node, as what was
/// written, and carries its sender's signature.
pub proof fn law_messages_read_back(
    msg: MessageView,
    sender: IdentityView,
    receiver: NodeIdentity,
    plaintext: Seq<u8>,
)
    requires
        receiver.well_formed(),
        msg.made_for(
            sender,
            receiver@.tan_id,
            x25519_public_key(receiver@.seed),
            plaintext,
        ),
    ensures
        msg.to_id == receiver@.tan_id,
        msg.from_id == sender.tan_id,
        msg.opened(receiver@.seed) == Some(plaintext),
        msg.signature == ed25519_signature(sender.seed, msg.payload),
{
}

/// What a message is made of: the ids of its sender and its destination, a random id, five
/// hops, the plaintext encrypted under the secret that a fresh key shares with the
/// recipient's, and the sender's signature over the encrypted payload. Whoever holds the
/// recipient's secret reads the plaintext.
pub proof fn law_what_a_message_is_made_of(
    msg: MessageView,
    identity: IdentityView,
    to_id: Seq<char>,
    recipient: Seq<u8>,
    plaintext: Seq<u8>,
    secret: Seq<u8>,
)
    requires
        msg.made_for(identity, to_id, recipient, plaintext),
    ensures
        msg.id.len() == 36,
        msg.from_id == identity.tan_id,
        msg.to_id == to_id,
        msg.ttl == 5,
        msg.signature == ed25519_signature(identity.seed, msg.payload),
        exists|fresh: Seq<u8>|
            fresh.len() == 32 && msg.nonce.len() == 12 && msg.ephemeral_pubkey
                == #[trigger] x25519_public_key(fresh) && msg.payload == aead_sealed(
                x25519_shared_secret(fresh, recipient),
                msg.nonce,
                plaintext,
            ),
        secret.len() == 32 && recipient == x25519_public_key(secret) ==> decrypted(
            secret,
            msg.ephemeral_pubkey,
            msg.nonce,
            msg.payload,
        ) == Some(plaintext),
{
    let (fresh, nonce) = choose|fresh: Seq<u8>, nonce: Seq<u8>|
        fresh.len() == 32 && nonce.len() == 12 && #[trigger] msg.made_with(
            fresh,
            nonce,
            identity,
            to_id,
            recipient,
            plaintext,
        );
    assert(msg.ephemeral_pubkey == x25519_public_key(fresh));
    if secret.len() == 32 && recipient == x25519_public_key(secret) {
        assert(msg.opened(secret) == Some(plaintext));
    }
}

/// An envelope holds the payload, its key and its nonce as they are, the two ids, five hops
/// and the sender's signature over the payload; opening a message is decrypting its payload.
pub proof fn law_what_an_envelope_holds(
    identity: IdentityView,
    id: Seq<char>,
    to_id: Seq<char>,
    payload: Seq<u8>,
    key: Seq<u8>,
    nonce: Seq<u8>,
    secret: Seq<u8>,
)
    ensures
        ({
            let msg = enveloped(identity, id, to_id, payload, key, nonce);
            &&& msg.id == id
            &&& msg.from_id == identity.tan_id
            &&& msg.to_id == to_id
            &&& msg.payload == payload
            &&& msg.ephemeral_pubkey == key
            &&& msg.nonce == nonce
            &&& msg.ttl == 5
            &&& msg.signature == ed25519_signature(identity.seed, payload)
            &&& msg.opened(secret) == decrypted(secret, key, nonce, payload)
        }),
{
}

} // verus!
