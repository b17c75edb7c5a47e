//! Cryptographic primitives of the mesh.
//!
//! - Signing and verification: Ed25519, from `ed25519-dalek`.
//! - Key exchange: X25519 Diffie-Hellman, from `x25519-dalek`.
//! - Authenticated encryption: ChaCha20-Poly1305, from `chacha20poly1305`.
//!
//! Keys are held as their bytes. What the outside functions compute is named below;
//! the contracts of this module are stated over those names.
use chacha20poly1305::aead::{Aead, KeyInit};
use ed25519_dalek::{Signer, Verifier};
use rand::RngCore;
use vstd::prelude::*;

verus! {

/// Bytes that the authentication tag adds to a plaintext.
pub const TAG_BYTES: u64 = 16;

/// The longest plaintext that one key and nonce can encrypt: as many 64-byte blocks as
/// the cipher's key stream has left once the first two are spoken for.
pub const MAX_PLAINTEXT_BYTES: u64 = 274_877_906_816;

/// The 32-byte Ed25519 public key that belongs to a 32-byte seed, as
/// `SigningKey::verifying_key` of `ed25519-dalek` computes it.
pub uninterp spec fn ed25519_public_key(seed: Seq<u8>) -> Seq<u8>;

/// The 64-byte signature that `SigningKey::sign` of `ed25519-dalek` makes.
pub uninterp spec fn ed25519_signature(seed: Seq<u8>, data: Seq<u8>) -> Seq<u8>;

/// Whether `VerifyingKey::from_bytes` of `ed25519-dalek` accepts these bytes.
pub uninterp spec fn ed25519_key_decodes(key: Seq<u8>) -> bool;

/// Whether `VerifyingKey::verify` of `ed25519-dalek`, for the key with these bytes,
/// accepts the signature over the data.
pub uninterp spec fn ed25519_accepts(key: Seq<u8>, data: Seq<u8>, signature: Seq<u8>) -> bool;

/// The X25519 public key of a 32-byte secret, as `x25519-dalek` computes it.
pub uninterp spec fn x25519_public_key(secret: Seq<u8>) -> Seq<u8>;

/// The X25519 secret that the owner of `secret` shares with the owner of `public`, as
/// `StaticSecret::diffie_hellman` of `x25519-dalek` computes it.
pub uninterp spec fn x25519_shared_secret(secret: Seq<u8>, public: Seq<u8>) -> Seq<u8>;

/// The ciphertext, tag included, that `chacha20poly1305` makes of a plaintext.
pub uninterp spec fn aead_sealed(key: Seq<u8>, nonce: Seq<u8>, plaintext: Seq<u8>) -> Seq<u8>;

/// The plaintext that `chacha20poly1305` gives back for a ciphertext, if its tag fits.
pub uninterp spec fn aead_opened(key: Seq<u8>, nonce: Seq<u8>, ciphertext: Seq<u8>) -> Option<
    Seq<u8>,
>;

/// Why a cryptographic operation was refused.
#[derive(Debug, Clone, Copy, PartialEq, Eq, Structural)]
pub enum CryptoError {
    /// The bytes are no Ed25519 public key.
    InvalidPublicKey,
    /// The signature does not belong to the key and the data.
    VerificationFailed,
    /// The plaintext is too long for the cipher.
    EncryptionFailed,
    /// The ciphertext was not made with this key and nonce, or was changed since.
    DecryptionFailed,
}

impl CryptoError {
    /// The text under which the error is reported.
    pub open spec fn spec_message(self) -> Seq<char> {
        match self {
            CryptoError::InvalidPublicKey => "invalid Ed25519 public key bytes"@,
            CryptoError::VerificationFailed => "Ed25519 signature verification failed"@,
            CryptoError::EncryptionFailed => "ChaCha20-Poly1305 encryption failed: aead::Error"@,
            CryptoError::DecryptionFailed => "ChaCha20-Poly1305 decryption failed: aead::Error"@,
        }
    }

    /// The text under which the error is reported.
    pub fn message(&self) -> (text: &'static str)
        ensures
            text@ == self.spec_message(),
    {
        match self {
            CryptoError::InvalidPublicKey => "invalid Ed25519 public key bytes",
            CryptoError::VerificationFailed => "Ed25519 signature verification failed",
            CryptoError::EncryptionFailed => "ChaCha20-Poly1305 encryption failed: aead::Error",
            CryptoError::DecryptionFailed => "ChaCha20-Poly1305 decryption failed: aead::Error",
        }
    }
}

/// An Ed25519 signing key, held as its 32-byte seed.
#[derive(Clone, Copy)]
pub struct SigningKey {
    seed: [u8; 32],
}

impl View for SigningKey {
    type V = Seq<u8>;

    closed spec fn view(&self) -> Seq<u8> {
        self.seed@
    }
}

/// An Ed25519 public key, held as its 32 bytes.
#[derive(Debug, Clone, Copy, PartialEq, Eq)]
pub struct VerifyingKey {
    bytes: [u8; 32],
}

impl View for VerifyingKey {
    type V = Seq<u8>;

    closed spec fn view(&self) -> Seq<u8> {
        self.bytes@
    }
}

/// Result of encrypting a plaintext for a recipient.
#[derive(Debug)]
pub struct EncryptedPayload {
    /// The encrypted plaintext followed by the 16-byte tag.
    pub ciphertext: Vec<u8>,
    /// The X25519 public key made for this message alone.
    pub ephemeral_pubkey: [u8; 32],
    /// The nonce used for ChaCha20-Poly1305.
    pub nonce: [u8; 12],
}

// Calls into the outside crates.

/// The error of `ed25519-dalek`, opaque here.
#[verifier::external_type_specification]
#[verifier::external_body]
pub struct ExSignatureError(ed25519_dalek::SignatureError);

/// The error of `chacha20poly1305`, opaque here.
#[verifier::external_type_specification]
#[verifier::external_body]
pub struct ExAeadError(chacha20poly1305::aead::Error);

/// Calls `SigningKey::generate` of `ed25519-dalek` with the operating system's random
/// source and returns the seed of the new key. Nothing is claimed of the seed.
#[verifier::external_body]
fn random_seed() -> [u8; 32] {
    ed25519_dalek::SigningKey::generate(&mut rand::rngs::OsRng).to_bytes()
}

/// Calls `StaticSecret::random_from_rng` of `x25519-dalek` with the operating system's
/// random source. Nothing is claimed of the secret.
#[verifier::external_body]
fn random_secret() -> [u8; 32] {
    x25519_dalek::StaticSecret::random_from_rng(rand::rngs::OsRng).to_bytes()
}

/// Calls `fill_bytes` of the `rand` crate's operating system source. Nothing is claimed
/// of the bytes.
#[verifier::external_body]
fn random_nonce() -> [u8; 12] {
    let mut nonce = [0u8; 12];
    rand::rngs::OsRng.fill_bytes(&mut nonce);
    nonce
}

/// Calls `SigningKey::verifying_key` of `ed25519-dalek`: the public key depends on the
/// seed alone, and is one that `VerifyingKey::from_bytes` accepts.
#[verifier::external_body]
fn derive_public_key(seed: &[u8; 32]) -> (key: [u8; 32])
    ensures
        key@ == ed25519_public_key(seed@),
        ed25519_key_decodes(key@),
{
    ed25519_dalek::SigningKey::from_bytes(seed).verifying_key().to_bytes()
}

/// Calls `SigningKey::sign` of `ed25519-dalek`: the signature depends on the seed and the
/// data alone, and is accepted under the public key of that seed.
#[verifier::external_body]
fn make_signature(seed: &[u8; 32], data: &[u8]) -> (signature: [u8; 64])
    ensures
        signature@ == ed25519_signature(seed@, data@),
        ed25519_accepts(ed25519_public_key(seed@), data@, signature@),
{
    ed25519_dalek::SigningKey::from_bytes(seed).sign(data).to_bytes()
}

/// Calls `VerifyingKey::from_bytes` of `ed25519-dalek`, which decodes the bytes as a
/// point of the curve; whether it does depends on the bytes alone.
#[verifier::external_body]
fn decode_public_key(bytes: &[u8; 32]) -> (decoded: Result<[u8; 32], ed25519_dalek::SignatureError>)
    ensures
        decoded is Ok <==> ed25519_key_decodes(bytes@),
        decoded matches Ok(key) ==> key@ == bytes@,
{
    Ok(ed25519_dalek::VerifyingKey::from_bytes(bytes)?.to_bytes())
}

/// Calls `VerifyingKey::verify` of `ed25519-dalek` for the key with these bytes; the
/// verdict depends on the key, the data and the signature alone.
#[verifier::external_body]
fn check_signature(key: &[u8; 32], data: &[u8], signature: &[u8; 64]) -> (verdict: Result<
    (),
    ed25519_dalek::SignatureError,
>)
    ensures
        verdict is Ok <==> ed25519_accepts(key@, data@, signature@),
{
    let signature = ed25519_dalek::Signature::from_bytes(signature);
    ed25519_dalek::VerifyingKey::from_bytes(key)?.verify(data, &signature)
}

/// Calls `PublicKey::from` of `x25519-dalek` for a static secret; the result depends on
/// the secret alone.
#[verifier::external_body]
fn derive_x25519_public(secret: &[u8; 32]) -> (public: [u8; 32])
    ensures
        public@ == x25519_public_key(secret@),
{
    x25519_dalek::PublicKey::from(&x25519_dalek::StaticSecret::from(*secret)).to_bytes()
}

/// Calls `StaticSecret::diffie_hellman` of `x25519-dalek`: the result depends on the two
/// keys alone, and is what the owner of the other secret computes from this one's public
/// key.
#[verifier::external_body]
fn agree(secret: &[u8; 32], public: &[u8; 32]) -> (shared: [u8; 32])
    ensures
        shared@ == x25519_shared_secret(secret@, public@),
        forall|other: Seq<u8>|
            other.len() == 32 && public@ == #[trigger] x25519_public_key(other) ==> shared@
                == x25519_shared_secret(other, x25519_public_key(secret@)),
{
    let secret = x25519_dalek::StaticSecret::from(*secret);
    secret.diffie_hellman(&x25519_dalek::PublicKey::from(*public)).to_bytes()
}

/// Calls `ChaCha20Poly1305::encrypt` of `chacha20poly1305`, which fails only on a
/// plaintext longer than admitted here. The ciphertext depends on key, nonce and
/// plaintext alone, is one tag longer than the plaintext, and opens again under the same
/// key and nonce.
#[verifier::external_body]
fn seal(key: &[u8; 32], nonce: &[u8; 12], plaintext: &[u8]) -> (sealed: Result<
    Vec<u8>,
    chacha20poly1305::aead::Error,
>)
    requires
        plaintext@.len() <= MAX_PLAINTEXT_BYTES,
    ensures
        sealed is Ok,
        sealed matches Ok(c) ==> c@ == aead_sealed(key@, nonce@, plaintext@),
        sealed matches Ok(c) ==> c@.len() == plaintext@.len() + TAG_BYTES,
        sealed matches Ok(c) ==> aead_opened(key@, nonce@, c@) == Some(plaintext@),
{
    let cipher = chacha20poly1305::ChaCha20Poly1305::new(key.into());
    cipher.encrypt(nonce.into(), plaintext)
}

/// Calls `ChaCha20Poly1305::decrypt` of `chacha20poly1305`: the result depends on key,
/// nonce and ciphertext alone, a plaintext is one tag shorter than its ciphertext, and what
/// opens to a plaintext is what encryption makes of that plaintext.
#[verifier::external_body]
fn unseal(key: &[u8; 32], nonce: &[u8; 12], ciphertext: &[u8]) -> (opened: Result<
    Vec<u8>,
    chacha20poly1305::aead::Error,
>)
    requires
        ciphertext@.len() <= MAX_PLAINTEXT_BYTES + TAG_BYTES,
    ensures
        opened matches Ok(p) ==> aead_opened(key@, nonce@, ciphertext@) == Some(p@),
        opened matches Ok(p) ==> ciphertext@.len() == p@.len() + TAG_BYTES,
        opened matches Ok(p) ==> ciphertext@ == aead_sealed(key@, nonce@, p@),
        opened is Err ==> aead_opened(key@, nonce@, ciphertext@) is None,
{
    let cipher = chacha20poly1305::ChaCha20Poly1305::new(key.into());
    cipher.decrypt(nonce.into(), ciphertext)
}

// Signing.

impl SigningKey {
    /// The key with the given seed.
    pub fn from_bytes(seed: &[u8; 32]) -> (key: SigningKey)
        ensures
            key@ == seed@,
    {
        SigningKey { seed: *seed }
    }

    /// The key with a fresh random seed. Nothing holds of every seed but its length.
    pub fn generate() -> (key: SigningKey)
        ensures
            key@.len() == 32,
    {
        Self::from_bytes(&random_seed())
    }

    /// The seed of the key.
    pub fn to_bytes(&self) -> (seed: [u8; 32])
        ensures
            seed@ == self@,
    {
        self.seed
    }

    /// The public key under which this key's signatures are accepted.
    pub fn verifying_key(&self) -> (key: VerifyingKey)
        ensures
            key@ == ed25519_public_key(self@),
            ed25519_key_decodes(key@),
            key@.len() == 32,
    {
        VerifyingKey { bytes: derive_public_key(&self.seed) }
    }
}

impl VerifyingKey {
    /// The bytes of the key.
    pub fn to_bytes(&self) -> (bytes: [u8; 32])
        ensures
            bytes@ == self@,
    {
        self.bytes
    }
}

/// Sign data. Whoever holds the public key of the signing key accepts the signature.
pub fn sign(signing_key: &SigningKey, data: &[u8]) -> (signature: [u8; 64])
    ensures
        signature@ == ed25519_signature(signing_key@, data@),
        ed25519_accepts(ed25519_public_key(signing_key@), data@, signature@),
{
    make_signature(&signing_key.seed, data)
}

/// Verify a signature over data.
pub fn verify(verifying_key: &VerifyingKey, data: &[u8], sig_bytes: &[u8; 64]) -> (verdict: Result<
    (),
    CryptoError,
>)
    ensures
        verdict == verify_verdict(ed25519_accepts(verifying_key@, data@, sig_bytes@)),
{
    report_verdict(accepts(&verifying_key.bytes, data, sig_bytes))
}

/// Whether a signature over data is accepted under the key with the given bytes.
pub fn accepts(public_key: &[u8; 32], data: &[u8], sig_bytes: &[u8; 64]) -> (accepted: bool)
    ensures
        accepted == ed25519_accepts(public_key@, data@, sig_bytes@),
{
    check_signature(public_key, data, sig_bytes).is_ok()
}

/// What the verification of a signature reports, given whether it was accepted.
pub open spec fn verify_verdict(accepted: bool) -> Result<(), CryptoError> {
    if accepted {
        Ok(())
    } else {
        Err(CryptoError::VerificationFailed)
    }
}

/// What the verification of a signature reports, given whether it was accepted.
pub fn report_verdict(accepted: bool) -> (verdict: Result<(), CryptoError>)
    ensures
        verdict == verify_verdict(accepted),
{
    if accepted {
        Ok(())
    } else {
        Err(CryptoError::VerificationFailed)
    }
}

/// Make a verifying key of 32 bytes.
pub fn verifying_key_from_bytes(bytes: &[u8; 32]) -> (key: Result<VerifyingKey, CryptoError>)
    ensures
        match key {
            Ok(k) => ed25519_key_decodes(bytes@) && k@ == bytes@,
            Err(e) => !ed25519_key_decodes(bytes@) && e == CryptoError::InvalidPublicKey,
        },
{
    match decode_public_key(bytes) {
        Ok(decoded) => Ok(VerifyingKey { bytes: decoded }),
        Err(_) => Err(CryptoError::InvalidPublicKey),
    }
}

// Encryption.

/// What a recipient with this secret reads from an encrypted payload.
pub open spec fn decrypted(
    secret: Seq<u8>,
    ephemeral_pubkey: Seq<u8>,
    nonce: Seq<u8>,
    ciphertext: Seq<u8>,
) -> Option<Seq<u8>> {
    if ciphertext.len() > MAX_PLAINTEXT_BYTES + TAG_BYTES {
        None
    } else {
        aead_opened(x25519_shared_secret(secret, ephemeral_pubkey), nonce, ciphertext)
    }
}

impl EncryptedPayload {
    /// The payload is what encryption for `recipient` makes of `plaintext` with this
    /// ephemeral secret and nonce.
    pub open spec fn is_sealed(
        &self,
        ephemeral_secret: Seq<u8>,
        nonce: Seq<u8>,
        recipient: Seq<u8>,
        plaintext: Seq<u8>,
    ) -> bool {
        &&& self.ephemeral_pubkey@ == x25519_public_key(ephemeral_secret)
        &&& self.nonce@ == nonce
        &&& self.ciphertext@ == aead_sealed(
            x25519_shared_secret(ephemeral_secret, recipient),
            nonce,
            plaintext,
        )
        &&& self.ciphertext@.len() == plaintext.len() + TAG_BYTES
    }

    /// Whoever holds a secret of the recipient's public key reads `plaintext`.
    pub open spec fn is_readable(&self, recipient: Seq<u8>, plaintext: Seq<u8>) -> bool {
        forall|secret: Seq<u8>|
            secret.len() == 32 && recipient == #[trigger] x25519_public_key(secret) ==> decrypted(
                secret,
                self.ephemeral_pubkey@,
                self.nonce@,
                self.ciphertext@,
            ) == Some(plaintext)
    }
}

/// Encrypt `plaintext` with the given ephemeral secret and nonce, for the recipient with
/// the given X25519 public key.
pub fn encrypt_with(
    ephemeral_secret: &[u8; 32],
    nonce: &[u8; 12],
    recipient_pubkey: &[u8; 32],
    plaintext: &[u8],
) -> (payload: Result<EncryptedPayload, CryptoError>)
    ensures
        match payload {
            Ok(p) => {
                &&& plaintext@.len() <= MAX_PLAINTEXT_BYTES
                &&& p.is_sealed(ephemeral_secret@, nonce@, recipient_pubkey@, plaintext@)
                &&& p.is_readable(recipient_pubkey@, plaintext@)
            },
            Err(e) => {
                &&& plaintext@.len() > MAX_PLAINTEXT_BYTES
                &&& e == CryptoError::EncryptionFailed
            },
        },
{
    if plaintext.len() as u64 > MAX_PLAINTEXT_BYTES {
        return Err(CryptoError::EncryptionFailed);
    }
    let shared = agree(ephemeral_secret, recipient_pubkey);
    match seal(&shared, nonce, plaintext) {
        Ok(ciphertext) => Ok(
            EncryptedPayload {
                ciphertext,
                ephemeral_pubkey: derive_x25519_public(ephemeral_secret),
                nonce: *nonce,
            },
        ),
        Err(_) => Err(CryptoError::EncryptionFailed),
    }
}

/// Encrypt `plaintext` for the recipient with the given X25519 public key, with an
/// ephemeral secret and a nonce that are drawn afresh for each call.
pub fn encrypt(recipient_pubkey: &[u8; 32], plaintext: &[u8]) -> (payload: Result<
    EncryptedPayload,
    CryptoError,
>)
    ensures
        match payload {
            Ok(p) => {
                &&& plaintext@.len() <= MAX_PLAINTEXT_BYTES
                &&& exists|secret: Seq<u8>, nonce: Seq<u8>|
                    secret.len() == 32 && nonce.len() == 12 && #[trigger] p.is_sealed(
                        secret,
                        nonce,
                        recipient_pubkey@,
                        plaintext@,
                    )
                &&& p.is_readable(recipient_pubkey@, plaintext@)
            },
            Err(e) => {
                &&& plaintext@.len() > MAX_PLAINTEXT_BYTES
                &&& e == CryptoError::EncryptionFailed
            },
        },
{
    let secret = random_secret();
    let nonce = random_nonce();
    encrypt_with(&secret, &nonce, recipient_pubkey, plaintext)
}

/// Decrypt a payload with the receiver's X25519 secret and the ephemeral public key that
/// came with the payload.
pub fn decrypt(
    static_secret_bytes: &[u8; 32],
    ephemeral_pubkey: &[u8; 32],
    nonce: &[u8; 12],
    ciphertext: &[u8],
) -> (plaintext: Result<Vec<u8>, CryptoError>)
    ensures
        match plaintext {
            Ok(p) => {
                &&& decrypted(static_secret_bytes@, ephemeral_pubkey@, nonce@, ciphertext@) == Some(p@)
                &&& ciphertext@.len() == p@.len() + TAG_BYTES
                &&& ciphertext@ == aead_sealed(
                    x25519_shared_secret(static_secret_bytes@, ephemeral_pubkey@),
                    nonce@,
                    p@,
                )
            },
            Err(e) => {
                &&& decrypted(static_secret_bytes@, ephemeral_pubkey@, nonce@, ciphertext@) is None
                &&& e == CryptoError::DecryptionFailed
            },
        },
        ciphertext@.len() < TAG_BYTES ==> plaintext is Err,
{
    if ciphertext.len() as u64 > MAX_PLAINTEXT_BYTES + TAG_BYTES {
        return Err(CryptoError::DecryptionFailed);
    }
    let shared = agree(static_secret_bytes, ephemeral_pubkey);
    match unseal(&shared, nonce, ciphertext) {
        Ok(plaintext) => Ok(plaintext),
        Err(_) => Err(CryptoError::DecryptionFailed),
    }
}

/// The ciphertext is what encryption makes of some plaintext under this key and nonce.
pub open spec fn is_sealing(key: Seq<u8>, nonce: Seq<u8>, ciphertext: Seq<u8>) -> bool {
    exists|plaintext: Seq<u8>| ciphertext == #[trigger] aead_sealed(key, nonce, plaintext)
}

/// Under this key nothing opens to a plaintext but what encryption makes of it.
pub open spec fn opens_only_sealings(key: Seq<u8>) -> bool {
    forall|nonce: Seq<u8>, ciphertext: Seq<u8>| #[trigger]
        aead_opened(key, nonce, ciphertext) is Some ==> ciphertext == aead_sealed(
            key,
            nonce,
            aead_opened(key, nonce, ciphertext)->0,
        )
}

/// Where nothing opens but what encryption makes, a nonce and a ciphertext that encryption
/// did not make of any plaintext, altered, cut or extended as they may be, do not decrypt.
pub proof fn law_only_sealings_decrypt(
    secret: Seq<u8>,
    ephemeral_pubkey: Seq<u8>,
    nonce: Seq<u8>,
    ciphertext: Seq<u8>,
)
    requires
        opens_only_sealings(x25519_shared_secret(secret, ephemeral_pubkey)),
        !is_sealing(x25519_shared_secret(secret, ephemeral_pubkey), nonce, ciphertext),
    ensures
        decrypted(secret, ephemeral_pubkey, nonce, ciphertext) is None,
{
}

/// Where nothing opens but what encryption makes, no other ciphertext passes for the one
/// that was sent: under the nonce of a payload, only its own ciphertext decrypts to its
/// plaintext.
pub proof fn law_altered_payloads_do_not_read_the_same(
    payload: EncryptedPayload,
    secret: Seq<u8>,
    plaintext: Seq<u8>,
    ciphertext: Seq<u8>,
)
    requires
        secret.len() == 32,
        payload.is_readable(x25519_public_key(secret), plaintext),
        opens_only_sealings(x25519_shared_secret(secret, payload.ephemeral_pubkey@)),
        ciphertext != payload.ciphertext@,
    ensures
        decrypted(secret, payload.ephemeral_pubkey@, payload.nonce@, ciphertext) != Some(plaintext),
{
    let key = x25519_shared_secret(secret, payload.ephemeral_pubkey@);
    assert(decrypted(secret, payload.ephemeral_pubkey@, payload.nonce@, payload.ciphertext@)
        == Some(plaintext));
    assert(payload.ciphertext@ == aead_sealed(key, payload.nonce@, plaintext));
}

/// The X25519 public key of a 32-byte secret.
pub fn x25519_pubkey_from_secret(secret_bytes: &[u8; 32]) -> (public: [u8; 32])
    ensures
        public@ == x25519_public_key(secret_bytes@),
{
    derive_x25519_public(secret_bytes)
}

/// What a recipient reads: what opens under the secret shared with the ephemeral key, unless
/// the ciphertext is longer than any the cipher makes. A payload is sealed under that same
/// secret, seen from the other side.
pub proof fn law_what_is_sealed_and_read(
    payload: EncryptedPayload,
    ephemeral_secret: Seq<u8>,
    recipient: Seq<u8>,
    plaintext: Seq<u8>,
    secret: Seq<u8>,
    nonce: Seq<u8>,
    ciphertext: Seq<u8>,
)
    ensures
        ciphertext.len() <= 274_877_906_832 ==> decrypted(
            secret,
            recipient,
            nonce,
            ciphertext,
        ) == aead_opened(x25519_shared_secret(secret, recipient), nonce, ciphertext),
        ciphertext.len() > 274_877_906_832 ==> decrypted(secret, recipient, nonce, ciphertext)
            is None,
        payload.is_sealed(ephemeral_secret, nonce, recipient, plaintext) <==> {
            &&& payload.ephemeral_pubkey@ == x25519_public_key(ephemeral_secret)
            &&& payload.nonce@ == nonce
            &&& payload.ciphertext@ == aead_sealed(
                x25519_shared_secret(ephemeral_secret, recipient),
                nonce,
                plaintext,
            )
            &&& payload.ciphertext@.len() == plaintext.len() + 16
        },
        payload.is_readable(recipient, plaintext) && secret.len() == 32 && recipient
            == x25519_public_key(secret) ==> decrypted(
            secret,
            payload.ephemeral_pubkey@,
            payload.nonce@,
            payload.ciphertext@,
        ) == Some(plaintext),
{
}

/// A signature is reported good if and only if it was accepted; the texts of the errors.
pub proof fn law_verdicts_and_texts(accepted: bool)
    ensures
        verify_verdict(accepted) is Ok <==> accepted,
        verify_verdict(accepted) is Err ==> verify_verdict(accepted)->Err_0
            == CryptoError::VerificationFailed,
        CryptoError::InvalidPublicKey.spec_message() == "invalid Ed25519 public key bytes"@,
        CryptoError::VerificationFailed.spec_message()
            == "Ed25519 signature verification failed"@,
        CryptoError::EncryptionFailed.spec_message()
            == "ChaCha20-Poly1305 encryption failed: aead::Error"@,
        CryptoError::DecryptionFailed.spec_message()
            == "ChaCha20-Poly1305 decryption failed: aead::Error"@,
{
}

} // verus!
