use rand::RngCore;
use tanos::crypto::{
    accepts, decrypt, encrypt, encrypt_with, report_verdict, sign, verify, verifying_key_from_bytes,
    x25519_pubkey_from_secret, CryptoError, SigningKey,
};

fn random_32() -> [u8; 32] {
    let mut buf = [0u8; 32];
    rand::rngs::OsRng.fill_bytes(&mut buf);
    buf
}

fn bytes_32(text: &str) -> [u8; 32] {
    let mut buf = [0u8; 32];
    buf.copy_from_slice(&hex::decode(text).expect("hexadecimal text"));
    buf
}

const SEED: &str = "9d61b19deffd5a60ba844af492ec2cc44449c5697b326919703bac031cae7f60";
const PUBLIC: &str = "d75a980182b10ab7d54bfed3c964073a0ee172f3daa62325af021a68f707511a";

#[test]
fn sign_and_verify_roundtrip() {
    let signing_key = SigningKey::generate();
    let verifying_key = signing_key.verifying_key();
    let data = b"hello tanos mesh";

    let sig = sign(&signing_key, data);
    assert!(verify(&verifying_key, data, &sig).is_ok());
}

#[test]
fn verify_rejects_tampered_data() {
    let signing_key = SigningKey::generate();
    let verifying_key = signing_key.verifying_key();
    let data = b"original message";
    let sig = sign(&signing_key, data);

    let tampered = b"tampered message";
    assert!(verify(&verifying_key, tampered, &sig).is_err());
    assert_eq!(verify(&verifying_key, tampered, &sig), Err(CryptoError::VerificationFailed));
}

#[test]
fn verify_rejects_wrong_key() {
    let key_a = SigningKey::generate();
    let key_b = SigningKey::generate();
    let data = b"some data";
    let sig = sign(&key_a, data);

    assert!(verify(&key_b.verifying_key(), data, &sig).is_err());
}

#[test]
fn encrypt_decrypt_roundtrip() {
    let recipient_secret_bytes: [u8; 32] = random_32();
    let recipient_pubkey = x25519_pubkey_from_secret(&recipient_secret_bytes);

    let plaintext = b"secret mesh message";
    let encrypted = encrypt(&recipient_pubkey, plaintext).expect("encryption should succeed");

    let decrypted = decrypt(
        &recipient_secret_bytes,
        &encrypted.ephemeral_pubkey,
        &encrypted.nonce,
        &encrypted.ciphertext,
    )
    .expect("decryption should succeed");

    assert_eq!(decrypted, plaintext);
}

#[test]
fn decrypt_with_wrong_key_fails() {
    let recipient_secret: [u8; 32] = random_32();
    let recipient_pubkey = x25519_pubkey_from_secret(&recipient_secret);

    let encrypted = encrypt(&recipient_pubkey, b"payload").expect("encryption should succeed");

    let wrong_secret: [u8; 32] = random_32();
    let opened = decrypt(
        &wrong_secret,
        &encrypted.ephemeral_pubkey,
        &encrypted.nonce,
        &encrypted.ciphertext,
    );
    assert!(opened.is_err());
    assert_eq!(opened, Err(CryptoError::DecryptionFailed));
}

#[test]
fn verifying_key_from_bytes_roundtrip() {
    let sk = SigningKey::generate();
    let vk = sk.verifying_key();
    let bytes = vk.to_bytes();
    let restored = verifying_key_from_bytes(&bytes).expect("valid key bytes");
    assert_eq!(vk, restored);
}

#[test]
fn x25519_pubkey_deterministic() {
    let secret: [u8; 32] = random_32();
    let pk1 = x25519_pubkey_from_secret(&secret);
    let pk2 = x25519_pubkey_from_secret(&secret);
    assert_eq!(pk1, pk2);
}

#[test]
fn public_key_of_a_known_seed() {
    let key = SigningKey::from_bytes(&bytes_32(SEED));
    assert_eq!(key.to_bytes(), bytes_32(SEED));
    assert_eq!(hex::encode(key.verifying_key().to_bytes()), PUBLIC);
}

#[test]
fn signature_is_that_of_the_outside_crate() {
    use_outside_signer(b"");
    use_outside_signer(b"beacon");
}

fn use_outside_signer(data: &[u8]) {
    let outside = ed25519_dalek::SigningKey::from_bytes(&bytes_32(SEED));
    let expected = ed25519_dalek::Signer::sign(&outside, data).to_bytes();
    assert_eq!(sign(&SigningKey::from_bytes(&bytes_32(SEED)), data), expected);
}

#[test]
fn bytes_off_the_curve_are_no_key() {
    let mut rejected: u32 = 0;
    for first in 0u8..=255 {
        let mut bytes = [0u8; 32];
        bytes[0] = first;
        if verifying_key_from_bytes(&bytes) == Err(CryptoError::InvalidPublicKey) {
            rejected += 1;
            assert!(ed25519_dalek::VerifyingKey::from_bytes(&bytes).is_err());
        }
    }
    assert!(rejected > 0);
}

#[test]
fn x25519_public_key_is_that_of_the_outside_crate() {
    let secret: [u8; 32] = bytes_32(SEED);
    let outside = x25519_dalek::StaticSecret::from(secret);
    assert_eq!(
        x25519_pubkey_from_secret(&secret),
        x25519_dalek::PublicKey::from(&outside).to_bytes()
    );
    assert_ne!(x25519_pubkey_from_secret(&secret), secret);
}

#[test]
fn encryption_with_given_secrets_is_fixed() {
    let secret = [7u8; 32];
    let nonce = [9u8; 12];
    let recipient_secret = [3u8; 32];
    let recipient = x25519_pubkey_from_secret(&recipient_secret);
    let one = encrypt_with(&secret, &nonce, &recipient, b"twice").expect("short plaintext");
    let two = encrypt_with(&secret, &nonce, &recipient, b"twice").expect("short plaintext");
    assert_eq!(one.ciphertext, two.ciphertext);
    assert_eq!(one.ciphertext.len(), 5 + 16);
    assert_eq!(one.nonce, nonce);
    assert_eq!(one.ephemeral_pubkey, x25519_pubkey_from_secret(&secret));
    let opened = decrypt(&recipient_secret, &one.ephemeral_pubkey, &nonce, &one.ciphertext);
    assert_eq!(opened, Ok(b"twice".to_vec()));
}

#[test]
fn each_encryption_draws_afresh() {
    let recipient = x25519_pubkey_from_secret(&[3u8; 32]);
    let one = encrypt(&recipient, b"same").expect("short plaintext");
    let two = encrypt(&recipient, b"same").expect("short plaintext");
    assert_ne!(one.ephemeral_pubkey, two.ephemeral_pubkey);
    assert_ne!(one.nonce, two.nonce);
    assert_ne!(one.ciphertext, two.ciphertext);
    assert_ne!(one.ciphertext, b"same");
}

#[test]
fn changed_ciphertext_is_refused() {
    let recipient_secret = [3u8; 32];
    let recipient = x25519_pubkey_from_secret(&recipient_secret);
    let mut sealed = encrypt(&recipient, b"whole").expect("short plaintext");
    sealed.ciphertext[0] ^= 1;
    let opened = decrypt(
        &recipient_secret,
        &sealed.ephemeral_pubkey,
        &sealed.nonce,
        &sealed.ciphertext,
    );
    assert_eq!(opened, Err(CryptoError::DecryptionFailed));
    let sealed = encrypt(&recipient, b"whole").expect("short plaintext");
    let mut nonce = sealed.nonce;
    nonce[11] ^= 1;
    let mut longer = sealed.ciphertext.clone();
    longer.push(0);
    for (n, c) in [
        (nonce, sealed.ciphertext.clone()),
        (sealed.nonce, longer),
        (sealed.nonce, sealed.ciphertext[..20].to_vec()),
    ] {
        let opened = decrypt(&recipient_secret, &sealed.ephemeral_pubkey, &n, &c);
        assert_eq!(opened, Err(CryptoError::DecryptionFailed));
    }
    let short = decrypt(&recipient_secret, &sealed.ephemeral_pubkey, &sealed.nonce, &[1u8, 2]);
    assert_eq!(short, Err(CryptoError::DecryptionFailed));
}

#[test]
fn verdicts_and_messages() {
    let key = SigningKey::from_bytes(&bytes_32(SEED));
    let signature = sign(&key, b"data");
    assert!(accepts(&key.verifying_key().to_bytes(), b"data", &signature));
    assert!(!accepts(&key.verifying_key().to_bytes(), b"dato", &signature));
    assert_eq!(report_verdict(true), Ok(()));
    assert_eq!(report_verdict(false), Err(CryptoError::VerificationFailed));
    assert_eq!(CryptoError::InvalidPublicKey.message(), "invalid Ed25519 public key bytes");
    assert_eq!(
        CryptoError::VerificationFailed.message(),
        "Ed25519 signature verification failed"
    );
    assert_eq!(
        CryptoError::EncryptionFailed.message(),
        "ChaCha20-Poly1305 encryption failed: aead::Error"
    );
    assert_eq!(
        CryptoError::DecryptionFailed.message(),
        "ChaCha20-Poly1305 decryption failed: aead::Error"
    );
}
