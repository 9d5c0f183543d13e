//! The encrypted browser-to-CLI channel. A symmetric key is derived from
//! an elliptic-curve agreement between the CLI's single-use ephemeral
//! private key and the peer public key named in the callback; the payload
//! travels under authenticated encryption. Decryption fails closed: every
//! failure — malformed hexadecimal, a bad agreement, a wrong
//! initialization-vector length, an authentication failure — surfaces as
//! the one opaque decryption error, so a caller learns nothing about which
//! step failed.

use vstd::prelude::*;
use crate::hexcode;
use crate::payload::CallbackRequest;

verus! {

use vstd::string::StringSliceAdditionalSpecFns;

/// The single opaque decryption failure; no finer reason is ever surfaced.
#[derive(Clone, Copy, Debug, PartialEq, Eq, Structural)]
pub struct DecryptError;

/// Why encryption failed: the agreement or the seal was refused.
#[derive(Clone, Copy, Debug, PartialEq, Eq, Structural)]
pub struct EncryptError;

#[verifier::external_type_specification]
#[verifier::external_body]
pub struct ExEphemeralPrivateKey(ring::agreement::EphemeralPrivateKey);

/// The single-use key-agreement keypair of one login attempt: the private
/// key, consumed at most once by decryption, and the public key sent to
/// the browser.
pub struct BoxKeyPair {
    pub private_key: ring::agreement::EphemeralPrivateKey,
    pub public_key: Vec<u8>,
}

/// Generates the ephemeral key-agreement keypair of one login attempt.
pub fn generate_box_keypair() -> (r: Result<BoxKeyPair, ()>)
    ensures
        r matches Ok(p) ==> p.public_key@.len() == 65,
{
    match generate_agreement_keypair() {
        Ok((private_key, public_key)) => Ok(BoxKeyPair { private_key, public_key }),
        Err(_) => Err(()),
    }
}

/// Relies on `ring::agreement::EphemeralPrivateKey::generate` and
/// `compute_public_key` with the P-256 algorithm: the public key comes
/// back in the standard uncompressed form, 65 bytes.
#[verifier::external_body]
fn generate_agreement_keypair() -> (r: Result<
    (ring::agreement::EphemeralPrivateKey, Vec<u8>),
    (),
>)
    ensures
        r matches Ok(p) ==> p.1@.len() == 65,
{
    let rng = ring::rand::SystemRandom::new();
    let private_key = match ring::agreement::EphemeralPrivateKey::generate(
        &ring::agreement::ECDH_P256,
        &rng,
    ) {
        Ok(k) => k,
        Err(_) => {
            return Err(());
        },
    };
    match private_key.compute_public_key() {
        Ok(pk) => Ok((private_key, pk.as_ref().to_vec())),
        Err(_) => Err(()),
    }
}

/// Relies on `ring::agreement::agree_ephemeral` with P-256: on success the
/// shared secret is the 32-byte x-coordinate of the agreed point. The
/// private key is consumed whatever the outcome.
#[verifier::external_body]
fn agree_secret(private_key: ring::agreement::EphemeralPrivateKey, peer_public: &[u8]) -> (r:
    Result<Vec<u8>, ()>)
    ensures
        r matches Ok(s) ==> s@.len() == 32,
{
    let peer = ring::agreement::UnparsedPublicKey::new(&ring::agreement::ECDH_P256, peer_public);
    match ring::agreement::agree_ephemeral(private_key, &peer, |secret| secret.to_vec()) {
        Ok(s) => Ok(s),
        Err(_) => Err(()),
    }
}

/// Relies on `ring::aead` with AES-256-GCM: `open_in_place` strips the
/// 16-byte tag, so success means the ciphertext carried the tag and the
/// plaintext is exactly 16 bytes shorter; it fails on any key or
/// initialization-vector length other than 32 and 12, and on any
/// authentication mismatch.
#[verifier::external_body]
fn aes256_gcm_open(key: &[u8], iv: &[u8], ciphertext: &[u8]) -> (r: Result<Vec<u8>, ()>)
    ensures
        r matches Ok(p) ==> key@.len() == 32 && iv@.len() == 12 && ciphertext@.len() >= 16
            && p@.len() == ciphertext@.len() - 16,
{
    let unbound = match ring::aead::UnboundKey::new(&ring::aead::AES_256_GCM, key) {
        Ok(k) => k,
        Err(_) => return Err(()),
    };
    let sealing = ring::aead::LessSafeKey::new(unbound);
    let nonce = match ring::aead::Nonce::try_assume_unique_for_key(iv) {
        Ok(n) => n,
        Err(_) => return Err(()),
    };
    let mut buf = ciphertext.to_vec();
    match sealing.open_in_place(nonce, ring::aead::Aad::empty(), &mut buf) {
        Ok(p) => Ok(p.to_vec()),
        Err(_) => Err(()),
    }
}

/// Relies on `ring::aead` with AES-256-GCM: `seal_in_place_append_tag`
/// appends the 16-byte tag, so success yields a ciphertext exactly 16
/// bytes longer than the plaintext.
#[verifier::external_body]
fn aes256_gcm_seal(key: &[u8], iv: &[u8], plaintext: &[u8]) -> (r: Result<Vec<u8>, ()>)
    requires
        plaintext@.len() + 16 <= usize::MAX,
    ensures
        r matches Ok(c) ==> key@.len() == 32 && iv@.len() == 12 && c@.len() == plaintext@.len()
            + 16,
{
    let unbound = match ring::aead::UnboundKey::new(&ring::aead::AES_256_GCM, key) {
        Ok(k) => k,
        Err(_) => return Err(()),
    };
    let sealing = ring::aead::LessSafeKey::new(unbound);
    let nonce = match ring::aead::Nonce::try_assume_unique_for_key(iv) {
        Ok(n) => n,
        Err(_) => return Err(()),
    };
    let mut buf = plaintext.to_vec();
    match sealing.seal_in_place_append_tag(nonce, ring::aead::Aad::empty(), &mut buf) {
        Ok(()) => Ok(buf),
        Err(_) => Err(()),
    }
}

/// Decrypts the callback body with the attempt's single-use private key:
/// decodes the three hexadecimal fields, agrees on the symmetric key with
/// the peer's ephemeral public key, and opens the ciphertext. Every
/// failure is the one opaque decryption error; in particular a malformed
/// hexadecimal field always fails.
pub fn decrypt_payload(
    private_key: ring::agreement::EphemeralPrivateKey,
    callback: &CallbackRequest,
) -> (r: Result<Vec<u8>, DecryptError>)
    ensures
        !hexcode::spec_hex_valid(vstd::utf8::encode_utf8(callback.ephemeral_public_key_hex@)) ==> r
            is Err,
        !hexcode::spec_hex_valid(vstd::utf8::encode_utf8(callback.iv_hex@)) ==> r is Err,
        !hexcode::spec_hex_valid(vstd::utf8::encode_utf8(callback.ciphertext_hex@)) ==> r is Err,
        r matches Ok(p) ==> hexcode::spec_hex_value(
            vstd::utf8::encode_utf8(callback.ciphertext_hex@),
        ).len() >= 16 && p@.len() == hexcode::spec_hex_value(
            vstd::utf8::encode_utf8(callback.ciphertext_hex@),
        ).len() - 16,
{
    let peer_public = match hexcode::hex_decode(callback.ephemeral_public_key_hex.as_str()) {
        Some(v) => v,
        None => {
            return Err(DecryptError);
        },
    };
    let iv = match hexcode::hex_decode(callback.iv_hex.as_str()) {
        Some(v) => v,
        None => {
            return Err(DecryptError);
        },
    };
    let ciphertext = match hexcode::hex_decode(callback.ciphertext_hex.as_str()) {
        Some(v) => v,
        None => {
            return Err(DecryptError);
        },
    };
    let secret = match agree_secret(private_key, peer_public.as_slice()) {
        Ok(s) => s,
        Err(_) => {
            return Err(DecryptError);
        },
    };
    match aes256_gcm_open(secret.as_slice(), iv.as_slice(), ciphertext.as_slice()) {
        Ok(p) => Ok(p),
        Err(_) => Err(DecryptError),
    }
}

/// Encrypts a payload for the channel: agrees on the symmetric key with
/// the peer's ephemeral public key and seals the plaintext under the given
/// 12-byte initialization vector.
pub fn encrypt_payload(
    private_key: ring::agreement::EphemeralPrivateKey,
    peer_public: &[u8],
    iv: &[u8],
    plaintext: &[u8],
) -> (r: Result<Vec<u8>, EncryptError>)
    requires
        plaintext@.len() + 16 <= usize::MAX,
    ensures
        r matches Ok(c) ==> c@.len() == plaintext@.len() + 16,
{
    let secret = match agree_secret(private_key, peer_public) {
        Ok(s) => s,
        Err(_) => {
            return Err(EncryptError);
        },
    };
    match aes256_gcm_seal(secret.as_slice(), iv, plaintext) {
        Ok(c) => Ok(c),
        Err(_) => Err(EncryptError),
    }
}

} // verus!
