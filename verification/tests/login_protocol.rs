//! The login protocol end to end: key material, the encrypted channel,
//! and the single-use callback state machine.

use kinic_cli::callback::{
    check_body_size, derive_principal_from_user_key, CallbackState, Rejection,
    MAX_CALLBACK_BODY_BYTES,
};
use kinic_cli::codec::{decrypt_payload, encrypt_payload, generate_box_keypair};
use kinic_cli::hexcode::{hex_decode, hex_encode};
use kinic_cli::keys::{generate_nonce_hex, generate_session_key};
use kinic_cli::payload::{BrowserPayload, CallbackRequest};

fn sample_payload(session_public_key: Vec<u8>, user_public_key: Vec<u8>) -> BrowserPayload {
    BrowserPayload {
        delegations: Vec::new(),
        user_public_key,
        session_public_key,
        expiration_ns: 1_000_000,
        derivation_origin: String::from("http://127.0.0.1:8620"),
    }
}

fn fresh_state(nonce: &str, session_public_key: Vec<u8>) -> CallbackState {
    let pair = generate_box_keypair().unwrap();
    CallbackState::new(
        String::from(nonce),
        session_public_key,
        String::from("http://127.0.0.1:8620"),
        String::from("https://id.ai"),
        pair.private_key,
    )
}

#[test]
fn session_key_public_is_structured_and_matches_document() {
    let m = generate_session_key().unwrap();
    assert_eq!(m.public_key.len(), 44);
    let prefix: [u8; 12] = [48, 42, 48, 5, 6, 3, 43, 101, 112, 3, 33, 0];
    assert_eq!(&m.public_key[..12], &prefix);
    assert!(m.pkcs8.len() > 32);
}

#[test]
fn nonce_is_64_hex_chars_and_fresh() {
    let a = generate_nonce_hex().unwrap();
    let b = generate_nonce_hex().unwrap();
    assert_eq!(a.len(), 64);
    assert!(a.bytes().all(|c| c.is_ascii_hexdigit()));
    assert_ne!(a, b);
}

#[test]
fn encrypted_channel_round_trips() {
    let cli = generate_box_keypair().unwrap();
    let browser = generate_box_keypair().unwrap();
    let iv = [7u8; 12];
    let message = b"{\"hello\":\"world\"}";
    let ciphertext =
        encrypt_payload(browser.private_key, &cli.public_key, &iv, message).unwrap();
    assert_eq!(ciphertext.len(), message.len() + 16);
    let request = CallbackRequest {
        nonce: String::from("n"),
        ephemeral_public_key_hex: hex_encode(&browser.public_key),
        iv_hex: hex_encode(&iv),
        ciphertext_hex: hex_encode(&ciphertext),
    };
    let plain = decrypt_payload(cli.private_key, &request).unwrap();
    assert_eq!(plain.as_slice(), message);
}

#[test]
fn tampered_ciphertext_fails_with_the_generic_error() {
    let cli = generate_box_keypair().unwrap();
    let browser = generate_box_keypair().unwrap();
    let iv = [9u8; 12];
    let message = b"payload under test";
    let mut ciphertext =
        encrypt_payload(browser.private_key, &cli.public_key, &iv, message).unwrap();
    ciphertext[0] ^= 0x01;
    let request = CallbackRequest {
        nonce: String::from("n"),
        ephemeral_public_key_hex: hex_encode(&browser.public_key),
        iv_hex: hex_encode(&iv),
        ciphertext_hex: hex_encode(&ciphertext),
    };
    let err = decrypt_payload(cli.private_key, &request).unwrap_err();
    assert_eq!(err, kinic_cli::codec::DecryptError);
}

#[test]
fn malformed_hex_fails_with_the_generic_error() {
    let cli = generate_box_keypair().unwrap();
    let request = CallbackRequest {
        nonce: String::from("n"),
        ephemeral_public_key_hex: String::from("zz"),
        iv_hex: String::from("00"),
        ciphertext_hex: String::from("00"),
    };
    let err = decrypt_payload(cli.private_key, &request).unwrap_err();
    assert_eq!(err, kinic_cli::codec::DecryptError);
}

#[test]
fn oversized_bodies_are_rejected_before_anything_else() {
    assert_eq!(check_body_size(MAX_CALLBACK_BODY_BYTES), None);
    let r = check_body_size(MAX_CALLBACK_BODY_BYTES + 1);
    assert_eq!(r, Some(Rejection::PayloadTooLarge));
    assert_eq!(r.unwrap().status_code(), 413);
}

#[test]
fn header_checks_reject_wrong_media_type_and_origin() {
    let m = generate_session_key().unwrap();
    let state = fresh_state("deadbeef", m.public_key.clone());
    assert_eq!(
        state.check_headers(None, None),
        Some(Rejection::UnsupportedMediaType)
    );
    assert_eq!(
        state.check_headers(Some("text/html"), None),
        Some(Rejection::UnsupportedMediaType)
    );
    let r = state.check_headers(Some("application/json; charset=utf-8"), Some("https://evil"));
    assert_eq!(r, Some(Rejection::InvalidOrigin));
    assert_eq!(r.unwrap().status_code(), 403);
    assert_eq!(
        state.check_headers(Some("Application/JSON"), Some("https://id.ai")),
        None
    );
}

#[test]
fn nonce_mismatch_is_always_rejected() {
    let m = generate_session_key().unwrap();
    let mut state = fresh_state("expected-nonce", m.public_key.clone());
    let err = state.take_key("other-nonce").unwrap_err();
    assert_eq!(err, Rejection::InvalidNonce);
    assert_eq!(err.status_code(), 400);
    let err = state.take_key("other-nonce").unwrap_err();
    assert_eq!(err, Rejection::InvalidNonce);
}

#[test]
fn first_callback_takes_the_key_every_later_one_is_already_used() {
    let m = generate_session_key().unwrap();
    let mut state = fresh_state("deadbeef", m.public_key.clone());
    assert!(state.take_key("deadbeef").is_ok());
    let err = state.take_key("deadbeef").unwrap_err();
    assert_eq!(err, Rejection::AlreadyUsed);
    assert_eq!(err.status_code(), 409);
    let err = state.take_key("deadbeef").unwrap_err();
    assert_eq!(err, Rejection::AlreadyUsed);
}

#[test]
fn exactly_one_payload_is_accepted() {
    let m = generate_session_key().unwrap();
    let mut state = fresh_state("deadbeef", m.public_key.clone());
    let raw_root: Vec<u8> = m.public_key[12..].to_vec();
    let first = state.accept_payload(sample_payload(m.public_key.clone(), raw_root.clone()), 10);
    let accepted = first.unwrap();
    assert_eq!(accepted.principal.bytes.len(), 29);
    let second = state.accept_payload(sample_payload(m.public_key.clone(), raw_root), 10);
    assert_eq!(second.unwrap_err(), Rejection::AlreadyCompleted);
}

#[test]
fn payload_with_wrong_session_key_is_rejected() {
    let m = generate_session_key().unwrap();
    let other = generate_session_key().unwrap();
    let mut state = fresh_state("deadbeef", m.public_key.clone());
    let raw_root: Vec<u8> = m.public_key[12..].to_vec();
    let r = state.accept_payload(sample_payload(other.public_key.clone(), raw_root), 10);
    assert_eq!(r.unwrap_err(), Rejection::SessionKeyMismatch);
}

#[test]
fn payload_with_wrong_derivation_origin_is_rejected() {
    let m = generate_session_key().unwrap();
    let mut state = fresh_state("deadbeef", m.public_key.clone());
    let raw_root: Vec<u8> = m.public_key[12..].to_vec();
    let mut payload = sample_payload(m.public_key.clone(), raw_root);
    payload.derivation_origin = String::from("http://localhost:9999");
    let r = state.accept_payload(payload, 10);
    assert_eq!(r.unwrap_err(), Rejection::DerivationOriginMismatch);
}

#[test]
fn payload_whose_expiration_has_passed_is_rejected() {
    let m = generate_session_key().unwrap();
    let mut state = fresh_state("deadbeef", m.public_key.clone());
    let raw_root: Vec<u8> = m.public_key[12..].to_vec();
    let payload = sample_payload(m.public_key.clone(), raw_root.clone());
    let now = payload.expiration_ns;
    let r = state.accept_payload(payload, now);
    assert_eq!(r.unwrap_err(), Rejection::PayloadExpired);
    let payload = sample_payload(m.public_key.clone(), raw_root);
    let r = state.accept_payload(payload, now - 1);
    assert!(r.is_ok());
}

#[test]
fn derived_principal_is_deterministic() {
    let m = generate_session_key().unwrap();
    let raw_root: Vec<u8> = m.public_key[12..].to_vec();
    let a = derive_principal_from_user_key(&raw_root).unwrap();
    let b = derive_principal_from_user_key(&raw_root).unwrap();
    assert_eq!(a.bytes, b.bytes);
    assert_eq!(a.bytes.len(), 29);
    let c = derive_principal_from_user_key(&m.public_key).unwrap();
    assert_eq!(a.bytes, c.bytes);
}

#[test]
fn hex_codec_round_trips_and_rejects_bad_input() {
    let bytes = vec![0xde, 0xad, 0xbe, 0xef, 0x00, 0x7f];
    let s = hex_encode(&bytes);
    assert_eq!(s, "deadbeef007f");
    assert_eq!(hex_decode(&s).unwrap(), bytes);
    assert_eq!(hex_decode("DEADBEEF007F").unwrap(), bytes);
    assert!(hex_decode("abc").is_none());
    assert!(hex_decode("zz").is_none());
    assert_eq!(hex_decode("").unwrap(), Vec::<u8>::new());
}
