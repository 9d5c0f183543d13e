//! Delegation-chain validation, key normalization, and the identity
//! store's build/validate round trip.

use kinic_cli::callback::derive_principal_from_user_key;
use kinic_cli::chain::{
    ChainError, Delegation, SignedDelegation, convert_delegations, delegation_expiration,
};
use kinic_cli::identity::{
    ChainVerificationOutcome, LoadDecision, StoreError, StoredIdentity, build_stored_identity,
    ensure_not_expired, resolve_chain_verification, ttl_nanos, validate_stored_identity,
};
use kinic_cli::keys::generate_session_key;
use kinic_cli::payload::{BrowserDelegation, BrowserSignedDelegation};
use kinic_cli::spki::{KeyError, ed25519_spki, is_canister_signature_key, is_spki,
    normalize_spki_key};

fn chain_entry(expiration: u64) -> SignedDelegation {
    SignedDelegation {
        delegation: Delegation { pubkey: vec![1, 2, 3], expiration, targets: None },
        signature: vec![9, 9],
    }
}

fn browser_entry(pubkey: Vec<u8>, expiration: u64, targets: Option<Vec<String>>)
    -> BrowserSignedDelegation {
    BrowserSignedDelegation {
        delegation: BrowserDelegation { pubkey, expiration, targets },
        signature: vec![4, 5, 6],
    }
}

#[test]
fn chain_expiration_is_the_minimum() {
    let entries = vec![chain_entry(100), chain_entry(50), chain_entry(200)];
    assert_eq!(delegation_expiration(&entries).unwrap(), 50);
}

#[test]
fn chain_expiration_of_empty_chain_is_refused() {
    let entries: Vec<SignedDelegation> = Vec::new();
    assert_eq!(delegation_expiration(&entries).unwrap_err(), ChainError::EmptyChain);
}

#[test]
fn normalization_is_idempotent_and_joins_both_encodings() {
    let m = generate_session_key().unwrap();
    let raw: Vec<u8> = m.public_key[12..].to_vec();
    let from_raw = normalize_spki_key(&raw).unwrap();
    let from_structured = normalize_spki_key(&m.public_key).unwrap();
    assert_eq!(from_raw, from_structured);
    assert_eq!(from_raw, m.public_key);
    let again = normalize_spki_key(&from_raw).unwrap();
    assert_eq!(again, from_raw);
}

#[test]
fn unknown_key_encodings_are_refused() {
    assert_eq!(
        normalize_spki_key(&[1, 2, 3]).unwrap_err(),
        KeyError::UnknownEncoding
    );
    let mut found_invalid_point = false;
    for b0 in 0..=255u8 {
        let mut candidate = [0u8; 32];
        candidate[0] = b0;
        candidate[31] = 0x7f;
        candidate[1] = 0xff;
        if let Err(e) = normalize_spki_key(&candidate) {
            assert_eq!(e, KeyError::InvalidRawKey);
            found_invalid_point = true;
            break;
        }
    }
    assert!(found_invalid_point);
}

#[test]
fn structured_wrapper_parses_and_carries_the_algorithm() {
    let raw = [0u8; 32];
    let spki = ed25519_spki(&raw);
    assert_eq!(spki.len(), 44);
    assert!(is_spki(&spki));
    assert_eq!(is_canister_signature_key(&spki).unwrap(), false);
    assert!(!is_spki(&raw));
    assert!(is_canister_signature_key(&[0, 1]).is_err());
}

#[test]
fn canister_signature_keys_are_recognized() {
    let spki: Vec<u8> = vec![
        0x30, 0x14, 0x30, 0x0e, 0x06, 0x0a, 0x2b, 0x06, 0x01, 0x04, 0x01, 0x83, 0xb8, 0x43,
        0x01, 0x02, 0x04, 0x00, 0x03, 0x02, 0x00, 0x00,
    ];
    assert!(is_spki(&spki));
    assert_eq!(is_canister_signature_key(&spki).unwrap(), true);
}

#[test]
fn end_to_end_session_delegation_scenario() {
    let m = generate_session_key().unwrap();
    let session_pub = normalize_spki_key(&m.public_key).unwrap();
    let raw: Vec<u8> = m.public_key[12..].to_vec();
    let t = 123_456_789u64;
    let entries = vec![browser_entry(raw.clone(), t, None)];
    let chain = convert_delegations(entries, &session_pub).unwrap();
    assert_eq!(chain.len(), 1);
    assert_eq!(chain[0].delegation.pubkey, session_pub);
    assert_eq!(delegation_expiration(&chain).unwrap(), t);
    let p1 = derive_principal_from_user_key(&raw).unwrap();
    let p2 = derive_principal_from_user_key(&raw).unwrap();
    assert_eq!(p1.bytes, p2.bytes);
}

#[test]
fn delegation_for_a_foreign_key_is_refused() {
    let m = generate_session_key().unwrap();
    let other = generate_session_key().unwrap();
    let session_pub = normalize_spki_key(&m.public_key).unwrap();
    let foreign_raw: Vec<u8> = other.public_key[12..].to_vec();
    let entries = vec![browser_entry(foreign_raw, 10, None)];
    assert_eq!(
        convert_delegations(entries, &session_pub).unwrap_err(),
        ChainError::DelegationKeyMismatch
    );
}

#[test]
fn delegation_targets_are_parsed_or_refused() {
    let m = generate_session_key().unwrap();
    let session_pub = normalize_spki_key(&m.public_key).unwrap();
    let raw: Vec<u8> = m.public_key[12..].to_vec();
    let good = vec![browser_entry(
        raw.clone(),
        5,
        Some(vec![String::from("aaaaa-aa")]),
    )];
    let chain = convert_delegations(good, &session_pub).unwrap();
    let targets = chain[0].delegation.targets.as_ref().unwrap();
    assert_eq!(targets.len(), 1);
    assert_eq!(targets[0].bytes.len(), 0);
    let bad = vec![browser_entry(raw, 5, Some(vec![String::from("not a principal")]))];
    assert_eq!(
        convert_delegations(bad, &session_pub).unwrap_err(),
        ChainError::InvalidTargetPrincipal
    );
}

#[test]
fn unsupported_delegation_key_is_refused() {
    let m = generate_session_key().unwrap();
    let session_pub = normalize_spki_key(&m.public_key).unwrap();
    let entries = vec![browser_entry(vec![1, 2, 3], 10, None)];
    assert_eq!(
        convert_delegations(entries, &session_pub).unwrap_err(),
        ChainError::UnsupportedDelegationKey
    );
}

fn build_sample(now: u64, expiration: u64) -> (StoredIdentity, Vec<u8>, Vec<u8>) {
    let m = generate_session_key().unwrap();
    let session_pub = normalize_spki_key(&m.public_key).unwrap();
    let raw: Vec<u8> = m.public_key[12..].to_vec();
    let entries = vec![browser_entry(raw, expiration, None)];
    let chain = convert_delegations(entries, &session_pub).unwrap();
    let user_key = session_pub.clone();
    let pkcs8 = m.pkcs8.clone();
    let stored = build_stored_identity(&m, &user_key, chain, expiration, now);
    (stored, user_key, pkcs8)
}

#[test]
fn save_then_load_round_trips_every_field() {
    let now = 1_000u64;
    let expiration = 9_000_000_000_000_000u64;
    let (stored, user_key, pkcs8) = build_sample(now, expiration);
    assert_eq!(stored.version, 1);
    assert_eq!(stored.identity_provider, "https://id.ai/#authorize");
    assert_eq!(stored.expiration_ns, expiration);
    assert_eq!(stored.created_at_ns, now);
    let saved_principal = derive_principal_from_user_key(&user_key).unwrap();
    let expected_delegation_pubkey = stored.delegations[0].delegation.pubkey.clone();
    let loaded = validate_stored_identity(stored, now + 1).unwrap();
    assert_eq!(loaded.user_public_key, user_key);
    assert_eq!(loaded.session_pkcs8, pkcs8);
    assert_eq!(loaded.session_public_key, user_key);
    assert_eq!(loaded.delegations.len(), 1);
    assert_eq!(loaded.delegations[0].delegation.pubkey, expected_delegation_pubkey);
    assert_eq!(loaded.delegations[0].delegation.expiration, expiration);
    assert!(!loaded.root_is_canister_sig);
    assert_eq!(loaded.principal.bytes, saved_principal.bytes);
}

#[test]
fn expired_identity_is_refused_with_the_expiry_error() {
    let now = 5_000u64;
    let (stored, _, _) = build_sample(1, now - 1);
    let err = validate_stored_identity(stored, now).unwrap_err();
    assert_eq!(err, StoreError::Expired);
}

#[test]
fn expiry_boundary_is_strict() {
    let (stored, _, _) = build_sample(1, 100);
    assert!(ensure_not_expired(&stored, 99).is_ok());
    assert_eq!(ensure_not_expired(&stored, 100).unwrap_err(), StoreError::Expired);
    assert_eq!(ensure_not_expired(&stored, 101).unwrap_err(), StoreError::Expired);
}

#[test]
fn corrupt_hex_in_a_stored_identity_is_refused() {
    let (mut stored, _, _) = build_sample(1, 1_000_000);
    stored.user_public_key_hex = String::from("zz");
    let err = validate_stored_identity(stored, 2).unwrap_err();
    assert_eq!(err, StoreError::InvalidUserKeyHex);
    let (mut stored, _, _) = build_sample(1, 1_000_000);
    stored.session_pkcs8_hex = String::from("0x00");
    let err = validate_stored_identity(stored, 2).unwrap_err();
    assert_eq!(err, StoreError::InvalidSessionKeyHex);
}

#[test]
fn default_ttl_is_six_hours() {
    assert_eq!(ttl_nanos(), 21_600_000_000_000);
}

#[test]
fn verification_outcomes_resolve_as_documented() {
    assert_eq!(
        resolve_chain_verification(true, ChainVerificationOutcome::Failed).unwrap(),
        LoadDecision::UseUncheckedWithWarning
    );
    assert_eq!(
        resolve_chain_verification(false, ChainVerificationOutcome::Verified).unwrap(),
        LoadDecision::UseVerified
    );
    assert_eq!(
        resolve_chain_verification(false, ChainVerificationOutcome::UnknownAlgorithm).unwrap(),
        LoadDecision::UseUncheckedWithWarning
    );
    assert!(resolve_chain_verification(false, ChainVerificationOutcome::Failed).is_err());
}
