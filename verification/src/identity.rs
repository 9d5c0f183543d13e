//! The on-disk identity lifecycle. A finished credential is a single
//! record: provider, hexadecimal user key and session private-key
//! document, the delegation chain, and its expiration. Building the record
//! and validating a loaded one are verified here; reading, writing and
//! parsing the file are the surrounding program's work. A record whose
//! expiration has passed is refused with a distinct error; loading
//! re-normalizes every stored key.

use vstd::prelude::*;
use crate::chain::{self, ChainError, SignedDelegation};
use crate::hexcode;
use crate::keys::{SessionKeyMaterial, ed25519_public_of_pkcs8};
use crate::principal::{Principal, spec_self_authenticating, self_authenticating_principal};
use crate::spki;

verus! {

use vstd::string::StringExecFns;

/// Why a stored identity was refused.
#[derive(Clone, Copy, Debug, PartialEq, Eq, Structural)]
pub enum StoreError {
    /// The credential's expiration has passed; the user must log in again.
    Expired,
    /// The stored user public key is not a hexadecimal string.
    InvalidUserKeyHex,
    /// The stored user public key is in no recognized encoding.
    UnsupportedUserKey,
    /// The stored session key document is not a hexadecimal string.
    InvalidSessionKeyHex,
    /// The stored session key document does not parse.
    InvalidSessionKey,
    /// A stored delegation's public key is in no recognized encoding.
    UnsupportedDelegationKey,
}

/// The persisted credential record, mutated only by a full overwrite.
#[derive(Debug)]
pub struct StoredIdentity {
    pub version: u8,
    pub identity_provider: String,
    pub user_public_key_hex: String,
    pub session_pkcs8_hex: String,
    pub delegations: Vec<SignedDelegation>,
    pub expiration_ns: u64,
    pub created_at_ns: u64,
}

/// A stored identity validated for use: normalized keys, the session
/// public key recomputed from the private-key document, the normalized
/// chain, whether the root key is a canister-signature key (for which
/// local verification must be skipped with a visible warning), and the
/// principal the credential acts as.
#[derive(Debug)]
pub struct LoadedIdentity {
    pub user_public_key: Vec<u8>,
    pub session_pkcs8: Vec<u8>,
    pub session_public_key: Vec<u8>,
    pub delegations: Vec<SignedDelegation>,
    pub root_is_canister_sig: bool,
    pub principal: Principal,
}

/// The identity provider's authorization address.
pub fn identity_provider_url() -> (r: &'static str)
    ensures
        r@ == spec_identity_provider_url(),
{
    "https://id.ai/#authorize"
}

/// The identity provider's authorization address.
pub open spec fn spec_identity_provider_url() -> Seq<char> {
    "https://id.ai/#authorize"@
}

/// The identity provider's web origin.
pub fn identity_provider_origin() -> (r: &'static str)
    ensures
        r@ == "https://id.ai"@,
{
    "https://id.ai"
}

/// The default credential time to live, in nanoseconds: six hours.
pub fn ttl_nanos() -> (r: u64)
    ensures
        r == 6 * 3600 * 1_000_000_000u64,
{
    let hours: u64 = 6;
    let seconds: u64 = hours * 3600;
    seconds * 1_000_000_000
}

/// Refuses a record whose expiration is not strictly in the future.
pub fn ensure_not_expired(stored: &StoredIdentity, now_ns: u64) -> (r: Result<(), StoreError>)
    ensures
        r is Ok <==> now_ns < stored.expiration_ns,
        r is Err ==> r == Err::<(), StoreError>(StoreError::Expired),
{
    if now_ns >= stored.expiration_ns {
        Err(StoreError::Expired)
    } else {
        Ok(())
    }
}

/// The user-key bytes a stored record denotes.
pub open spec fn spec_stored_user_key(stored: StoredIdentity) -> Seq<u8> {
    hexcode::spec_hex_value(vstd::utf8::encode_utf8(stored.user_public_key_hex@))
}

/// The session private-key document a stored record denotes.
pub open spec fn spec_stored_pkcs8(stored: StoredIdentity) -> Seq<u8> {
    hexcode::spec_hex_value(vstd::utf8::encode_utf8(stored.session_pkcs8_hex@))
}

/// The first refusal a stored record meets, in validation order, or none.
pub open spec fn spec_load_error(stored: StoredIdentity, now_ns: u64) -> Option<StoreError> {
    if now_ns >= stored.expiration_ns {
        Some(StoreError::Expired)
    } else if !hexcode::spec_hex_valid(vstd::utf8::encode_utf8(stored.user_public_key_hex@)) {
        Some(StoreError::InvalidUserKeyHex)
    } else if spki::spec_normalized_key(spec_stored_user_key(stored)) is None {
        Some(StoreError::UnsupportedUserKey)
    } else if !hexcode::spec_hex_valid(vstd::utf8::encode_utf8(stored.session_pkcs8_hex@)) {
        Some(StoreError::InvalidSessionKeyHex)
    } else if ed25519_public_of_pkcs8(spec_stored_pkcs8(stored)) is None {
        Some(StoreError::InvalidSessionKey)
    } else if exists|i: int|
        0 <= i < stored.delegations@.len() && spki::spec_normalized_key(
            #[trigger] stored.delegations@[i].delegation.pubkey@,
        ) is None {
        Some(StoreError::UnsupportedDelegationKey)
    } else {
        None
    }
}

/// A normalized key is itself a structured document.
pub proof fn lemma_normalized_is_spki(b: Seq<u8>)
    ensures
        spki::spec_normalized_key(b) matches Some(k) ==> spki::spec_is_spki(k),
{
    if spki::spec_normalized_key(b) is Some {
        if !spki::spec_is_spki(b) {
            spki::lemma_ed25519_spki_is_spki(b);
        }
    }
}

/// Validates a stored record against the current time: refuses an expired
/// record with the distinct expiry error, decodes and re-normalizes both
/// keys, re-normalizes the chain, recomputes the session public key from
/// the private-key document, classifies the root key, and derives the
/// acting principal.
pub fn validate_stored_identity(stored: StoredIdentity, now_ns: u64) -> (r: Result<
    LoadedIdentity,
    StoreError,
>)
    ensures
        r is Err <==> spec_load_error(stored, now_ns) is Some,
        r matches Err(e) ==> Some(e) == spec_load_error(stored, now_ns),
        r matches Ok(li) ==> {
            &&& Some(li.user_public_key@) == spki::spec_normalized_key(
                spec_stored_user_key(stored),
            )
            &&& li.session_pkcs8@ == spec_stored_pkcs8(stored)
            &&& li.session_public_key@ == spki::spec_ed25519_spki(
                ed25519_public_of_pkcs8(spec_stored_pkcs8(stored)).unwrap(),
            )
            &&& li.delegations@.len() == stored.delegations@.len()
            &&& (forall|i: int|
                0 <= i < stored.delegations@.len() ==> (Some(
                    #[trigger] li.delegations@[i].delegation.pubkey@,
                ) == spki::spec_normalized_key(stored.delegations@[i].delegation.pubkey@)
                    && li.delegations@[i].delegation.expiration
                    == stored.delegations@[i].delegation.expiration
                    && li.delegations@[i].delegation.targets
                    == stored.delegations@[i].delegation.targets && li.delegations@[i].signature@
                    == stored.delegations@[i].signature@))
            &&& (li.root_is_canister_sig <==> spki::spec_spki_alg_oid(li.user_public_key@)
                == Some(spki::spec_canister_sig_oid()))
            &&& Some(li.principal.bytes@) == Some(
                spec_self_authenticating(
                    spki::spec_normalized_key(spec_stored_user_key(stored)).unwrap(),
                ),
            )
        },
{
    if let Err(e) = ensure_not_expired(&stored, now_ns) {
        return Err(e);
    }
    let user_raw = match hexcode::hex_decode(stored.user_public_key_hex.as_str()) {
        Some(v) => v,
        None => {
            return Err(StoreError::InvalidUserKeyHex);
        },
    };
    let user_public_key = match spki::normalize_spki_key(user_raw.as_slice()) {
        Ok(v) => v,
        Err(_) => {
            return Err(StoreError::UnsupportedUserKey);
        },
    };
    let session_pkcs8 = match hexcode::hex_decode(stored.session_pkcs8_hex.as_str()) {
        Some(v) => v,
        None => {
            return Err(StoreError::InvalidSessionKeyHex);
        },
    };
    let session_raw = match crate::keys::ed25519_public_from_pkcs8(session_pkcs8.as_slice()) {
        Ok(v) => v,
        Err(_) => {
            return Err(StoreError::InvalidSessionKey);
        },
    };
    let session_public_key = spki::ed25519_spki(session_raw.as_slice());
    let delegations = match chain::normalize_delegations(stored.delegations) {
        Ok(v) => v,
        Err(_) => {
            return Err(StoreError::UnsupportedDelegationKey);
        },
    };
    proof {
        lemma_normalized_is_spki(spec_stored_user_key(stored));
    }
    let root_is_canister_sig = match spki::is_canister_signature_key(user_public_key.as_slice()) {
        Ok(b) => b,
        Err(_) => {
            proof {
                assert(false);
            }
            false
        },
    };
    let principal = self_authenticating_principal(user_public_key.as_slice());
    Ok(
        LoadedIdentity {
            user_public_key,
            session_pkcs8,
            session_public_key,
            delegations,
            root_is_canister_sig,
            principal,
        },
    )
}

/// Builds the record persisted after a validated login: version 1, the
/// configured provider, both keys hexadecimal-encoded, the canonical
/// chain, and the chain's expiration.
pub fn build_stored_identity(
    session: &SessionKeyMaterial,
    user_public_key: &[u8],
    delegations: Vec<SignedDelegation>,
    expiration_ns: u64,
    created_at_ns: u64,
) -> (r: StoredIdentity)
    ensures
        r.version == 1,
        r.identity_provider@ == spec_identity_provider_url(),
        vstd::utf8::encode_utf8(r.user_public_key_hex@) =~= hexcode::spec_hex_bytes(
            user_public_key@,
        ),
        vstd::utf8::encode_utf8(r.session_pkcs8_hex@) =~= hexcode::spec_hex_bytes(session.pkcs8@),
        r.delegations == delegations,
        r.expiration_ns == expiration_ns,
        r.created_at_ns == created_at_ns,
{
    StoredIdentity {
        version: 1,
        identity_provider: String::from_str(identity_provider_url()),
        user_public_key_hex: hexcode::hex_encode(user_public_key),
        session_pkcs8_hex: hexcode::hex_encode(session.pkcs8.as_slice()),
        delegations,
        expiration_ns,
        created_at_ns,
    }
}

/// Law: a record built from canonical parts loads back unchanged. For a
/// normalized user key, a parsing session document, and a chain of
/// normalized keys, validation at any time before the expiration refuses
/// nothing and denotes exactly the parts that were stored.
pub proof fn lemma_store_roundtrip(stored: StoredIdentity, k: Seq<u8>, p: Seq<u8>, now_ns: u64)
    requires
        vstd::utf8::encode_utf8(stored.user_public_key_hex@) =~= hexcode::spec_hex_bytes(k),
        vstd::utf8::encode_utf8(stored.session_pkcs8_hex@) =~= hexcode::spec_hex_bytes(p),
        spki::spec_normalized_key(k) == Some(k),
        ed25519_public_of_pkcs8(p) is Some,
        forall|i: int|
            0 <= i < stored.delegations@.len() ==> spki::spec_normalized_key(
                #[trigger] stored.delegations@[i].delegation.pubkey@,
            ) == Some(stored.delegations@[i].delegation.pubkey@),
        now_ns < stored.expiration_ns,
    ensures
        spec_load_error(stored, now_ns) is None,
        spec_stored_user_key(stored) == k,
        spec_stored_pkcs8(stored) == p,
        spki::spec_normalized_key(spec_stored_user_key(stored)) == Some(k),
{
    hexcode::lemma_hex_roundtrip(k);
    hexcode::lemma_hex_roundtrip(p);
    assert(spec_stored_user_key(stored) =~= k);
    assert(spec_stored_pkcs8(stored) =~= p);
}

/// What the surrounding program reports of the chain's local verification.
#[derive(Clone, Copy, Debug, PartialEq, Eq, Structural)]
pub enum ChainVerificationOutcome {
    /// The chain verified locally.
    Verified,
    /// The verifier does not know the chain's algorithm.
    UnknownAlgorithm,
    /// The chain is invalid.
    Failed,
}

/// How to proceed with a loaded identity.
#[derive(Clone, Copy, Debug, PartialEq, Eq, Structural)]
pub enum LoadDecision {
    /// Use the locally verified chain.
    UseVerified,
    /// Use the chain without local verification, surfacing a visible
    /// warning that verification was skipped.
    UseUncheckedWithWarning,
}

/// Decides what to do with a loaded identity: a canister-signature root
/// key cannot be verified locally, so it proceeds with a warning rather
/// than failing; otherwise the local verifier's outcome decides, and an
/// unknown algorithm is likewise downgraded to a warning while a failed
/// chain is refused.
pub fn resolve_chain_verification(
    root_is_canister_sig: bool,
    outcome: ChainVerificationOutcome,
) -> (r: Result<LoadDecision, ChainError>)
    ensures
        root_is_canister_sig ==> r == Ok::<LoadDecision, ChainError>(
            LoadDecision::UseUncheckedWithWarning,
        ),
        !root_is_canister_sig ==> r == match outcome {
            ChainVerificationOutcome::Verified => Ok::<LoadDecision, ChainError>(
                LoadDecision::UseVerified,
            ),
            ChainVerificationOutcome::UnknownAlgorithm => Ok::<LoadDecision, ChainError>(
                LoadDecision::UseUncheckedWithWarning,
            ),
            ChainVerificationOutcome::Failed => Err::<LoadDecision, ChainError>(
                ChainError::LocalVerificationFailed,
            ),
        },
{
    if root_is_canister_sig {
        return Ok(LoadDecision::UseUncheckedWithWarning);
    }
    match outcome {
        ChainVerificationOutcome::Verified => Ok(LoadDecision::UseVerified),
        ChainVerificationOutcome::UnknownAlgorithm => Ok(LoadDecision::UseUncheckedWithWarning),
        ChainVerificationOutcome::Failed => Err(ChainError::LocalVerificationFailed),
    }
}

} // verus!
