//! One login attempt's callback state machine. A short-lived local
//! listener accepts exactly one valid callback: requests are validated in
//! order — media type, origin, nonce, the single-use key slot, decryption,
//! payload invariants — and each failure rejects the request without
//! touching later state. The single-use ephemeral key lives in a slot that
//! is taken exactly once (`Armed` to `Consumed`), and the validated result
//! is handed over exactly once, however many requests race.

use vstd::prelude::*;
use crate::httpmsg;
use crate::payload::BrowserPayload;
use crate::principal::{Principal, self_authenticating_principal, spec_self_authenticating};
use crate::spki;

verus! {

use vstd::string::StringSliceAdditionalSpecFns;

/// The ceiling on a callback body; larger requests are rejected before
/// any further validation.
pub const MAX_CALLBACK_BODY_BYTES: usize = 256 * 1024;

/// Why a callback request was rejected, each with its response status.
#[derive(Clone, Copy, Debug, PartialEq, Eq, Structural)]
pub enum Rejection {
    /// The request body is over the size ceiling.
    PayloadTooLarge,
    /// The content type is not the JSON media type.
    UnsupportedMediaType,
    /// An origin header is present and differs from the expected origin.
    InvalidOrigin,
    /// The body is not well-formed JSON of the expected shape.
    InvalidJson,
    /// The nonce differs from the one generated for this attempt.
    InvalidNonce,
    /// The single-use key slot was already consumed by an earlier request.
    AlreadyUsed,
    /// The payload did not decrypt; no finer reason is surfaced.
    DecryptionFailed,
    /// The payload's session key differs from the attempt's session key.
    SessionKeyMismatch,
    /// The payload's derivation origin differs from the expected one.
    DerivationOriginMismatch,
    /// The payload's expiration is already in the past.
    PayloadExpired,
    /// The payload's user public key is in no recognized encoding.
    InvalidPublicKey,
    /// A validated result was already handed over for this attempt.
    AlreadyCompleted,
}

impl Rejection {
    /// The HTTP status of this rejection.
    pub open spec fn spec_status_code(self) -> u16 {
        match self {
            Rejection::PayloadTooLarge => 413,
            Rejection::UnsupportedMediaType => 415,
            Rejection::InvalidOrigin => 403,
            Rejection::InvalidJson => 400,
            Rejection::InvalidNonce => 400,
            Rejection::AlreadyUsed => 409,
            Rejection::DecryptionFailed => 400,
            Rejection::SessionKeyMismatch => 400,
            Rejection::DerivationOriginMismatch => 400,
            Rejection::PayloadExpired => 400,
            Rejection::InvalidPublicKey => 400,
            Rejection::AlreadyCompleted => 400,
        }
    }

    /// The HTTP status of this rejection.
    pub fn status_code(&self) -> (r: u16)
        ensures
            r == self.spec_status_code(),
    {
        match self {
            Rejection::PayloadTooLarge => 413,
            Rejection::UnsupportedMediaType => 415,
            Rejection::InvalidOrigin => 403,
            Rejection::InvalidJson => 400,
            Rejection::InvalidNonce => 400,
            Rejection::AlreadyUsed => 409,
            Rejection::DecryptionFailed => 400,
            Rejection::SessionKeyMismatch => 400,
            Rejection::DerivationOriginMismatch => 400,
            Rejection::PayloadExpired => 400,
            Rejection::InvalidPublicKey => 400,
            Rejection::AlreadyCompleted => 400,
        }
    }
}

/// The single-use slot holding the attempt's ephemeral private key:
/// `Armed` until the first nonce-valid request takes the key, `Consumed`
/// ever after.
pub enum KeySlot {
    Armed(ring::agreement::EphemeralPrivateKey),
    Consumed,
}

impl KeySlot {
    /// Whether the key is still present.
    pub open spec fn is_armed(&self) -> bool {
        self is Armed
    }
}

/// The state of one login attempt's callback endpoint: what a valid
/// request must present, the single-use key slot, and whether a validated
/// result was already handed over.
pub struct CallbackState {
    pub expected_nonce: String,
    pub expected_session_public_key: Vec<u8>,
    pub expected_derivation_origin: String,
    pub expected_origin: String,
    pub key_slot: KeySlot,
    pub completed: bool,
}

/// The validated outcome handed to the waiting login flow: the payload and
/// the principal derived from the user's root public key.
#[derive(Debug)]
pub struct CallbackData {
    pub payload: BrowserPayload,
    pub principal: Principal,
}

/// Rejects a body over the size ceiling before anything else is looked
/// at.
pub fn check_body_size(body_len: usize) -> (r: Option<Rejection>)
    ensures
        r is Some <==> body_len > MAX_CALLBACK_BODY_BYTES,
        r is Some ==> r == Some(Rejection::PayloadTooLarge),
{
    if body_len > MAX_CALLBACK_BODY_BYTES {
        Some(Rejection::PayloadTooLarge)
    } else {
        None
    }
}

/// Decision on a request's headers: the media type must be JSON and any
/// origin header must equal the expected origin, in that order.
pub open spec fn spec_header_rejection(
    expected_origin: Seq<char>,
    content_type: Option<Seq<char>>,
    origin: Option<Seq<char>>,
) -> Option<Rejection> {
    if !(content_type matches Some(c) && httpmsg::spec_is_json_content_type(
        vstd::utf8::encode_utf8(c),
    )) {
        Some(Rejection::UnsupportedMediaType)
    } else if origin matches Some(o) && o != expected_origin {
        Some(Rejection::InvalidOrigin)
    } else {
        None
    }
}

/// Decision on taking the single-use key: the nonce must match the
/// attempt's token — a mismatch is a hard failure whatever the payload —
/// and the slot must still be armed; the first valid request wins.
pub open spec fn spec_take_rejection(armed: bool, nonce_matches: bool) -> Option<Rejection> {
    if !nonce_matches {
        Some(Rejection::InvalidNonce)
    } else if !armed {
        Some(Rejection::AlreadyUsed)
    } else {
        None
    }
}

/// Decision on a decrypted payload: its session key must equal the
/// attempt's, its derivation origin the expected one, its expiration
/// still in the future, its user key must normalize, and the result slot
/// must still be open, in that order.
pub open spec fn spec_accept_rejection(
    attempt: CallbackState,
    payload: BrowserPayload,
    now_ns: u64,
) -> Option<Rejection> {
    if payload.session_public_key@ != attempt.expected_session_public_key@ {
        Some(Rejection::SessionKeyMismatch)
    } else if payload.derivation_origin@ != attempt.expected_derivation_origin@ {
        Some(Rejection::DerivationOriginMismatch)
    } else if payload.expiration_ns <= now_ns {
        Some(Rejection::PayloadExpired)
    } else if spki::spec_normalized_key(payload.user_public_key@) is None {
        Some(Rejection::InvalidPublicKey)
    } else if attempt.completed {
        Some(Rejection::AlreadyCompleted)
    } else {
        None
    }
}

impl CallbackState {
    /// A fresh attempt: key slot armed, no result handed over yet.
    pub fn new(
        expected_nonce: String,
        expected_session_public_key: Vec<u8>,
        expected_derivation_origin: String,
        expected_origin: String,
        box_private_key: ring::agreement::EphemeralPrivateKey,
    ) -> (r: CallbackState)
        ensures
            r.expected_nonce@ == expected_nonce@,
            r.expected_session_public_key@ == expected_session_public_key@,
            r.expected_derivation_origin@ == expected_derivation_origin@,
            r.expected_origin@ == expected_origin@,
            r.key_slot.is_armed(),
            !r.completed,
    {
        CallbackState {
            expected_nonce,
            expected_session_public_key,
            expected_derivation_origin,
            expected_origin,
            key_slot: KeySlot::Armed(box_private_key),
            completed: false,
        }
    }

    /// Validates a request's headers; touches no state.
    pub fn check_headers(&self, content_type: Option<&str>, origin: Option<&str>) -> (r: Option<
        Rejection,
    >)
        ensures
            r == spec_header_rejection(
                self.expected_origin@,
                match content_type {
                    Some(c) => Some(c@),
                    None => None,
                },
                match origin {
                    Some(o) => Some(o@),
                    None => None,
                },
            ),
    {
        let json_ok = match content_type {
            Some(c) => httpmsg::is_json_content_type(c),
            None => false,
        };
        if !json_ok {
            return Some(Rejection::UnsupportedMediaType);
        }
        match origin {
            Some(o) => {
                if !str_eq(o, self.expected_origin.as_str()) {
                    Some(Rejection::InvalidOrigin)
                } else {
                    None
                }
            },
            None => None,
        }
    }

    /// Takes the single-use private key for a request carrying the given
    /// nonce. A wrong nonce is rejected before the slot is looked at; the
    /// first matching request consumes the key and every later one, even a
    /// structurally identical one, is rejected as already used.
    pub fn take_key(&mut self, nonce: &str) -> (r: Result<
        ring::agreement::EphemeralPrivateKey,
        Rejection,
    >)
        ensures
            r is Ok <==> spec_take_rejection(old(self).key_slot.is_armed(), nonce@
                == old(self).expected_nonce@) is None,
            r matches Err(e) ==> Some(e) == spec_take_rejection(
                old(self).key_slot.is_armed(),
                nonce@ == old(self).expected_nonce@,
            ),
            r is Ok ==> !final(self).key_slot.is_armed(),
            r is Err ==> final(self).key_slot.is_armed() == old(self).key_slot.is_armed(),
            final(self).expected_nonce@ == old(self).expected_nonce@,
            final(self).expected_session_public_key@ == old(self).expected_session_public_key@,
            final(self).expected_derivation_origin@ == old(self).expected_derivation_origin@,
            final(self).expected_origin@ == old(self).expected_origin@,
            final(self).completed == old(self).completed,
    {
        if !str_eq(nonce, self.expected_nonce.as_str()) {
            return Err(Rejection::InvalidNonce);
        }
        let mut slot = KeySlot::Consumed;
        core::mem::swap(&mut slot, &mut self.key_slot);
        match slot {
            KeySlot::Armed(key) => Ok(key),
            KeySlot::Consumed => Err(Rejection::AlreadyUsed),
        }
    }

    /// Accepts a decrypted payload: checks it against the attempt and the
    /// current time, derives the principal from the user's root public
    /// key, and hands the result over — at most once per attempt.
    pub fn accept_payload(&mut self, payload: BrowserPayload, now_ns: u64) -> (r: Result<
        CallbackData,
        Rejection,
    >)
        ensures
            r is Ok <==> spec_accept_rejection(*old(self), payload, now_ns) is None,
            r matches Err(e) ==> Some(e) == spec_accept_rejection(*old(self), payload, now_ns),
            r is Ok ==> final(self).completed,
            r matches Ok(d) ==> Some(d.principal.bytes@) == spec_derived_principal(
                payload.user_public_key@,
            ) && d.payload == payload,
            r is Err ==> final(self).completed == old(self).completed,
            final(self).expected_nonce@ == old(self).expected_nonce@,
            final(self).expected_session_public_key@ == old(self).expected_session_public_key@,
            final(self).expected_derivation_origin@ == old(self).expected_derivation_origin@,
            final(self).expected_origin@ == old(self).expected_origin@,
            final(self).key_slot.is_armed() == old(self).key_slot.is_armed(),
    {
        if !crate::chain::bytes_equal(
            payload.session_public_key.as_slice(),
            self.expected_session_public_key.as_slice(),
        ) {
            return Err(Rejection::SessionKeyMismatch);
        }
        if !str_eq(payload.derivation_origin.as_str(), self.expected_derivation_origin.as_str()) {
            return Err(Rejection::DerivationOriginMismatch);
        }
        if payload.expiration_ns <= now_ns {
            return Err(Rejection::PayloadExpired);
        }
        let principal = match derive_principal_from_user_key(payload.user_public_key.as_slice()) {
            Ok(p) => p,
            Err(_) => {
                return Err(Rejection::InvalidPublicKey);
            },
        };
        if self.completed {
            return Err(Rejection::AlreadyCompleted);
        }
        self.completed = true;
        Ok(CallbackData { payload, principal })
    }
}

/// The principal derived from an externally supplied root public key: the
/// self-authenticating principal of the normalized key, or nothing when
/// the key is in no recognized encoding.
pub open spec fn spec_derived_principal(user_key: Seq<u8>) -> Option<Seq<u8>> {
    match spki::spec_normalized_key(user_key) {
        Some(k) => Some(spec_self_authenticating(k)),
        None => None,
    }
}

/// Derives the principal identifier from an externally supplied root
/// public key, normalizing the key first; deterministic in the key bytes.
pub fn derive_principal_from_user_key(user_public_key: &[u8]) -> (r: Result<
    Principal,
    spki::KeyError,
>)
    ensures
        r is Ok <==> spec_derived_principal(user_public_key@) is Some,
        r matches Ok(p) ==> Some(p.bytes@) == spec_derived_principal(user_public_key@) && p.wf(),
{
    let normalized = match spki::normalize_spki_key(user_public_key) {
        Ok(v) => v,
        Err(e) => {
            return Err(e);
        },
    };
    Ok(self_authenticating_principal(normalized.as_slice()))
}

/// String equality by view.
pub fn str_eq(a: &str, b: &str) -> (r: bool)
    ensures
        r == (a@ == b@),
{
    let av = a.as_bytes();
    let bv = b.as_bytes();
    let r = crate::chain::bytes_equal(av, bv);
    proof {
        vstd::utf8::encode_utf8_decode_utf8(a@);
        vstd::utf8::encode_utf8_decode_utf8(b@);
    }
    r
}

/// Law: at most one request per attempt takes the single-use key. If two
/// requests are decided one after the other — whatever their nonces and
/// whatever lies between — they cannot both succeed: the first success
/// disarms the slot and nothing re-arms it.
pub proof fn lemma_key_taken_once(
    armed0: bool,
    armed1: bool,
    ok1: bool,
    nonce1: bool,
    ok2: bool,
    nonce2: bool,
)
    requires
        ok1 <==> spec_take_rejection(armed0, nonce1) is None,
        ok1 ==> !armed1,
        !ok1 ==> armed1 == armed0,
        ok2 <==> spec_take_rejection(armed1, nonce2) is None,
    ensures
        !(ok1 && ok2),
{
}

/// Law: at most one callback is accepted per attempt. Acceptance sets the
/// completion mark, every later structurally valid payload is rejected as
/// already completed, so two sequential acceptances are impossible.
pub proof fn lemma_single_acceptance(
    s0: CallbackState,
    s1: CallbackState,
    s2: CallbackState,
    p1: BrowserPayload,
    p2: BrowserPayload,
    now1: u64,
    now2: u64,
    ok1: bool,
    ok2: bool,
)
    requires
        ok1 <==> spec_accept_rejection(s0, p1, now1) is None,
        ok1 ==> s1.completed,
        !ok1 ==> s1.completed == s0.completed,
        s1.expected_session_public_key@ == s0.expected_session_public_key@,
        s1.expected_derivation_origin@ == s0.expected_derivation_origin@,
        ok2 <==> spec_accept_rejection(s1, p2, now2) is None,
    ensures
        !(ok1 && ok2),
{
}

/// Law: a callback whose nonce differs from the attempt's token is always
/// rejected as an invalid nonce, whatever the slot state and whatever the
/// payload — the decision never reads the payload at all.
pub proof fn lemma_nonce_mismatch_always_rejected(armed: bool)
    ensures
        spec_take_rejection(armed, false) == Some(Rejection::InvalidNonce),
{
}

} // verus!
