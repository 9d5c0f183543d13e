//! Session key material and the random tokens of a login attempt. Key
//! generation draws from the system's secure random source through an
//! outside crate; everything derived from the drawn bytes is verified.

use vstd::prelude::*;
use crate::hexcode;
use crate::spki;

verus! {

/// Why key material could not be produced.
#[derive(Clone, Copy, Debug, PartialEq, Eq, Structural)]
pub enum KeygenError {
    /// The secure random source failed; fatal to the login attempt.
    RandomFailure,
    /// A freshly generated private-key document failed to parse back.
    InvalidKey,
}

/// The raw Ed25519 public key contained in a PKCS#8 private-key document,
/// or `None` when the document does not parse. The value is a function of
/// the document bytes alone; it is computed by an outside crate.
pub uninterp spec fn ed25519_public_of_pkcs8(p: Seq<u8>) -> Option<Seq<u8>>;

/// Relies on `ring::rand::SystemRandom` and `SecureRandom::fill`: on
/// success the buffer is filled, so exactly 32 bytes come back; nothing is
/// promised of their values.
#[verifier::external_body]
fn fill_random_32() -> (r: Result<Vec<u8>, ()>)
    ensures
        r matches Ok(v) ==> v@.len() == 32,
{
    let rng = ring::rand::SystemRandom::new();
    let mut bytes = [0u8; 32];
    match ring::rand::SecureRandom::fill(&rng, &mut bytes) {
        Ok(()) => Ok(bytes.to_vec()),
        Err(_) => Err(()),
    }
}

/// Relies on `ring::signature::Ed25519KeyPair::generate_pkcs8`: a freshly
/// generated document is a well-formed PKCS#8 v2 document that
/// `from_pkcs8` accepts, so its public key is defined.
#[verifier::external_body]
fn ed25519_generate_pkcs8() -> (r: Result<Vec<u8>, ()>)
    ensures
        r matches Ok(d) ==> ed25519_public_of_pkcs8(d@) is Some,
{
    let rng = ring::rand::SystemRandom::new();
    match ring::signature::Ed25519KeyPair::generate_pkcs8(&rng) {
        Ok(doc) => Ok(doc.as_ref().to_vec()),
        Err(_) => Err(()),
    }
}

/// Relies on `ring::signature::Ed25519KeyPair::from_pkcs8` and the
/// `KeyPair::public_key` accessor: parsing succeeds exactly when the
/// document's public key is defined, and an Ed25519 public key is 32 bytes.
#[verifier::external_body]
pub(crate) fn ed25519_public_from_pkcs8(p: &[u8]) -> (r: Result<Vec<u8>, ()>)
    ensures
        r is Ok <==> ed25519_public_of_pkcs8(p@) is Some,
        r matches Ok(v) ==> ed25519_public_of_pkcs8(p@) == Some(v@) && v@.len() == 32,
{
    match ring::signature::Ed25519KeyPair::from_pkcs8(p) {
        Ok(kp) => Ok(ring::signature::KeyPair::public_key(&kp).as_ref().to_vec()),
        Err(_) => Err(()),
    }
}

/// An asymmetric signing keypair generated fresh per login: the PKCS#8
/// private-key document and the session public key in structured form.
#[derive(Debug)]
pub struct SessionKeyMaterial {
    pub pkcs8: Vec<u8>,
    pub public_key: Vec<u8>,
}

impl SessionKeyMaterial {
    /// The public key is the structured encoding of exactly the raw key
    /// contained in the private-key document.
    pub open spec fn wf(&self) -> bool {
        &&& ed25519_public_of_pkcs8(self.pkcs8@) is Some
        &&& ed25519_public_of_pkcs8(self.pkcs8@).unwrap().len() == 32
        &&& self.public_key@ == spki::spec_ed25519_spki(
            ed25519_public_of_pkcs8(self.pkcs8@).unwrap(),
        )
    }
}

/// Generates the session signing keypair for one login attempt. The only
/// error paths are a failing random source and a document that does not
/// parse back, both fatal.
pub fn generate_session_key() -> (r: Result<SessionKeyMaterial, KeygenError>)
    ensures
        r matches Ok(m) ==> m.wf() && m.public_key@.len() == 44,
{
    let pkcs8 = match ed25519_generate_pkcs8() {
        Ok(d) => d,
        Err(_) => {
            return Err(KeygenError::RandomFailure);
        },
    };
    let raw = match ed25519_public_from_pkcs8(pkcs8.as_slice()) {
        Ok(v) => v,
        Err(_) => {
            return Err(KeygenError::InvalidKey);
        },
    };
    let public_key = spki::ed25519_spki(raw.as_slice());
    Ok(SessionKeyMaterial { pkcs8, public_key })
}

/// Generates the random nonce/state token of one login attempt: 32 random
/// bytes, hexadecimal-encoded, so 64 lowercase hexadecimal characters.
pub fn generate_nonce_hex() -> (r: Result<String, KeygenError>)
    ensures
        r matches Ok(s) ==> s@.len() == 64 && hexcode::spec_hex_valid(
            vstd::utf8::encode_utf8(s@),
        ),
{
    let bytes = match fill_random_32() {
        Ok(v) => v,
        Err(_) => {
            return Err(KeygenError::RandomFailure);
        },
    };
    let s = hexcode::hex_encode(bytes.as_slice());
    proof {
        hexcode::lemma_hex_roundtrip(bytes@);
    }
    Ok(s)
}

} // verus!
