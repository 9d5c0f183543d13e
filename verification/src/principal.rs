//! Principal identifiers: the stable caller identity derived from a public
//! key. A principal is at most 29 bytes; the self-authenticating form is a
//! 28-byte hash of the public key followed by a tag byte. Hashing and the
//! textual form's checksummed base-32 grammar belong to an outside crate;
//! this module holds the bytes and the decisions made over them.

use vstd::prelude::*;

verus! {

/// A principal identifier: an opaque byte string of at most 29 bytes.
#[derive(Clone, Debug)]
pub struct Principal {
    pub bytes: Vec<u8>,
}

impl Principal {
    /// A principal holds at most 29 bytes.
    pub open spec fn wf(&self) -> bool {
        self.bytes@.len() <= 29
    }

    /// The anonymous principal: the single tag byte 4.
    pub fn anonymous() -> (r: Principal)
        ensures
            r.wf(),
            r.bytes@ =~= seq![0x04u8],
    {
        let mut bytes: Vec<u8> = Vec::new();
        bytes.push(0x04);
        Principal { bytes }
    }
}

/// The bytes of the self-authenticating principal of a public key: a
/// 28-byte digest of the key followed by the self-authenticating tag. The
/// digest is a function of the key bytes alone; it is computed by an
/// outside crate.
pub uninterp spec fn spec_self_authenticating(key: Seq<u8>) -> Seq<u8>;

/// The principal bytes denoted by a textual identifier, or `None` when the
/// text is not a well-formed, checksummed principal literal. The value is
/// a function of the text alone; it is decided by an outside crate.
pub uninterp spec fn spec_principal_of_text(s: Seq<char>) -> Option<Seq<u8>>;

/// Relies on `candid::Principal::self_authenticating`: the result is the
/// 28-byte SHA-224 digest of the key followed by the tag byte, 29 bytes in
/// all, a deterministic function of the key bytes.
#[verifier::external_body]
pub(crate) fn self_authenticating_principal(key: &[u8]) -> (r: Principal)
    ensures
        r.bytes@ == spec_self_authenticating(key@),
        r.bytes@.len() == 29,
        r.wf(),
{
    let p = candid::Principal::self_authenticating(key);
    Principal { bytes: p.as_slice().to_vec() }
}

/// Relies on `candid::Principal::from_text`: it accepts exactly the
/// well-formed textual identifiers, and the decoded value is at most 29
/// bytes.
#[verifier::external_body]
pub(crate) fn principal_from_text(s: &str) -> (r: Result<Principal, ()>)
    ensures
        r is Ok <==> spec_principal_of_text(s@) is Some,
        r matches Ok(p) ==> p.bytes@ == spec_principal_of_text(s@).unwrap() && p.wf(),
{
    match candid::Principal::from_text(s) {
        Ok(p) => Ok(Principal { bytes: p.as_slice().to_vec() }),
        Err(_) => Err(()),
    }
}

} // verus!
