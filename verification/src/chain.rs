//! The delegation chain: provider-supplied records are converted into the
//! canonical chain format. Every record's public key must normalize to the
//! session public key generated for the attempt, textual targets become
//! principal identifiers, and the chain's effective expiration is the
//! minimum expiration over its entries — the chain is only as long-lived
//! as its shortest-lived link.

use vstd::prelude::*;
use crate::payload::BrowserSignedDelegation;
use crate::principal::{Principal, principal_from_text, spec_principal_of_text};
use crate::spki;

verus! {

/// Why a delegation chain was rejected.
#[derive(Clone, Copy, Debug, PartialEq, Eq, Structural)]
pub enum ChainError {
    /// A record's public key is in no recognized encoding.
    UnsupportedDelegationKey,
    /// A record's normalized public key differs from the session key.
    DelegationKeyMismatch,
    /// A textual target is not a well-formed principal identifier.
    InvalidTargetPrincipal,
    /// A chain holds at least one record.
    EmptyChain,
    /// The chain failed local cryptographic verification.
    LocalVerificationFailed,
}

/// One delegation in canonical form: the delegated public key in
/// structured encoding, the expiration in nanoseconds, and the optional
/// target principals.
#[derive(Debug)]
pub struct Delegation {
    pub pubkey: Vec<u8>,
    pub expiration: u64,
    pub targets: Option<Vec<Principal>>,
}

/// One canonical delegation with the provider's signature over it.
#[derive(Debug)]
pub struct SignedDelegation {
    pub delegation: Delegation,
    pub signature: Vec<u8>,
}

/// Whether a provider-supplied record is acceptable against the expected
/// session public key: its key normalizes to exactly that key and every
/// textual target parses.
pub open spec fn spec_entry_ok(e: BrowserSignedDelegation, expected: Seq<u8>) -> bool {
    &&& spki::spec_normalized_key(e.delegation.pubkey@) == Some(expected)
    &&& (e.delegation.targets matches Some(l) ==> forall|j: int|
        0 <= j < l@.len() ==> #[trigger] spec_principal_of_text(l@[j]@) is Some)
}

/// How a converted record relates to its source: same expiration and
/// signature, the expected key, and targets parsed element for element.
pub open spec fn spec_entry_converted(
    out: SignedDelegation,
    e: BrowserSignedDelegation,
    expected: Seq<u8>,
) -> bool {
    &&& out.delegation.pubkey@ == expected
    &&& out.delegation.expiration == e.delegation.expiration
    &&& out.signature@ == e.signature@
    &&& (out.delegation.targets is Some <==> e.delegation.targets is Some)
    &&& (e.delegation.targets matches Some(l) ==> {
        let got = out.delegation.targets.unwrap();
        &&& got@.len() == l@.len()
        &&& forall|j: int|
            0 <= j < l@.len() ==> Some(#[trigger] got@[j].bytes@) == spec_principal_of_text(
                l@[j]@,
            )
    })
}

/// Converts provider-supplied records into the canonical chain, rejecting
/// the whole chain if any record's normalized key differs from the
/// expected session key or any target fails to parse.
#[verifier::loop_isolation(false)]
pub fn convert_delegations(entries: Vec<BrowserSignedDelegation>, expected_pubkey: &[u8]) -> (r:
    Result<Vec<SignedDelegation>, ChainError>)
    ensures
        r is Ok <==> forall|i: int|
            0 <= i < entries@.len() ==> #[trigger] spec_entry_ok(entries@[i], expected_pubkey@),
        r matches Ok(v) ==> v@.len() == entries@.len() && forall|i: int|
            0 <= i < entries@.len() ==> #[trigger] spec_entry_converted(
                v@[i],
                entries@[i],
                expected_pubkey@,
            ),
        r == Err::<Vec<SignedDelegation>, ChainError>(ChainError::UnsupportedDelegationKey)
            ==> exists|i: int|
            0 <= i < entries@.len() && spki::spec_normalized_key(
                #[trigger] entries@[i].delegation.pubkey@,
            ) is None,
        r == Err::<Vec<SignedDelegation>, ChainError>(ChainError::DelegationKeyMismatch)
            ==> exists|i: int|
            0 <= i < entries@.len() && (spki::spec_normalized_key(
                #[trigger] entries@[i].delegation.pubkey@,
            ) matches Some(k) && k != expected_pubkey@),
        r == Err::<Vec<SignedDelegation>, ChainError>(ChainError::InvalidTargetPrincipal)
            ==> exists|i: int, j: int|
            0 <= i < entries@.len() && entries@[i].delegation.targets is Some && 0 <= j
                < entries@[i].delegation.targets.unwrap()@.len() && #[trigger]
            spec_principal_of_text(entries@[i].delegation.targets.unwrap()@[j]@) is None,
        r is Err ==> (r == Err::<Vec<SignedDelegation>, ChainError>(
            ChainError::UnsupportedDelegationKey,
        ) || r == Err::<Vec<SignedDelegation>, ChainError>(ChainError::DelegationKeyMismatch) || r
            == Err::<Vec<SignedDelegation>, ChainError>(ChainError::InvalidTargetPrincipal)),
{
    let ghost entries_seq = entries@;
    let mut out: Vec<SignedDelegation> = Vec::new();
    let mut remaining = entries;
    let mut idx: usize = 0;
    let n = remaining.len();
    while idx < n
        invariant
            remaining@ =~= entries_seq.skip(idx as int),
            n == entries_seq.len(),
            idx <= n,
            out@.len() == idx,
            forall|i: int| 0 <= i < idx ==> #[trigger] spec_entry_ok(entries_seq[i],
                expected_pubkey@,
            ),
            forall|i: int| 0 <= i < idx ==> #[trigger] spec_entry_converted(
                out@[i],
                entries_seq[i],
                expected_pubkey@,
            ),
        decreases n - idx,
    {
        let entry = remaining.remove(0);
        proof {
            assert(entry == entries_seq[idx as int]);
            assert(remaining@ =~= entries_seq.skip(idx as int + 1));
        }
        let normalized = match spki::normalize_spki_key(entry.delegation.pubkey.as_slice()) {
            Ok(v) => v,
            Err(_) => {
                proof {
                    assert(spki::spec_normalized_key(entries_seq[idx as int].delegation.pubkey@)
                        is None);
                    assert(!spec_entry_ok(entries_seq[idx as int], expected_pubkey@));
                }
                return Err(ChainError::UnsupportedDelegationKey);
            },
        };
        if !bytes_equal(normalized.as_slice(), expected_pubkey) {
            proof {
                assert(spki::spec_normalized_key(entries_seq[idx as int].delegation.pubkey@)
                    == Some(normalized@));
                assert(normalized@ != expected_pubkey@);
                assert(!spec_entry_ok(entries_seq[idx as int], expected_pubkey@));
            }
            return Err(ChainError::DelegationKeyMismatch);
        }
        let targets: Option<Vec<Principal>> = match entry.delegation.targets {
            Some(list) => {
                let ghost list_seq = list@;
                match convert_targets(list) {
                    Ok(ps) => Some(ps),
                    Err(e) => {
                        proof {
                            let j = choose|j: int|
                                0 <= j < list_seq.len() && spec_principal_of_text(
                                    #[trigger] list_seq[j]@,
                                ) is None;
                            assert(entries_seq[idx as int].delegation.targets.unwrap()@
                                == list_seq);
                            assert(0 <= j < entries_seq[idx as int].delegation.targets.unwrap()@
                                .len() && spec_principal_of_text(
                                entries_seq[idx as int].delegation.targets.unwrap()@[j]@,
                            ) is None);
                            assert(!spec_entry_ok(entries_seq[idx as int], expected_pubkey@));
                        }
                        return Err(e);
                    },
                }
            },
            None => None,
        };
        out.push(
            SignedDelegation {
                delegation: Delegation {
                    pubkey: normalized,
                    expiration: entry.delegation.expiration,
                    targets,
                },
                signature: entry.signature,
            },
        );
        idx = idx + 1;
    }
    proof {
        assert(forall|i: int| 0 <= i < entries_seq.len() ==> #[trigger] spec_entry_ok(
            entries_seq[i],
            expected_pubkey@,
        ));
    }
    Ok(out)
}

/// Parses each textual target into a principal identifier.
fn convert_targets(list: Vec<String>) -> (r: Result<Vec<Principal>, ChainError>)
    ensures
        r is Ok <==> forall|j: int|
            0 <= j < list@.len() ==> #[trigger] spec_principal_of_text(list@[j]@) is Some,
        r matches Ok(ps) ==> ps@.len() == list@.len() && forall|j: int|
            0 <= j < list@.len() ==> Some(#[trigger] ps@[j].bytes@) == spec_principal_of_text(
                list@[j]@,
            ),
        r is Err ==> r == Err::<Vec<Principal>, ChainError>(ChainError::InvalidTargetPrincipal)
            && exists|j: int|
            0 <= j < list@.len() && spec_principal_of_text(#[trigger] list@[j]@) is None,
{
    let mut ps: Vec<Principal> = Vec::new();
    let mut j: usize = 0;
    while j < list.len()
        invariant
            j <= list@.len(),
            ps@.len() == j,
            forall|k: int| 0 <= k < j ==> Some(#[trigger] ps@[k].bytes@) == spec_principal_of_text(
                list@[k]@,
            ),
        decreases list@.len() - j,
    {
        let p = match principal_from_text(list[j].as_str()) {
            Ok(p) => p,
            Err(_) => {
                proof {
                    assert(spec_principal_of_text(list@[j as int]@) is None);
                }
                return Err(ChainError::InvalidTargetPrincipal);
            },
        };
        ps.push(p);
        j = j + 1;
    }
    proof {
        assert forall|k: int| 0 <= k < list@.len() implies #[trigger] spec_principal_of_text(
            list@[k]@,
        ) is Some by {
            assert(Some(ps@[k].bytes@) == spec_principal_of_text(list@[k]@));
        }
    }
    Ok(ps)
}

/// Re-normalizes the public key of every entry of a stored chain, keeping
/// expiration, targets and signature; rejects a chain holding a key in no
/// recognized encoding.
#[verifier::loop_isolation(false)]
pub fn normalize_delegations(entries: Vec<SignedDelegation>) -> (r: Result<
    Vec<SignedDelegation>,
    ChainError,
>)
    ensures
        r is Ok <==> forall|i: int|
            0 <= i < entries@.len() ==> spki::spec_normalized_key(
                #[trigger] entries@[i].delegation.pubkey@,
            ) is Some,
        r matches Ok(v) ==> v@.len() == entries@.len() && forall|i: int|
            0 <= i < entries@.len() ==> (Some(#[trigger] v@[i].delegation.pubkey@)
                == spki::spec_normalized_key(entries@[i].delegation.pubkey@)
                && v@[i].delegation.expiration == entries@[i].delegation.expiration
                && v@[i].delegation.targets == entries@[i].delegation.targets && v@[i].signature@
                == entries@[i].signature@),
        r is Err ==> r == Err::<Vec<SignedDelegation>, ChainError>(
            ChainError::UnsupportedDelegationKey,
        ),
{
    let ghost entries_seq = entries@;
    let mut out: Vec<SignedDelegation> = Vec::new();
    let mut remaining = entries;
    let mut idx: usize = 0;
    let n = remaining.len();
    while idx < n
        invariant
            remaining@ =~= entries_seq.skip(idx as int),
            n == entries_seq.len(),
            idx <= n,
            out@.len() == idx,
            forall|i: int| 0 <= i < idx ==> spki::spec_normalized_key(
                #[trigger] entries_seq[i].delegation.pubkey@,
            ) is Some,
            forall|i: int| 0 <= i < idx ==> (Some(#[trigger] out@[i].delegation.pubkey@)
                == spki::spec_normalized_key(entries_seq[i].delegation.pubkey@)
                && out@[i].delegation.expiration == entries_seq[i].delegation.expiration
                && out@[i].delegation.targets == entries_seq[i].delegation.targets
                && out@[i].signature@ == entries_seq[i].signature@),
        decreases n - idx,
    {
        let entry = remaining.remove(0);
        proof {
            assert(entry == entries_seq[idx as int]);
            assert(remaining@ =~= entries_seq.skip(idx as int + 1));
        }
        let pubkey = match spki::normalize_spki_key(entry.delegation.pubkey.as_slice()) {
            Ok(v) => v,
            Err(_) => {
                return Err(ChainError::UnsupportedDelegationKey);
            },
        };
        out.push(
            SignedDelegation {
                delegation: Delegation {
                    pubkey,
                    expiration: entry.delegation.expiration,
                    targets: entry.delegation.targets,
                },
                signature: entry.signature,
            },
        );
        idx = idx + 1;
    }
    Ok(out)
}

/// Byte-for-byte equality of two byte strings.
pub fn bytes_equal(a: &[u8], b: &[u8]) -> (r: bool)
    ensures
        r == (a@ =~= b@),
{
    if a.len() != b.len() {
        return false;
    }
    let mut i: usize = 0;
    while i < a.len()
        invariant
            a@.len() == b@.len(),
            i <= a@.len(),
            forall|j: int| 0 <= j < i ==> a@[j] == b@[j],
        decreases a@.len() - i,
    {
        if a[i] != b[i] {
            return false;
        }
        i = i + 1;
    }
    true
}

/// The chain's effective expiration: the minimum `expiration` over all
/// entries; an empty chain has none.
pub fn delegation_expiration(entries: &[SignedDelegation]) -> (r: Result<u64, ChainError>)
    ensures
        r is Ok <==> entries@.len() >= 1,
        r matches Ok(v) ==> (exists|i: int|
            0 <= i < entries@.len() && #[trigger] entries@[i].delegation.expiration == v) && forall|
            i: int,
        | 0 <= i < entries@.len() ==> v <= #[trigger] entries@[i].delegation.expiration,
        r is Err ==> r == Err::<u64, ChainError>(ChainError::EmptyChain),
{
    if entries.len() == 0 {
        return Err(ChainError::EmptyChain);
    }
    let mut min: u64 = entries[0].delegation.expiration;
    let mut i: usize = 1;
    while i < entries.len()
        invariant
            1 <= i <= entries@.len(),
            exists|j: int| 0 <= j < i && #[trigger] entries@[j].delegation.expiration == min,
            forall|j: int| 0 <= j < i ==> min <= #[trigger] entries@[j].delegation.expiration,
        decreases entries@.len() - i,
    {
        if entries[i].delegation.expiration < min {
            min = entries[i].delegation.expiration;
        }
        i = i + 1;
    }
    Ok(min)
}

} // verus!
