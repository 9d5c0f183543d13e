//! Public-key encodings. A key arrives either as a structured,
//! algorithm-tagged DER `SubjectPublicKeyInfo` document or as a raw 32-byte
//! Ed25519 point; every externally supplied key is normalized to the
//! structured form before any comparison or use. The DER structure checker
//! is written and verified here; only the curve-point validity test relies
//! on an outside crate.

use vstd::prelude::*;

verus! {

/// Why a public key was rejected.
#[derive(Clone, Copy, Debug, PartialEq, Eq, Structural)]
pub enum KeyError {
    /// 32 bytes long but not a valid Ed25519 point encoding.
    InvalidRawKey,
    /// Neither a DER subject-public-key-info document nor 32 bytes long.
    UnknownEncoding,
}

/// DER tag-length-value triple parsed at `pos`, limited to `end`: the tag
/// byte and the content bounds. `None` when no well-formed triple with a
/// definite, minimally encoded length fits.
pub open spec fn spec_tlv(b: Seq<u8>, pos: int, end: int) -> Option<(u8, int, int)>
    recommends
        0 <= pos,
        end <= b.len(),
{
    if pos + 2 > end {
        None
    } else {
        let tag = b[pos];
        let l0 = b[pos + 1];
        if l0 < 0x80 {
            if pos + 2 + l0 > end {
                None
            } else {
                Some((tag, pos + 2, pos + 2 + l0))
            }
        } else if l0 == 0x80 {
            None
        } else {
            let n = l0 - 0x80;
            if n > 4 || pos + 2 + n > end {
                None
            } else if b[pos + 2] == 0 || (n == 1 && b[pos + 2] < 0x80) {
                None
            } else {
                let len = spec_be_value(b, pos + 2, n as int);
                if pos + 2 + n + len > end {
                    None
                } else {
                    Some((tag, pos + 2 + n, pos + 2 + n + len))
                }
            }
        }
    }
}

/// Big-endian value of the `n` bytes starting at `pos`.
pub open spec fn spec_be_value(b: Seq<u8>, pos: int, n: int) -> int
    recommends
        0 <= pos,
        0 <= n,
        pos + n <= b.len(),
    decreases n,
{
    if n <= 0 {
        0
    } else {
        spec_be_value(b, pos, n - 1) * 256 + b[pos + n - 1]
    }
}

/// Whether `b` is, in full, a DER subject-public-key-info document:
/// a sequence holding an algorithm-identifier sequence (an object
/// identifier followed by optional parameters) and a bit string.
pub open spec fn spec_is_spki(b: Seq<u8>) -> bool {
    spec_tlv(b, 0, b.len() as int) matches Some((0x30u8, cs, ce)) && ce == b.len()
        && (spec_tlv(b, cs, ce) matches Some((0x30u8, alg_s, alg_e))
        && (spec_tlv(b, alg_s, alg_e) matches Some((0x06u8, oid_s, oid_e)) && oid_e - oid_s >= 1
        && b[oid_e - 1] < 0x80 && (oid_e == alg_e || (spec_tlv(b, oid_e, alg_e) matches Some((
        _,
        _,
        p_e,
    )) && p_e == alg_e)) && (spec_tlv(b, alg_e, ce) matches Some((0x03u8, bit_s, bit_e))
        && bit_e == ce && bit_e - bit_s >= 1 && b[bit_s] < 8)))
}

/// The content bytes of the algorithm object identifier of a DER
/// subject-public-key-info document.
pub open spec fn spec_spki_alg_oid(b: Seq<u8>) -> Option<Seq<u8>>
    recommends
        spec_is_spki(b),
{
    if spec_is_spki(b) {
        let (_, cs, ce) = spec_tlv(b, 0, b.len() as int).unwrap();
        let (_, alg_s, alg_e) = spec_tlv(b, cs, ce).unwrap();
        let (_, oid_s, oid_e) = spec_tlv(b, alg_s, alg_e).unwrap();
        Some(b.subrange(oid_s, oid_e))
    } else {
        None
    }
}

/// Parses one DER tag-length-value triple at `pos`, limited to `end`.
fn parse_tlv(b: &[u8], pos: usize, end: usize) -> (r: Option<(u8, usize, usize)>)
    requires
        pos <= end <= b@.len(),
    ensures
        r is Some <==> spec_tlv(b@, pos as int, end as int) is Some,
        r matches Some((tag, cs, ce)) ==> spec_tlv(b@, pos as int, end as int) == Some(
            (tag, cs as int, ce as int),
        ) && pos <= cs <= ce <= end,
{
    if end - pos < 2 {
        return None;
    }
    let tag = b[pos];
    let l0 = b[pos + 1];
    if l0 < 0x80 {
        if (l0 as usize) > end - pos - 2 {
            None
        } else {
            Some((tag, pos + 2, pos + 2 + l0 as usize))
        }
    } else if l0 == 0x80 {
        None
    } else {
        let n = (l0 - 0x80) as usize;
        if n > 4 || n > end - pos - 2 {
            return None;
        }
        if b[pos + 2] == 0 || (n == 1 && b[pos + 2] < 0x80) {
            return None;
        }
        let mut len: u64 = 0;
        let mut i: usize = 0;
        while i < n
            invariant
                i <= n <= 4,
                pos + 2 + n <= end <= b@.len(),
                len == spec_be_value(b@, pos + 2, i as int),
                len < 0x1_0000_0000u64,
            decreases n - i,
        {
            assert(len <= 0xff_ff_ffu64) by {
                assert(i <= 3);
                lemma_be_value_bound(b@, pos + 2, i as int);
            }
            len = len * 256 + b[pos + 2 + i] as u64;
            i = i + 1;
        }
        if len > (end - pos - 2 - n) as u64 {
            None
        } else {
            Some((tag, pos + 2 + n, pos + 2 + n + len as usize))
        }
    }
}

/// The big-endian value of `n` bytes is below `256^n`.
proof fn lemma_be_value_bound(b: Seq<u8>, pos: int, n: int)
    requires
        0 <= n <= 4,
    ensures
        n == 0 ==> spec_be_value(b, pos, n) == 0,
        n == 1 ==> spec_be_value(b, pos, n) < 0x100,
        n == 2 ==> spec_be_value(b, pos, n) < 0x1_0000,
        n == 3 ==> spec_be_value(b, pos, n) < 0x100_0000,
        n == 4 ==> spec_be_value(b, pos, n) < 0x1_0000_0000,
        spec_be_value(b, pos, n) >= 0,
    decreases n,
{
    if n > 0 {
        lemma_be_value_bound(b, pos, n - 1);
    }
}

/// Whether `b` is, in full, a DER subject-public-key-info document.
pub fn is_spki(b: &[u8]) -> (r: bool)
    ensures
        r == spec_is_spki(b@),
{
    let end = b.len();
    let outer = match parse_tlv(b, 0, end) {
        Some(t) => t,
        None => {
            return false;
        },
    };
    if outer.0 != 0x30 || outer.2 != end {
        return false;
    }
    let alg = match parse_tlv(b, outer.1, outer.2) {
        Some(t) => t,
        None => {
            return false;
        },
    };
    if alg.0 != 0x30 {
        return false;
    }
    let oid = match parse_tlv(b, alg.1, alg.2) {
        Some(t) => t,
        None => {
            return false;
        },
    };
    if oid.0 != 0x06 || oid.2 == oid.1 || b[oid.2 - 1] >= 0x80 {
        return false;
    }
    if oid.2 != alg.2 {
        let params = match parse_tlv(b, oid.2, alg.2) {
            Some(t) => t,
            None => {
                return false;
            },
        };
        if params.2 != alg.2 {
            return false;
        }
    }
    let bits = match parse_tlv(b, alg.2, outer.2) {
        Some(t) => t,
        None => {
            return false;
        },
    };
    bits.0 == 0x03 && bits.2 == outer.2 && bits.2 > bits.1 && b[bits.1] < 8
}

/// The content bytes of the algorithm object identifier, or `None` when `b`
/// is not a DER subject-public-key-info document.
pub fn spki_alg_oid(b: &[u8]) -> (r: Option<Vec<u8>>)
    ensures
        r is Some <==> spec_is_spki(b@),
        r matches Some(v) ==> Some(v@) == spec_spki_alg_oid(b@),
{
    if !is_spki(b) {
        return None;
    }
    let outer = parse_tlv(b, 0, b.len()).unwrap();
    let alg = parse_tlv(b, outer.1, outer.2).unwrap();
    let oid = parse_tlv(b, alg.1, alg.2).unwrap();
    let mut out: Vec<u8> = Vec::new();
    let mut i: usize = oid.1;
    while i < oid.2
        invariant
            oid.1 <= i <= oid.2 <= b@.len(),
            out@ =~= b@.subrange(oid.1 as int, i as int),
        decreases oid.2 - i,
    {
        out.push(b[i]);
        i = i + 1;
    }
    assert(out@ =~= b@.subrange(oid.1 as int, oid.2 as int));
    Some(out)
}

/// The DER prefix of a subject-public-key-info document for an Ed25519 key:
/// a 44-byte sequence of the Ed25519 algorithm identifier and a 33-byte bit
/// string with no unused bits.
pub open spec fn spec_ed25519_spki_prefix() -> Seq<u8> {
    seq![0x30u8, 0x2au8, 0x30u8, 0x05u8, 0x06u8, 0x03u8, 0x2bu8, 0x65u8, 0x70u8, 0x03u8, 0x21u8,
        0x00u8]
}

/// The structured encoding of a raw 32-byte Ed25519 public key.
pub open spec fn spec_ed25519_spki(raw: Seq<u8>) -> Seq<u8>
    recommends
        raw.len() == 32,
{
    spec_ed25519_spki_prefix() + raw
}

/// The content bytes of the Ed25519 object identifier.
pub open spec fn spec_ed25519_oid() -> Seq<u8> {
    seq![0x2bu8, 0x65u8, 0x70u8]
}

/// The content bytes of the canister-signature object identifier.
pub open spec fn spec_canister_sig_oid() -> Seq<u8> {
    seq![0x2bu8, 0x06u8, 0x01u8, 0x04u8, 0x01u8, 0x83u8, 0xb8u8, 0x43u8, 0x01u8, 0x02u8]
}

/// Wraps a raw 32-byte Ed25519 public key in the structured encoding.
pub fn ed25519_spki(raw: &[u8]) -> (r: Vec<u8>)
    requires
        raw@.len() == 32,
    ensures
        r@ =~= spec_ed25519_spki(raw@),
{
    let mut out: Vec<u8> = Vec::new();
    out.push(0x30);
    out.push(0x2a);
    out.push(0x30);
    out.push(0x05);
    out.push(0x06);
    out.push(0x03);
    out.push(0x2b);
    out.push(0x65);
    out.push(0x70);
    out.push(0x03);
    out.push(0x21);
    out.push(0x00);
    let mut i: usize = 0;
    while i < raw.len()
        invariant
            raw@.len() == 32,
            i <= 32,
            out@ =~= spec_ed25519_spki_prefix() + raw@.subrange(0, i as int),
        decreases raw@.len() - i,
    {
        out.push(raw[i]);
        i = i + 1;
    }
    assert(raw@.subrange(0, 32) =~= raw@);
    out
}

/// The structured encoding of a raw Ed25519 key is itself a well-formed
/// subject-public-key-info document carrying the Ed25519 algorithm
/// identifier.
pub proof fn lemma_ed25519_spki_is_spki(raw: Seq<u8>)
    requires
        raw.len() == 32,
    ensures
        spec_is_spki(spec_ed25519_spki(raw)),
        spec_spki_alg_oid(spec_ed25519_spki(raw)) == Some(spec_ed25519_oid()),
{
    let b = spec_ed25519_spki(raw);
    assert(b.len() == 44);
    assert(b[0] == 0x30 && b[1] == 0x2a);
    assert(spec_tlv(b, 0, 44) == Some((0x30u8, 2int, 44int)));
    assert(b[2] == 0x30 && b[3] == 0x05);
    assert(spec_tlv(b, 2, 44) == Some((0x30u8, 4int, 9int)));
    assert(b[4] == 0x06 && b[5] == 0x03);
    assert(spec_tlv(b, 4, 9) == Some((0x06u8, 6int, 9int)));
    assert(b[8] == 0x70);
    assert(b[9] == 0x03 && b[10] == 0x21);
    assert(spec_tlv(b, 9, 44) == Some((0x03u8, 11int, 44int)));
    assert(b[11] == 0x00);
    assert(spec_is_spki(b));
    assert(b.subrange(6, 9) =~= spec_ed25519_oid());
}

/// Whether 32 bytes are the encoding of a point on the Ed25519 curve; the
/// decision requires curve arithmetic and is made by an outside crate.
pub uninterp spec fn is_ed25519_point(b: Seq<u8>) -> bool;

/// Relies on `ic_ed25519::PublicKey::deserialize_raw`: it succeeds exactly
/// when its argument is 32 bytes long and decodes to a point on the curve.
#[verifier::external_body]
fn ed25519_raw_key_valid(b: &[u8]) -> (r: bool)
    ensures
        r == (b@.len() == 32 && is_ed25519_point(b@)),
{
    ic_ed25519::PublicKey::deserialize_raw(b).is_ok()
}

/// The canonical form of an externally supplied public key: a structured
/// document passes through unchanged; a raw, valid 32-byte Ed25519 key is
/// wrapped in the structured encoding; everything else is rejected.
pub open spec fn spec_normalized_key(b: Seq<u8>) -> Option<Seq<u8>> {
    if spec_is_spki(b) {
        Some(b)
    } else if b.len() == 32 && is_ed25519_point(b) {
        Some(spec_ed25519_spki(b))
    } else {
        None
    }
}

/// Normalizes an externally supplied public key to the structured form,
/// distinguishing an invalid raw key from an unrecognized encoding.
pub fn normalize_spki_key(b: &[u8]) -> (r: Result<Vec<u8>, KeyError>)
    ensures
        r matches Ok(v) ==> spec_normalized_key(b@) == Some(v@),
        r is Err <==> spec_normalized_key(b@) is None,
        r == Err::<Vec<u8>, KeyError>(KeyError::InvalidRawKey) <==> (!spec_is_spki(b@) && b@.len()
            == 32 && !is_ed25519_point(b@)),
        r == Err::<Vec<u8>, KeyError>(KeyError::UnknownEncoding) <==> (!spec_is_spki(b@)
            && b@.len() != 32),
{
    if is_spki(b) {
        let mut out: Vec<u8> = Vec::new();
        out.extend_from_slice(b);
        assert(out@ =~= b@);
        Ok(out)
    } else if b.len() == 32 {
        if ed25519_raw_key_valid(b) {
            Ok(ed25519_spki(b))
        } else {
            Err(KeyError::InvalidRawKey)
        }
    } else {
        Err(KeyError::UnknownEncoding)
    }
}

/// Law: normalization is idempotent — normalizing an already-normalized key
/// returns it unchanged — and a raw key and its structured encoding
/// normalize to identical canonical bytes.
pub proof fn lemma_normalize_idempotent(b: Seq<u8>)
    ensures
        spec_normalized_key(b) matches Some(k) ==> spec_normalized_key(k) == Some(k),
        (b.len() == 32 && is_ed25519_point(b) && !spec_is_spki(b)) ==> spec_normalized_key(b)
            == spec_normalized_key(spec_ed25519_spki(b)),
{
    if spec_normalized_key(b) is Some {
        let k = spec_normalized_key(b).unwrap();
        if spec_is_spki(b) {
        } else {
            lemma_ed25519_spki_is_spki(b);
        }
    }
    if b.len() == 32 && is_ed25519_point(b) && !spec_is_spki(b) {
        lemma_ed25519_spki_is_spki(b);
    }
}

/// Whether a structured key names the canister-signature algorithm, for
/// which no local verification is possible; rejects keys that are not
/// structured documents.
pub fn is_canister_signature_key(b: &[u8]) -> (r: Result<bool, KeyError>)
    ensures
        r matches Ok(c) ==> spec_is_spki(b@) && (c <==> spec_spki_alg_oid(b@) == Some(
            spec_canister_sig_oid(),
        )),
        r is Err <==> !spec_is_spki(b@),
{
    let oid = match spki_alg_oid(b) {
        Some(v) => v,
        None => {
            return Err(KeyError::UnknownEncoding);
        },
    };
    let expected: [u8; 10] = [0x2b, 0x06, 0x01, 0x04, 0x01, 0x83, 0xb8, 0x43, 0x01, 0x02];
    if oid.len() != 10 {
        assert(oid@ != spec_canister_sig_oid());
        return Ok(false);
    }
    let mut i: usize = 0;
    while i < 10
        invariant
            i <= 10,
            oid@.len() == 10,
            spec_is_spki(b@),
            spec_spki_alg_oid(b@) == Some(oid@),
            expected@ =~= spec_canister_sig_oid(),
            forall|j: int| 0 <= j < i ==> oid@[j] == spec_canister_sig_oid()[j],
        decreases 10 - i,
    {
        if oid[i] != expected[i] {
            assert(oid@ != spec_canister_sig_oid());
            return Ok(false);
        }
        i = i + 1;
    }
    assert(oid@ =~= spec_canister_sig_oid());
    Ok(true)
}

} // verus!
