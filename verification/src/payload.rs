//! Wire shapes of the browser-to-CLI callback. The encrypted callback body
//! carries hexadecimal fields; its recovered plaintext is the browser
//! payload, whose numbers may arrive either as JSON integers or as decimal
//! strings.

use vstd::prelude::*;

verus! {

/// The encrypted callback body: a nonce and three hexadecimal fields — the
/// browser's ephemeral public key, the initialization vector and the
/// ciphertext.
#[derive(Debug)]
pub struct CallbackRequest {
    pub nonce: String,
    pub ephemeral_public_key_hex: String,
    pub iv_hex: String,
    pub ciphertext_hex: String,
}

/// The plaintext recovered from a callback: the delegation records, the
/// user's root public key, the session public key the browser saw, the
/// chain expiration and the derivation origin.
#[derive(Debug)]
pub struct BrowserPayload {
    pub delegations: Vec<BrowserSignedDelegation>,
    pub user_public_key: Vec<u8>,
    pub session_public_key: Vec<u8>,
    pub expiration_ns: u64,
    pub derivation_origin: String,
}

/// One provider-supplied delegation record with its signature.
#[derive(Debug)]
pub struct BrowserSignedDelegation {
    pub delegation: BrowserDelegation,
    pub signature: Vec<u8>,
}

/// One provider-supplied delegation: the delegated public key, the
/// expiration in nanoseconds and the optional textual target identifiers.
#[derive(Debug)]
pub struct BrowserDelegation {
    pub pubkey: Vec<u8>,
    pub expiration: u64,
    pub targets: Option<Vec<String>>,
}

/// Whether every byte is an ASCII decimal digit.
pub open spec fn spec_all_digits(s: Seq<u8>) -> bool {
    forall|i: int| 0 <= i < s.len() ==> 0x30 <= #[trigger] s[i] <= 0x39
}

/// The number denoted by a sequence of decimal digit bytes.
pub open spec fn spec_dec_value(s: Seq<u8>) -> int
    decreases s.len(),
{
    if s.len() == 0 {
        0
    } else {
        spec_dec_value(s.drop_last()) * 10 + (s.last() - 0x30)
    }
}

/// The digit bytes of a decimal number token: what remains after an
/// optional leading plus sign.
pub open spec fn spec_dec_digits(s: Seq<u8>) -> Seq<u8> {
    if s.len() >= 1 && s[0] == 0x2b {
        s.skip(1)
    } else {
        s
    }
}

/// Whether `s` is a decimal token denoting a number that fits in 64 bits:
/// an optional plus sign, then one or more digits, value at most
/// `u64::MAX`.
pub open spec fn spec_u64_token(s: Seq<u8>) -> bool {
    &&& spec_dec_digits(s).len() >= 1
    &&& spec_all_digits(spec_dec_digits(s))
    &&& spec_dec_value(spec_dec_digits(s)) <= u64::MAX
}

/// The value of a decimal token denotes no less than any of its prefixes.
proof fn lemma_dec_value_monotone(s: Seq<u8>, i: int)
    requires
        0 <= i <= s.len(),
        spec_all_digits(s),
    ensures
        spec_dec_value(s.subrange(0, i)) <= spec_dec_value(s),
        spec_dec_value(s) >= 0,
    decreases s.len() - i,
{
    if i == s.len() {
        assert(s.subrange(0, i) =~= s);
        lemma_dec_value_nonneg(s);
    } else {
        lemma_dec_value_monotone(s, i + 1);
        let p = s.subrange(0, i + 1);
        assert(p.drop_last() =~= s.subrange(0, i));
        lemma_dec_value_nonneg(s.subrange(0, i));
    }
}

/// The value of a digit sequence is never negative.
proof fn lemma_dec_value_nonneg(s: Seq<u8>)
    requires
        spec_all_digits(s),
    ensures
        spec_dec_value(s) >= 0,
    decreases s.len(),
{
    if s.len() > 0 {
        assert(spec_all_digits(s.drop_last()));
        lemma_dec_value_nonneg(s.drop_last());
    }
}

/// Parses a decimal 64-bit number from bytes, accepting an optional
/// leading plus sign, exactly as the standard integer parser does; `None`
/// on an empty token, a non-digit, or overflow.
pub fn parse_u64_decimal(s: &[u8]) -> (r: Option<u64>)
    ensures
        r is Some <==> spec_u64_token(s@),
        r matches Some(v) ==> v == spec_dec_value(spec_dec_digits(s@)),
{
    let start: usize = if s.len() >= 1 && s[0] == 0x2b {
        1
    } else {
        0
    };
    let ghost d = spec_dec_digits(s@);
    proof {
        assert(d =~= s@.skip(start as int));
    }
    if s.len() == start {
        return None;
    }
    let mut acc: u64 = 0;
    let mut i: usize = start;
    while i < s.len()
        invariant
            start <= i <= s@.len(),
            d == spec_dec_digits(s@),
            d =~= s@.skip(start as int),
            d.len() == s@.len() - start,
            spec_all_digits(d.subrange(0, i - start)),
            acc == spec_dec_value(d.subrange(0, i - start)),
        decreases s@.len() - i,
    {
        let c = s[i];
        if c < 0x30 || c > 0x39 {
            assert(d[i - start] == s@[i as int]);
            return None;
        }
        let digit = (c - 0x30) as u64;
        if acc > (u64::MAX - digit) / 10 {
            proof {
                let p = d.subrange(0, i - start + 1);
                assert(p.drop_last() =~= d.subrange(0, i - start));
                assert(p.last() == s@[i as int]);
                assert(spec_dec_value(p) > u64::MAX);
                if spec_u64_token(s@) {
                    lemma_dec_value_monotone(d, i - start + 1);
                }
            }
            return None;
        }
        proof {
            let p = d.subrange(0, i - start + 1);
            assert(p.drop_last() =~= d.subrange(0, i - start));
            assert(p.last() == s@[i as int]);
        }
        acc = acc * 10 + digit;
        i = i + 1;
    }
    proof {
        assert(d.subrange(0, d.len() as int) =~= d);
    }
    Some(acc)
}

} // verus!
