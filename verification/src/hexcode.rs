//! Hexadecimal encoding and decoding of byte strings, verified against an
//! exact character-level specification. Encoding always produces lowercase
//! digits; decoding accepts both cases and fails on odd length or any
//! non-hexadecimal character.

use vstd::prelude::*;

verus! {

use vstd::string::StringSliceAdditionalSpecFns;

/// ASCII byte of the lowercase hexadecimal digit for a nibble value.
pub open spec fn spec_nibble_ascii(n: u8) -> u8
    recommends
        n < 16,
{
    if n < 10 {
        (0x30 + n) as u8
    } else {
        (0x57 + n) as u8
    }
}

/// The ASCII bytes of the lowercase hexadecimal encoding of `b`.
pub open spec fn spec_hex_bytes(b: Seq<u8>) -> Seq<u8> {
    Seq::new(2 * b.len(), |i: int| spec_nibble_ascii(
        if i % 2 == 0 { (b[i / 2] / 16) as u8 } else { (b[i / 2] % 16) as u8 }
    ))
}

/// Value of an ASCII hexadecimal digit, either case, or `None`.
pub open spec fn spec_hex_digit(c: u8) -> Option<u8> {
    if 0x30 <= c <= 0x39 {
        Some((c - 0x30) as u8)
    } else if 0x61 <= c <= 0x66 {
        Some((c - 0x61 + 10) as u8)
    } else if 0x41 <= c <= 0x46 {
        Some((c - 0x41 + 10) as u8)
    } else {
        None
    }
}

/// Whether `s` is a well-formed hexadecimal string: even length, every
/// character a hexadecimal digit of either case.
pub open spec fn spec_hex_valid(s: Seq<u8>) -> bool {
    &&& s.len() % 2 == 0
    &&& forall|i: int| 0 <= i < s.len() ==> #[trigger] spec_hex_digit(s[i]) is Some
}

/// The bytes denoted by a well-formed hexadecimal string.
pub open spec fn spec_hex_value(s: Seq<u8>) -> Seq<u8>
    recommends
        spec_hex_valid(s),
{
    Seq::new(s.len() / 2, |i: int| (spec_hex_digit(s[2 * i]).unwrap() * 16
        + spec_hex_digit(s[2 * i + 1]).unwrap()) as u8)
}

/// Relies on `String::from_utf8`: a byte string of ASCII bytes is valid
/// UTF-8, and each byte decodes to the character with the same code point.
#[verifier::external_body]
fn ascii_to_string(v: Vec<u8>) -> (r: String)
    requires
        forall|i: int| 0 <= i < v@.len() ==> v@[i] < 128,
    ensures
        r@.len() == v@.len(),
        forall|i: int| 0 <= i < v@.len() ==> r@[i] == v@[i] as char,
        r@ =~= Seq::new(v@.len(), |i: int| v@[i] as char),
{
    match String::from_utf8(v) {
        Ok(s) => s,
        Err(_) => String::new(),
    }
}

/// Lowercase hexadecimal digit byte for a nibble value.
fn nibble_ascii(n: u8) -> (r: u8)
    requires
        n < 16,
    ensures
        r == spec_nibble_ascii(n),
{
    if n < 10 {
        0x30 + n
    } else {
        0x57 + n
    }
}

/// Hexadecimal encoding of `b` as ASCII bytes, two lowercase digits per
/// input byte.
pub fn hex_encode_bytes(b: &[u8]) -> (r: Vec<u8>)
    ensures
        r@ =~= spec_hex_bytes(b@),
{
    let mut out: Vec<u8> = Vec::new();
    let mut i: usize = 0;
    while i < b.len()
        invariant
            i <= b@.len(),
            out@.len() == 2 * i,
            forall|j: int| 0 <= j < out@.len() ==> out@[j] == spec_hex_bytes(b@)[j],
        decreases b@.len() - i,
    {
        let x = b[i];
        out.push(nibble_ascii(x / 16));
        out.push(nibble_ascii(x % 16));
        i = i + 1;
    }
    out
}

/// Hexadecimal encoding of `b` as a lowercase string.
pub fn hex_encode(b: &[u8]) -> (r: String)
    ensures
        r@.len() == 2 * b@.len(),
        forall|i: int| 0 <= i < r@.len() ==> r@[i] == spec_hex_bytes(b@)[i] as char,
        vstd::utf8::encode_utf8(r@) =~= spec_hex_bytes(b@),
{
    let bytes = hex_encode_bytes(b);
    assert forall|i: int| 0 <= i < bytes@.len() implies bytes@[i] < 128 by {
        assert(bytes@[i] == spec_hex_bytes(b@)[i]);
    }
    let r = ascii_to_string(bytes);
    proof {
        assert(vstd::utf8::is_ascii_chars(r@)) by {
            assert forall|i: int| 0 <= i < r@.len() implies '\0' <= #[trigger] r@[i]
                <= '\u{7f}' by {
                assert(r@[i] == bytes@[i] as char);
                assert(bytes@[i] < 128);
            }
        }
        vstd::utf8::is_ascii_chars_encode_utf8(r@);
        assert forall|i: int| 0 <= i < r@.len() implies vstd::utf8::encode_utf8(r@)[i]
            == spec_hex_bytes(b@)[i] by {
            assert(r@[i] == bytes@[i] as char);
        }
    }
    r
}

/// Value of one hexadecimal digit byte, accepting both cases.
pub fn hex_digit(c: u8) -> (r: Option<u8>)
    ensures
        r == spec_hex_digit(c),
{
    if 0x30 <= c && c <= 0x39 {
        Some(c - 0x30)
    } else if 0x61 <= c && c <= 0x66 {
        Some(c - 0x61 + 10)
    } else if 0x41 <= c && c <= 0x46 {
        Some(c - 0x41 + 10)
    } else {
        None
    }
}

/// Decodes a hexadecimal byte string; `None` on odd length or any
/// non-hexadecimal character.
pub fn hex_decode_bytes(s: &[u8]) -> (r: Option<Vec<u8>>)
    ensures
        r is Some <==> spec_hex_valid(s@),
        r is Some ==> r.unwrap()@ =~= spec_hex_value(s@),
{
    if s.len() % 2 != 0 {
        return None;
    }
    let mut out: Vec<u8> = Vec::new();
    let mut i: usize = 0;
    while i < s.len()
        invariant
            s@.len() % 2 == 0,
            i % 2 == 0,
            i <= s@.len(),
            out@.len() == i / 2,
            forall|j: int| 0 <= j < i ==> #[trigger] spec_hex_digit(s@[j]) is Some,
            forall|j: int| 0 <= j < out@.len() ==> out@[j] == spec_hex_value(s@)[j],
        decreases s@.len() - i,
    {
        let hi = match hex_digit(s[i]) {
            Some(v) => v,
            None => {
                return None;
            },
        };
        let lo = match hex_digit(s[i + 1]) {
            Some(v) => v,
            None => {
                return None;
            },
        };
        out.push(hi * 16 + lo);
        i = i + 2;
    }
    Some(out)
}

/// Decodes a hexadecimal string; `None` on odd length or any
/// non-hexadecimal character.
pub fn hex_decode(s: &str) -> (r: Option<Vec<u8>>)
    ensures
        r is Some <==> spec_hex_valid(s.spec_bytes()),
        r is Some ==> r.unwrap()@ =~= spec_hex_value(s.spec_bytes()),
{
    hex_decode_bytes(s.as_bytes())
}

/// Law: decoding recovers exactly what encoding produced, for every byte
/// string.
pub proof fn lemma_hex_roundtrip(b: Seq<u8>)
    ensures
        spec_hex_valid(spec_hex_bytes(b)),
        spec_hex_value(spec_hex_bytes(b)) =~= b,
{
    let h = spec_hex_bytes(b);
    assert forall|i: int| 0 <= i < h.len() implies #[trigger] spec_hex_digit(h[i]) is Some by {
        assert(h[i] == spec_nibble_ascii(if i % 2 == 0 { (b[i / 2] / 16) as u8 } else {
            (b[i / 2] % 16) as u8
        }));
    }
    assert forall|i: int| 0 <= i < b.len() implies spec_hex_value(h)[i] == b[i] by {
        assert(h[2 * i] == spec_nibble_ascii((b[i] / 16) as u8));
        assert(h[2 * i + 1] == spec_nibble_ascii((b[i] % 16) as u8));
        assert(spec_hex_digit(h[2 * i]) == Some((b[i] / 16) as u8));
        assert(spec_hex_digit(h[2 * i + 1]) == Some((b[i] % 16) as u8));
    }
}

} // verus!
