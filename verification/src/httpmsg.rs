//! Byte-level readings of HTTP request material: the JSON media-type test
//! applied to callback requests, and the framing of a raw request — the
//! header/body boundary, the request line, and the content length.

use vstd::prelude::*;

verus! {

use vstd::string::StringSliceAdditionalSpecFns;

/// ASCII whitespace byte.
pub open spec fn spec_ws(c: u8) -> bool {
    c == 0x20 || 0x09 <= c <= 0x0d
}

/// ASCII lowercase folding of one byte.
pub open spec fn spec_ascii_lower(c: u8) -> u8 {
    if 0x41 <= c <= 0x5a {
        (c + 0x20) as u8
    } else {
        c
    }
}

/// Index of the first semicolon at or after `i`, or the length.
pub open spec fn spec_semi_idx(s: Seq<u8>, i: int) -> int
    recommends
        0 <= i <= s.len(),
    decreases s.len() - i when 0 <= i <= s.len()
{
    if i >= s.len() {
        s.len() as int
    } else if s[i] == 0x3b {
        i
    } else {
        spec_semi_idx(s, i + 1)
    }
}

/// Index of the first non-whitespace byte at or after `i`, or the length.
pub open spec fn spec_skip_ws(s: Seq<u8>, i: int) -> int
    recommends
        0 <= i <= s.len(),
    decreases s.len() - i when 0 <= i <= s.len()
{
    if i >= s.len() {
        s.len() as int
    } else if spec_ws(s[i]) {
        spec_skip_ws(s, i + 1)
    } else {
        i
    }
}

/// End of the whitespace-trimmed prefix of `s` ending at `j`: the least
/// suffix cut below `j` with no trailing whitespace.
pub open spec fn spec_rskip_ws(s: Seq<u8>, j: int) -> int
    recommends
        0 <= j <= s.len(),
    decreases j when 0 <= j
{
    if j <= 0 {
        0
    } else if spec_ws(s[j - 1]) {
        spec_rskip_ws(s, j - 1)
    } else {
        j
    }
}

/// The bytes of the JSON media type.
pub open spec fn spec_json_media_type() -> Seq<u8> {
    seq![0x61u8, 0x70u8, 0x70u8, 0x6cu8, 0x69u8, 0x63u8, 0x61u8, 0x74u8, 0x69u8, 0x6fu8, 0x6eu8,
        0x2fu8, 0x6au8, 0x73u8, 0x6fu8, 0x6eu8]
}

/// Byte-wise equality under ASCII lowercase folding of the left side.
pub open spec fn spec_eq_fold_lower(t: Seq<u8>, u: Seq<u8>) -> bool {
    t.len() == u.len() && forall|i: int|
        0 <= i < t.len() ==> spec_ascii_lower(#[trigger] t[i]) == u[i]
}

/// The whitespace-trimmed segment of a content-type value before any
/// parameters.
pub open spec fn spec_media_type_segment(s: Seq<u8>) -> Seq<u8> {
    let seg = s.subrange(0, spec_semi_idx(s, 0));
    let a = spec_skip_ws(seg, 0);
    let b = spec_rskip_ws(seg, seg.len() as int);
    if a <= b {
        seg.subrange(a, b)
    } else {
        Seq::<u8>::empty()
    }
}

/// Whether a content-type header value names the JSON media type: the
/// segment before any parameters, trimmed of whitespace, equals
/// `application/json` without regard to letter case.
pub open spec fn spec_is_json_content_type(s: Seq<u8>) -> bool {
    spec_eq_fold_lower(spec_media_type_segment(s), spec_json_media_type())
}

/// Everything below the first non-whitespace index is whitespace.
proof fn lemma_skip_ws_range(s: Seq<u8>, i: int)
    requires
        0 <= i <= s.len(),
    ensures
        i <= spec_skip_ws(s, i) <= s.len(),
        forall|k: int| i <= k < spec_skip_ws(s, i) ==> spec_ws(#[trigger] s[k]),
    decreases s.len() - i,
{
    if i < s.len() && spec_ws(s[i]) {
        lemma_skip_ws_range(s, i + 1);
    }
}

/// The right-trim cut is bounded by its start, and a prefix of pure
/// whitespace trims to nothing.
proof fn lemma_rskip_ws_all(s: Seq<u8>, j: int)
    requires
        0 <= j <= s.len(),
        forall|k: int| 0 <= k < j ==> spec_ws(#[trigger] s[k]),
    ensures
        spec_rskip_ws(s, j) == 0,
    decreases j,
{
    if j > 0 {
        lemma_rskip_ws_all(s, j - 1);
    }
}

/// ASCII whitespace test of one byte.
fn ws_byte(c: u8) -> (r: bool)
    ensures
        r == spec_ws(c),
{
    c == 0x20 || (0x09 <= c && c <= 0x0d)
}

/// ASCII lowercase folding of one byte.
fn ascii_lower(c: u8) -> (r: u8)
    ensures
        r == spec_ascii_lower(c),
{
    if 0x41 <= c && c <= 0x5a {
        c + 0x20
    } else {
        c
    }
}

/// Whether a content-type header value names exactly the JSON media type,
/// ignoring parameters, surrounding whitespace, and letter case.
#[verifier::loop_isolation(false)]
pub fn is_json_content_type(value: &str) -> (r: bool)
    ensures
        r == spec_is_json_content_type(value.spec_bytes()),
{
    let b = value.as_bytes();
    let mut semi: usize = 0;
    while semi < b.len() && b[semi] != 0x3b
        invariant
            0 <= semi <= b@.len(),
            spec_semi_idx(b@, 0) == spec_semi_idx(b@, semi as int),
        decreases b@.len() - semi,
    {
        semi = semi + 1;
    }
    proof {
        if semi < b@.len() {
            assert(b@[semi as int] == 0x3b);
        }
        assert(spec_semi_idx(b@, semi as int) == semi);
        assert(spec_semi_idx(b@, 0) == semi);
    }
    let ghost seg = b@.subrange(0, semi as int);
    let mut a: usize = 0;
    while a < semi && ws_byte(b[a])
        invariant
            0 <= a <= semi <= b@.len(),
            seg == b@.subrange(0, semi as int),
            spec_skip_ws(seg, 0) == spec_skip_ws(seg, a as int),
        decreases semi - a,
    {
        a = a + 1;
    }
    proof {
        if a < semi {
            assert(seg[a as int] == b@[a as int]);
        }
        assert(spec_skip_ws(seg, 0) == a);
    }
    let mut e: usize = semi;
    while e > a && ws_byte(b[e - 1])
        invariant
            a <= e <= semi,
            seg == b@.subrange(0, semi as int),
            spec_rskip_ws(seg, semi as int) == spec_rskip_ws(seg, e as int),
        decreases e,
    {
        e = e - 1;
    }
    proof {
        if e > a {
            assert(seg[e - 1] == b@[e - 1]);
            assert(!spec_ws(seg[e - 1]));
            assert(spec_rskip_ws(seg, e as int) == e);
        } else {
            assert(e == a);
            lemma_skip_ws_range(seg, 0);
            lemma_rskip_ws_all(seg, e as int);
            assert(spec_rskip_ws(seg, e as int) == 0);
        }
    }
    let ghost bb = spec_rskip_ws(seg, seg.len() as int);
    let ghost t = if a as int <= bb {
        seg.subrange(a as int, bb)
    } else {
        Seq::<u8>::empty()
    };
    if e - a != 16 {
        proof {
            if e > a {
                assert(bb == e);
                assert(t.len() == e - a);
            } else {
                assert(bb == 0);
                assert(t.len() == 0);
            }
            assert(t == spec_media_type_segment(value.spec_bytes()));
            assert(t.len() != 16);
            assert(!spec_eq_fold_lower(t, spec_json_media_type()));
        }
        return false;
    }
    let expected: [u8; 16] = [
        0x61,
        0x70,
        0x70,
        0x6c,
        0x69,
        0x63,
        0x61,
        0x74,
        0x69,
        0x6f,
        0x6e,
        0x2f,
        0x6a,
        0x73,
        0x6f,
        0x6e,
    ];
    let mut i: usize = 0;
    while i < 16
        invariant
            0 <= i <= 16,
            e - a == 16,
            a + 16 <= semi <= b@.len(),
            t == seg.subrange(a as int, e as int),
            seg == b@.subrange(0, semi as int),
            expected@ =~= spec_json_media_type(),
            forall|j: int| 0 <= j < i ==> spec_ascii_lower(#[trigger] t[j])
                == spec_json_media_type()[j],
        decreases 16 - i,
    {
        if ascii_lower(b[a + i]) != expected[i] {
            proof {
                assert(t == spec_media_type_segment(value.spec_bytes()));
                assert(t[i as int] == b@[a + i]);
                assert(spec_ascii_lower(t[i as int]) != spec_json_media_type()[i as int]);
                assert(!spec_eq_fold_lower(t, spec_json_media_type()));
            }
            return false;
        }
        proof {
            assert(t[i as int] == b@[a + i]);
        }
        i = i + 1;
    }
    proof {
        assert(t == spec_media_type_segment(value.spec_bytes()));
        assert(spec_eq_fold_lower(t, spec_json_media_type()));
    }
    true
}

/// Whether the four bytes at `i` are the blank line that ends a header
/// section.
pub open spec fn spec_crlfcrlf_at(b: Seq<u8>, i: int) -> bool {
    &&& 0 <= i
    &&& i + 4 <= b.len()
    &&& b[i] == 0x0d
    &&& b[i + 1] == 0x0a
    &&& b[i + 2] == 0x0d
    &&& b[i + 3] == 0x0a
}

/// First index at or after `i` where the header-ending blank line
/// stands, or `None`.
pub open spec fn spec_header_end_from(b: Seq<u8>, i: int) -> Option<int>
    recommends
        0 <= i,
    decreases b.len() - i when 0 <= i
{
    if i + 4 > b.len() {
        None
    } else if spec_crlfcrlf_at(b, i) {
        Some(i)
    } else {
        spec_header_end_from(b, i + 1)
    }
}

/// Position of the first blank line ending the header section of a raw
/// request, or `None` when the buffer holds none yet.
#[verifier::loop_isolation(false)]
pub fn find_header_end(buffer: &[u8]) -> (r: Option<usize>)
    ensures
        r matches Some(i) ==> spec_crlfcrlf_at(buffer@, i as int) && forall|j: int|
            0 <= j < i ==> !spec_crlfcrlf_at(buffer@, j),
        r is None ==> forall|j: int| !spec_crlfcrlf_at(buffer@, j),
{
    if buffer.len() < 4 {
        return None;
    }
    let mut i: usize = 0;
    while i <= buffer.len() - 4
        invariant
            buffer@.len() >= 4,
            0 <= i <= buffer@.len() - 3,
            forall|j: int| 0 <= j < i ==> !spec_crlfcrlf_at(buffer@, j),
            spec_header_end_from(buffer@, 0) == spec_header_end_from(buffer@, i as int),
        decreases buffer@.len() - i,
    {
        if buffer[i] == 0x0d && buffer[i + 1] == 0x0a && buffer[i + 2] == 0x0d && buffer[i + 3]
            == 0x0a {
            return Some(i);
        }
        i = i + 1;
    }
    proof {
        lemma_header_end_none(buffer@, i as int);
    }
    None
}

/// Past the last possible start, no blank line is found.
proof fn lemma_header_end_none(b: Seq<u8>, i: int)
    requires
        0 <= i,
        i + 4 > b.len(),
    ensures
        spec_header_end_from(b, i) is None,
{
}

/// Index of the first line feed at or after `i`, limited to `end`, or
/// `end`.
pub open spec fn spec_lf_idx(b: Seq<u8>, i: int, end: int) -> int
    recommends
        0 <= i <= end <= b.len(),
    decreases end - i when 0 <= i <= end
{
    if i >= end {
        end
    } else if b[i] == 0x0a {
        i
    } else {
        spec_lf_idx(b, i + 1, end)
    }
}

/// Index of the first colon at or after `i`, limited to `end`, or `end`.
pub open spec fn spec_colon_idx(b: Seq<u8>, i: int, end: int) -> int
    recommends
        0 <= i <= end <= b.len(),
    decreases end - i when 0 <= i <= end
{
    if i >= end {
        end
    } else if b[i] == 0x3a {
        i
    } else {
        spec_colon_idx(b, i + 1, end)
    }
}

/// Index of the first whitespace byte at or after `i`, limited to `end`,
/// or `end`: the end of a token.
pub open spec fn spec_token_end(b: Seq<u8>, i: int, end: int) -> int
    recommends
        0 <= i <= end <= b.len(),
    decreases end - i when 0 <= i <= end
{
    if i >= end {
        end
    } else if spec_ws(b[i]) {
        i
    } else {
        spec_token_end(b, i + 1, end)
    }
}

/// Index of the first non-whitespace byte at or after `i`, limited to
/// `end`, or `end`.
pub open spec fn spec_skip_ws_to(b: Seq<u8>, i: int, end: int) -> int
    recommends
        0 <= i <= end <= b.len(),
    decreases end - i when 0 <= i <= end
{
    if i >= end {
        end
    } else if spec_ws(b[i]) {
        spec_skip_ws_to(b, i + 1, end)
    } else {
        i
    }
}

/// End of the request line: the first line feed within the header, with
/// a trailing carriage return stripped.
pub open spec fn spec_request_line_end(b: Seq<u8>, he: int) -> int {
    let lf = spec_lf_idx(b, 0, he);
    if lf > 0 && b[lf - 1] == 0x0d {
        lf - 1
    } else {
        lf
    }
}

/// The bytes of the name `content-length`.
pub open spec fn spec_content_length_name() -> Seq<u8> {
    seq![0x63u8, 0x6fu8, 0x6eu8, 0x74u8, 0x65u8, 0x6eu8, 0x74u8, 0x2du8, 0x6cu8, 0x65u8, 0x6eu8,
        0x67u8, 0x74u8, 0x68u8]
}

/// The value of the first header line within `[pos, he)` whose name is
/// `content-length` in any letter case and whose trimmed value is a
/// decimal number fitting the platform's sizes; `None` when no such line
/// exists. Lines without a colon or with an unparsable value are passed
/// over, as a lenient reader does.
pub open spec fn spec_content_length(b: Seq<u8>, pos: int, he: int) -> Option<int>
    recommends
        0 <= pos,
        he <= b.len(),
    decreases he - pos when 0 <= pos <= he via spec_content_length_dec
{
    if pos >= he {
        None
    } else {
        let lf = spec_lf_idx(b, pos, he);
        let lend = if lf > pos && b[lf - 1] == 0x0d {
            lf - 1
        } else {
            lf
        };
        let c = spec_colon_idx(b, pos, lend);
        let v = spec_line_content_length(b, pos, lend, c);
        if v is Some {
            v
        } else {
            spec_content_length(b, if lf + 1 <= he { lf + 1 } else { he }, he)
        }
    }
}

#[via_fn]
proof fn spec_content_length_dec(b: Seq<u8>, pos: int, he: int) {
    if 0 <= pos < he {
        lemma_lf_idx_bounds(b, pos, he);
    }
}

/// The first line feed lies between the start of the search and its end.
proof fn lemma_lf_idx_bounds(b: Seq<u8>, i: int, end: int)
    requires
        0 <= i <= end,
    ensures
        i <= spec_lf_idx(b, i, end) <= end,
    decreases end - i,
{
    if i < end && b[i] != 0x0a {
        lemma_lf_idx_bounds(b, i + 1, end);
    }
}

/// The content length one header line denotes, or `None`.
pub open spec fn spec_line_content_length(b: Seq<u8>, pos: int, lend: int, c: int) -> Option<
    int,
> {
    if c >= lend {
        None
    } else {
        let name = b.subrange(pos, c);
        let value = b.subrange(c + 1, lend);
        let a = spec_skip_ws(value, 0);
        let e = spec_rskip_ws(value, value.len() as int);
        let tv = if a <= e {
            value.subrange(a, e)
        } else {
            Seq::<u8>::empty()
        };
        if spec_eq_fold_lower(name, spec_content_length_name())
            && crate::payload::spec_u64_token(tv) && crate::payload::spec_dec_value(
            crate::payload::spec_dec_digits(tv),
        ) <= usize::MAX {
            Some(crate::payload::spec_dec_value(crate::payload::spec_dec_digits(tv)))
        } else {
            None
        }
    }
}

/// The head of a raw request: the method and path tokens of the request
/// line, the declared content length (zero when none is declared), and
/// where the body begins.
pub struct RequestHead {
    pub method: Vec<u8>,
    pub path: Vec<u8>,
    pub content_length: usize,
    pub body_start: usize,
}

/// Copies `b[i..j]` out.
#[verifier::loop_isolation(false)]
fn subvec(b: &[u8], i: usize, j: usize) -> (r: Vec<u8>)
    requires
        i <= j <= b@.len(),
    ensures
        r@ =~= b@.subrange(i as int, j as int),
{
    let mut out: Vec<u8> = Vec::new();
    let mut k: usize = i;
    while k < j
        invariant
            i <= k <= j,
            out@ =~= b@.subrange(i as int, k as int),
        decreases j - k,
    {
        out.push(b[k]);
        k = k + 1;
    }
    out
}

/// Scans forward to the first line feed within `[i, end)`.
#[verifier::loop_isolation(false)]
fn lf_idx(b: &[u8], i: usize, end: usize) -> (r: usize)
    requires
        i <= end <= b@.len(),
    ensures
        r == spec_lf_idx(b@, i as int, end as int),
        i <= r <= end,
{
    let mut k: usize = i;
    while k < end && b[k] != 0x0a
        invariant
            i <= k <= end,
            spec_lf_idx(b@, i as int, end as int) == spec_lf_idx(b@, k as int, end as int),
        decreases end - k,
    {
        k = k + 1;
    }
    k
}

/// Scans forward to the first colon within `[i, end)`.
#[verifier::loop_isolation(false)]
fn colon_idx(b: &[u8], i: usize, end: usize) -> (r: usize)
    requires
        i <= end <= b@.len(),
    ensures
        r == spec_colon_idx(b@, i as int, end as int),
        i <= r <= end,
{
    let mut k: usize = i;
    while k < end && b[k] != 0x3a
        invariant
            i <= k <= end,
            spec_colon_idx(b@, i as int, end as int) == spec_colon_idx(b@, k as int, end as int),
        decreases end - k,
    {
        k = k + 1;
    }
    k
}

/// Scans forward to the first whitespace within `[i, end)`.
#[verifier::loop_isolation(false)]
fn token_end(b: &[u8], i: usize, end: usize) -> (r: usize)
    requires
        i <= end <= b@.len(),
    ensures
        r == spec_token_end(b@, i as int, end as int),
        i <= r <= end,
{
    let mut k: usize = i;
    while k < end && !ws_byte(b[k])
        invariant
            i <= k <= end,
            spec_token_end(b@, i as int, end as int) == spec_token_end(b@, k as int, end as int),
        decreases end - k,
    {
        k = k + 1;
    }
    k
}

/// Scans forward past whitespace within `[i, end)`.
#[verifier::loop_isolation(false)]
fn skip_ws_to(b: &[u8], i: usize, end: usize) -> (r: usize)
    requires
        i <= end <= b@.len(),
    ensures
        r == spec_skip_ws_to(b@, i as int, end as int),
        i <= r <= end,
{
    let mut k: usize = i;
    while k < end && ws_byte(b[k])
        invariant
            i <= k <= end,
            spec_skip_ws_to(b@, i as int, end as int) == spec_skip_ws_to(b@, k as int, end as int),
        decreases end - k,
    {
        k = k + 1;
    }
    k
}

/// Whether `a` equals `u` byte for byte after lowercase folding of `a`.
#[verifier::loop_isolation(false)]
fn eq_fold_lower_bytes(a: &[u8], i: usize, j: usize, u: &[u8]) -> (r: bool)
    requires
        i <= j <= a@.len(),
    ensures
        r == spec_eq_fold_lower(a@.subrange(i as int, j as int), u@),
{
    if j - i != u.len() {
        return false;
    }
    let mut k: usize = 0;
    while k < u.len()
        invariant
            0 <= k <= u@.len(),
            i + u@.len() == j <= a@.len(),
            forall|t: int| 0 <= t < k ==> spec_ascii_lower(
                #[trigger] a@.subrange(i as int, j as int)[t],
            ) == u@[t],
        decreases u@.len() - k,
    {
        if ascii_lower(a[i + k]) != u[k] {
            proof {
                assert(a@.subrange(i as int, j as int)[k as int] == a@[i + k]);
            }
            return false;
        }
        proof {
            assert(a@.subrange(i as int, j as int)[k as int] == a@[i + k]);
        }
        k = k + 1;
    }
    true
}

/// Parses the head of a raw request once its header section is complete:
/// finds the header end, splits the request line into its method and
/// path tokens, and reads the first well-formed content-length header.
/// `None` when the header section is incomplete or a token is missing.
#[verifier::loop_isolation(false)]
pub fn parse_request_head(buffer: &[u8]) -> (r: Option<RequestHead>)
    ensures
        r is Some <==> (spec_header_end_from(buffer@, 0) matches Some(he) && {
            let rl = spec_request_line_end(buffer@, he);
            let m0 = spec_skip_ws_to(buffer@, 0, rl);
            let m1 = spec_token_end(buffer@, m0, rl);
            let p0 = spec_skip_ws_to(buffer@, m1, rl);
            let p1 = spec_token_end(buffer@, p0, rl);
            m1 > m0 && p1 > p0
        }),
        r matches Some(h) ==> (spec_header_end_from(buffer@, 0) matches Some(he) && {
            let rl = spec_request_line_end(buffer@, he);
            let m0 = spec_skip_ws_to(buffer@, 0, rl);
            let m1 = spec_token_end(buffer@, m0, rl);
            let p0 = spec_skip_ws_to(buffer@, m1, rl);
            let p1 = spec_token_end(buffer@, p0, rl);
            &&& h.method@ == buffer@.subrange(m0, m1)
            &&& h.path@ == buffer@.subrange(p0, p1)
            &&& h.body_start == he + 4
            &&& Some(h.content_length as int) == spec_content_length(buffer@, 0, he)
                || (h.content_length == 0 && spec_content_length(buffer@, 0, he) is None)
        }),
{
    let he = match find_header_end(buffer) {
        Some(i) => i,
        None => {
            proof {
                if spec_header_end_from(buffer@, 0) is Some {
                    lemma_header_end_found(buffer@, 0);
                }
            }
            return None;
        },
    };
    proof {
        lemma_header_end_first(buffer@, 0, he as int);
    }
    let lf = lf_idx(buffer, 0, he);
    let rl = if lf > 0 && buffer[lf - 1] == 0x0d {
        lf - 1
    } else {
        lf
    };
    let m0 = skip_ws_to(buffer, 0, rl);
    let m1 = token_end(buffer, m0, rl);
    if m1 == m0 {
        return None;
    }
    let p0 = skip_ws_to(buffer, m1, rl);
    let p1 = token_end(buffer, p0, rl);
    if p1 == p0 {
        return None;
    }
    let method = subvec(buffer, m0, m1);
    let path = subvec(buffer, p0, p1);
    let content_length = content_length_scan(buffer, 0, he);
    Some(
        RequestHead {
            method,
            path,
            content_length: match content_length {
                Some(v) => v,
                None => 0,
            },
            body_start: he + 4,
        },
    )
}

/// A successful search names a position where the blank line stands.
proof fn lemma_header_end_found(b: Seq<u8>, i: int)
    requires
        0 <= i,
        spec_header_end_from(b, i) is Some,
    ensures
        spec_crlfcrlf_at(b, spec_header_end_from(b, i).unwrap()),
    decreases b.len() - i,
{
    if i + 4 <= b.len() && !spec_crlfcrlf_at(b, i) {
        lemma_header_end_found(b, i + 1);
    }
}

/// The first blank line at or after `i` is the search's answer when
/// nothing earlier matches.
proof fn lemma_header_end_first(b: Seq<u8>, i: int, he: int)
    requires
        0 <= i <= he,
        spec_crlfcrlf_at(b, he),
        forall|j: int| i <= j < he ==> !spec_crlfcrlf_at(b, j),
    ensures
        spec_header_end_from(b, i) == Some(he),
    decreases he - i,
{
    if i < he {
        lemma_header_end_first(b, i + 1, he);
    }
}

/// Scans the header lines within `[pos, he)` for the first well-formed
/// content-length value.
#[verifier::loop_isolation(false)]
fn content_length_scan(buffer: &[u8], pos: usize, he: usize) -> (r: Option<usize>)
    requires
        pos <= he <= buffer@.len(),
    ensures
        r matches Some(v) ==> spec_content_length(buffer@, pos as int, he as int) == Some(
            v as int,
        ),
        r is None ==> spec_content_length(buffer@, pos as int, he as int) is None,
    decreases he - pos,
{
    if pos >= he {
        return None;
    }
    let lf = lf_idx(buffer, pos, he);
    let lend = if lf > pos && buffer[lf - 1] == 0x0d {
        lf - 1
    } else {
        lf
    };
    let c = colon_idx(buffer, pos, lend);
    let line_value: Option<usize> = if c >= lend {
        None
    } else {
        let name_expected: [u8; 14] = [
            0x63,
            0x6f,
            0x6e,
            0x74,
            0x65,
            0x6e,
            0x74,
            0x2d,
            0x6c,
            0x65,
            0x6e,
            0x67,
            0x74,
            0x68,
        ];
        proof {
            assert(name_expected@ =~= spec_content_length_name());
        }
        if !eq_fold_lower_bytes(buffer, pos, c, &name_expected) {
            None
        } else {
            let value = subvec(buffer, c + 1, lend);
            let a = skip_ws_to(value.as_slice(), 0, value.len());
            let e = rskip_ws_in(value.as_slice(), a);
            let tv = subvec(value.as_slice(), a, e);
            proof {
                let vv = buffer@.subrange(c as int + 1, lend as int);
                assert(value@ =~= vv);
                lemma_skip_ws_to_full(vv, 0);
            }
            match crate::payload::parse_u64_decimal(tv.as_slice()) {
                Some(v) => {
                    if v <= usize::MAX as u64 {
                        Some(v as usize)
                    } else {
                        None
                    }
                },
                None => None,
            }
        }
    };
    match line_value {
        Some(v) => Some(v),
        None => content_length_scan(buffer, if lf < he { lf + 1 } else { he }, he),
    }
}

/// With no bound in the way, the bounded and unbounded whitespace skips
/// agree.
proof fn lemma_skip_ws_to_full(v: Seq<u8>, i: int)
    requires
        0 <= i <= v.len(),
    ensures
        spec_skip_ws_to(v, i, v.len() as int) == spec_skip_ws(v, i),
    decreases v.len() - i,
{
    if i < v.len() && spec_ws(v[i]) {
        lemma_skip_ws_to_full(v, i + 1);
    }
}

/// Right-trim within a whole buffer: the end of the prefix with no
/// trailing whitespace, at or after `a`.
#[verifier::loop_isolation(false)]
fn rskip_ws_in(b: &[u8], a: usize) -> (r: usize)
    requires
        a <= b@.len(),
    ensures
        a <= r <= b@.len(),
        spec_rskip_ws(b@, b@.len() as int) <= a ==> r == a,
        spec_rskip_ws(b@, b@.len() as int) > a ==> r == spec_rskip_ws(b@, b@.len() as int),
{
    let mut e: usize = b.len();
    while e > a && ws_byte(b[e - 1])
        invariant
            a <= e <= b@.len(),
            spec_rskip_ws(b@, b@.len() as int) == spec_rskip_ws(b@, e as int),
        decreases e,
    {
        e = e - 1;
    }
    proof {
        if e > a {
            assert(spec_rskip_ws(b@, e as int) == e);
        } else {
            lemma_rskip_le(b@, e as int);
        }
    }
    e
}

/// The right-trim cut never exceeds its start.
proof fn lemma_rskip_le(b: Seq<u8>, j: int)
    requires
        0 <= j <= b.len(),
    ensures
        spec_rskip_ws(b, j) <= j,
    decreases j,
{
    if j > 0 && spec_ws(b[j - 1]) {
        lemma_rskip_le(b, j - 1);
    }
}

} // verus!
