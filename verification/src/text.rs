//! Text shaping for prompt assembly and answer extraction: clipping to a
//! character budget, removal of marker tags, extraction of the tagged
//! answer span from a model response, and the line format of a streamed
//! chat response. Whitespace and letter-case handling is ASCII.

use vstd::prelude::*;

verus! {

/// ASCII whitespace character.
pub open spec fn spec_ws_char(c: char) -> bool {
    c == ' ' || c == '\t' || c == '\n' || c == '\r' || c == '\u{b}' || c == '\u{c}'
}

/// ASCII lowercase folding of one character.
pub open spec fn spec_fold_char(c: char) -> char {
    if 'A' <= c <= 'Z' {
        ((c as u8) + 0x20) as char
    } else {
        c
    }
}

/// Index of the first non-whitespace character at or after `i`.
pub open spec fn spec_skip_ws_char(s: Seq<char>, i: int) -> int
    recommends
        0 <= i <= s.len(),
    decreases s.len() - i when 0 <= i <= s.len()
{
    if i >= s.len() {
        s.len() as int
    } else if spec_ws_char(s[i]) {
        spec_skip_ws_char(s, i + 1)
    } else {
        i
    }
}

/// End of the prefix of `s` below `j` with no trailing whitespace.
pub open spec fn spec_rskip_ws_char(s: Seq<char>, j: int) -> int
    recommends
        0 <= j <= s.len(),
    decreases j when 0 <= j
{
    if j <= 0 {
        0
    } else if spec_ws_char(s[j - 1]) {
        spec_rskip_ws_char(s, j - 1)
    } else {
        j
    }
}

/// `s` with ASCII whitespace removed from both ends.
pub open spec fn spec_trim(s: Seq<char>) -> Seq<char> {
    let a = spec_skip_ws_char(s, 0);
    let b = spec_rskip_ws_char(s, s.len() as int);
    if a <= b {
        s.subrange(a, b)
    } else {
        Seq::<char>::empty()
    }
}

/// Whether `p` occurs in `s` at position `i`, folding `s` to lowercase.
pub open spec fn spec_ci_match_at(s: Seq<char>, p: Seq<char>, i: int) -> bool {
    &&& 0 <= i
    &&& i + p.len() <= s.len()
    &&& forall|k: int| 0 <= k < p.len() ==> spec_fold_char(#[trigger] s[i + k]) == p[k]
}

/// The first case-insensitive occurrence of `p` at or after `i`, or the
/// length of `s` when there is none before the end.
pub open spec fn spec_ci_find(s: Seq<char>, p: Seq<char>, i: int) -> int
    recommends
        0 <= i <= s.len(),
    decreases s.len() - i when 0 <= i <= s.len()
{
    if i + p.len() > s.len() {
        s.len() as int
    } else if spec_ci_match_at(s, p, i) {
        i
    } else {
        spec_ci_find(s, p, i + 1)
    }
}

/// `s` with every occurrence of `p` removed, scanning left to right over
/// non-overlapping occurrences.
pub open spec fn spec_remove_all(s: Seq<char>, p: Seq<char>) -> Seq<char>
    recommends
        p.len() >= 1,
    decreases s.len() when p.len() >= 1
{
    if s.len() >= p.len() && s.subrange(0, p.len() as int) == p {
        spec_remove_all(s.skip(p.len() as int), p)
    } else if s.len() == 0 {
        Seq::<char>::empty()
    } else {
        seq![s[0]] + spec_remove_all(s.skip(1), p)
    }
}

/// `s` clipped to at most `max` characters, with an ellipsis appended
/// when anything was cut.
pub open spec fn spec_clip(s: Seq<char>, max: int) -> Seq<char> {
    if s.len() > max {
        s.subrange(0, max) + "..."@
    } else {
        s
    }
}

/// ASCII whitespace test of one character.
fn ws_char(c: char) -> (r: bool)
    ensures
        r == spec_ws_char(c),
{
    c == ' ' || c == '\t' || c == '\n' || c == '\r' || c == '\u{b}' || c == '\u{c}'
}

/// ASCII lowercase folding of one character.
fn fold_char(c: char) -> (r: char)
    ensures
        r == spec_fold_char(c),
{
    if 'A' <= c && c <= 'Z' {
        ((c as u8) + 0x20) as char
    } else {
        c
    }
}

/// `s` with ASCII whitespace removed from both ends.
#[verifier::loop_isolation(false)]
pub fn trim_str(s: &str) -> (r: String)
    ensures
        r@ == spec_trim(s@),
{
    let n = s.unicode_len();
    let mut a: usize = 0;
    while a < n && ws_char(s.get_char(a))
        invariant
            0 <= a <= n == s@.len(),
            spec_skip_ws_char(s@, 0) == spec_skip_ws_char(s@, a as int),
        decreases n - a,
    {
        a = a + 1;
    }
    proof {
        assert(spec_skip_ws_char(s@, 0) == a);
    }
    let mut e: usize = n;
    while e > a && ws_char(s.get_char(e - 1))
        invariant
            a <= e <= n,
            spec_rskip_ws_char(s@, n as int) == spec_rskip_ws_char(s@, e as int),
        decreases e,
    {
        e = e - 1;
    }
    proof {
        if e > a {
            assert(spec_rskip_ws_char(s@, e as int) == e);
        } else {
            lemma_skip_ws_char_range(s@, 0);
            lemma_rskip_ws_char_all(s@, e as int);
        }
    }
    s.substring_char(a, e).to_owned()
}

/// Everything below the first non-whitespace index is whitespace.
proof fn lemma_skip_ws_char_range(s: Seq<char>, i: int)
    requires
        0 <= i <= s.len(),
    ensures
        i <= spec_skip_ws_char(s, i) <= s.len(),
        forall|k: int| i <= k < spec_skip_ws_char(s, i) ==> spec_ws_char(#[trigger] s[k]),
    decreases s.len() - i,
{
    if i < s.len() && spec_ws_char(s[i]) {
        lemma_skip_ws_char_range(s, i + 1);
    }
}

/// A prefix of pure whitespace right-trims to nothing.
proof fn lemma_rskip_ws_char_all(s: Seq<char>, j: int)
    requires
        0 <= j <= s.len(),
        forall|k: int| 0 <= k < j ==> spec_ws_char(#[trigger] s[k]),
    ensures
        spec_rskip_ws_char(s, j) == 0,
    decreases j,
{
    if j > 0 {
        lemma_rskip_ws_char_all(s, j - 1);
    }
}

/// Whether `p` occurs at position `i` of `s` under lowercase folding.
#[verifier::loop_isolation(false)]
fn ci_match_at(s: &str, p: &str, i: usize) -> (r: bool)
    requires
        i <= s@.len(),
    ensures
        r == spec_ci_match_at(s@, p@, i as int),
{
    let n = s.unicode_len();
    let m = p.unicode_len();
    if m > n - i {
        return false;
    }
    let mut k: usize = 0;
    while k < m
        invariant
            0 <= k <= m,
            i + m <= n == s@.len(),
            m == p@.len(),
            forall|t: int| 0 <= t < k ==> spec_fold_char(#[trigger] s@[i + t]) == p@[t],
        decreases m - k,
    {
        if fold_char(s.get_char(i + k)) != p.get_char(k) {
            return false;
        }
        k = k + 1;
    }
    true
}

/// Position of the first case-insensitive occurrence of `p` in `s`, or
/// `None`.
#[verifier::loop_isolation(false)]
pub fn find_ci(s: &str, p: &str) -> (r: Option<usize>)
    requires
        p@.len() >= 1,
    ensures
        r matches Some(i) ==> i == spec_ci_find(s@, p@, 0) && spec_ci_match_at(s@, p@, i as int),
        r is None ==> spec_ci_find(s@, p@, 0) == s@.len(),
{
    let n = s.unicode_len();
    let m = p.unicode_len();
    if m > n {
        proof {
            lemma_ci_find_none(s@, p@, 0);
        }
        return None;
    }
    let mut i: usize = 0;
    while i <= n - m
        invariant
            0 <= i,
            m <= n,
            i <= n - m + 1,
            n == s@.len(),
            m == p@.len(),
            spec_ci_find(s@, p@, 0) == spec_ci_find(s@, p@, i as int),
        decreases n - i,
    {
        if ci_match_at(s, p, i) {
            return Some(i);
        }
        i = i + 1;
    }
    proof {
        lemma_ci_find_none(s@, p@, i as int);
    }
    None
}

/// Past the last possible start, the search yields the length.
proof fn lemma_ci_find_none(s: Seq<char>, p: Seq<char>, i: int)
    requires
        0 <= i <= s.len(),
        i + p.len() > s.len(),
    ensures
        spec_ci_find(s, p, i) == s.len(),
    decreases s.len() - i,
{
}

/// `s` with every occurrence of `pat` removed, scanning left to right.
#[verifier::loop_isolation(false)]
pub fn remove_all(s: &str, pat: &str) -> (r: String)
    requires
        pat@.len() >= 1,
    ensures
        r@ == spec_remove_all(s@, pat@),
{
    let n = s.unicode_len();
    let m = pat.unicode_len();
    let mut out = String::new();
    let mut i: usize = 0;
    proof {
        assert(s@.skip(0) =~= s@);
        assert(out@ + spec_remove_all(s@, pat@) =~= spec_remove_all(s@, pat@));
    }
    while i < n
        invariant
            0 <= i <= n,
            n == s@.len(),
            m == pat@.len(),
            m >= 1,
            spec_remove_all(s@, pat@) == out@ + spec_remove_all(s@.skip(i as int), pat@),
        decreases n - i,
    {
        let matched = if m <= n - i {
            str_match_at(s, pat, i)
        } else {
            false
        };
        if matched {
            proof {
                let t = s@.skip(i as int);
                assert(t.subrange(0, m as int) =~= s@.subrange(i as int, i + m));
                assert(t.subrange(0, m as int) == pat@);
                assert(t.skip(m as int) =~= s@.skip(i + m));
            }
            i = i + m;
        } else {
            proof {
                let t = s@.skip(i as int);
                if t.len() >= m {
                    assert(t.subrange(0, m as int) =~= s@.subrange(i as int, i + m));
                    assert(t.subrange(0, m as int) != pat@);
                }
                assert(t[0] == s@[i as int]);
                assert(t.skip(1) =~= s@.skip(i as int + 1));
            }
            out.append(s.substring_char(i, i + 1));
            proof {
                assert(s@.subrange(i as int, i as int + 1) =~= seq![s@[i as int]]);
            }
            i = i + 1;
        }
    }
    proof {
        assert(s@.skip(n as int) =~= Seq::<char>::empty());
        assert(out@ + Seq::<char>::empty() =~= out@);
    }
    out
}

/// Whether `p` occurs at position `i` of `s`, exactly.
#[verifier::loop_isolation(false)]
fn str_match_at(s: &str, p: &str, i: usize) -> (r: bool)
    requires
        i <= s@.len(),
        i + p@.len() <= s@.len(),
    ensures
        r == (s@.subrange(i as int, i + p@.len()) == p@),
{
    let n = s.unicode_len();
    let m = p.unicode_len();
    let mut k: usize = 0;
    while k < m
        invariant
            0 <= k <= m,
            i + m <= n == s@.len(),
            m == p@.len(),
            forall|t: int| 0 <= t < k ==> #[trigger] s@[i + t] == p@[t],
        decreases m - k,
    {
        if s.get_char(i + k) != p.get_char(k) {
            proof {
                assert(s@.subrange(i as int, i + p@.len())[k as int] != p@[k as int]);
            }
            return false;
        }
        k = k + 1;
    }
    proof {
        assert forall|t: int| 0 <= t < m implies s@.subrange(i as int, i + p@.len())[t]
            == p@[t] by {
            assert(s@[i + t] == p@[t]);
        }
        assert(s@.subrange(i as int, i + p@.len()) =~= p@);
    }
    true
}

/// `s` clipped to at most `max` characters, with an ellipsis appended
/// when anything was cut.
pub fn clip(s: &str, max: usize) -> (r: String)
    ensures
        r@ == spec_clip(s@, max as int),
{
    let n = s.unicode_len();
    if n > max {
        let mut out = s.substring_char(0, max).to_owned();
        out.append("...");
        out
    } else {
        proof {
            assert(s@.subrange(0, s@.len() as int) =~= s@);
        }
        s.to_owned()
    }
}

/// The marker tags removed from model output before display.
pub open spec fn spec_strip_tags(s: Seq<char>) -> Seq<char> {
    spec_remove_all(
        spec_remove_all(
            spec_remove_all(
                spec_remove_all(
                    spec_remove_all(
                        spec_remove_all(
                            spec_remove_all(
                                spec_remove_all(s, "<thinking>"@),
                                "</thinking>"@,
                            ),
                            "<answer>"@,
                        ),
                        "</answer>"@,
                    ),
                    "<THINKING>"@,
                ),
                "</THINKING>"@,
            ),
            "<ANSWER>"@,
        ),
        "</ANSWER>"@,
    )
}

/// Removes the thinking and answer marker tags, in both letter cases, in
/// a fixed order.
pub fn strip_tags(s: &str) -> (r: String)
    ensures
        r@ == spec_strip_tags(s@),
{
    proof {
        reveal_strlit("<thinking>");
        reveal_strlit("</thinking>");
        reveal_strlit("<answer>");
        reveal_strlit("</answer>");
        reveal_strlit("<THINKING>");
        reveal_strlit("</THINKING>");
        reveal_strlit("<ANSWER>");
        reveal_strlit("</ANSWER>");
    }
    let a = remove_all(s, "<thinking>");
    let b = remove_all(a.as_str(), "</thinking>");
    let c = remove_all(b.as_str(), "<answer>");
    let d = remove_all(c.as_str(), "</answer>");
    let e = remove_all(d.as_str(), "<THINKING>");
    let f = remove_all(e.as_str(), "</THINKING>");
    let g = remove_all(f.as_str(), "<ANSWER>");
    remove_all(g.as_str(), "</ANSWER>")
}

/// What extraction yields: the trimmed span between the first answer
/// opening tag and the first closing tag when both exist in that order,
/// otherwise the whole text trimmed.
pub open spec fn spec_extract_answer(s: Seq<char>) -> Seq<char> {
    let si = spec_ci_find(s, "<answer>"@, 0);
    let ei = spec_ci_find(s, "</answer>"@, 0);
    if si + 8 <= s.len() && ei + 9 <= s.len() && si + 8 <= ei {
        spec_trim(s.subrange(si + 8, ei))
    } else {
        spec_trim(s)
    }
}

/// Extracts the answer span from a model response: the text between the
/// first `<answer>` and the first `</answer>`, matched without regard to
/// letter case, trimmed; the whole response trimmed when the tags are
/// absent or out of order.
pub fn extract_answer(text: &str) -> (r: String)
    ensures
        r@ == spec_extract_answer(text@),
{
    proof {
        reveal_strlit("<answer>");
        reveal_strlit("</answer>");
    }
    let si = find_ci(text, "<answer>");
    let ei = find_ci(text, "</answer>");
    match (si, ei) {
        (Some(s), Some(e)) => {
            if e >= 8 && s <= e - 8 {
                let inner = text.substring_char(s + 8, e);
                trim_str(inner)
            } else {
                trim_str(text)
            }
        },
        _ => trim_str(text),
    }
}

/// The payload of one streamed chat line: what follows a `data:` prefix,
/// trimmed; nothing when the prefix is absent or the payload is empty.
pub open spec fn spec_sse_data_payload(line: Seq<char>) -> Option<Seq<char>> {
    if line.len() >= 5 && line.subrange(0, 5) == "data:"@ {
        let t = spec_trim(line.skip(5));
        if t.len() > 0 {
            Some(t)
        } else {
            None
        }
    } else {
        None
    }
}

/// The payload of one streamed chat line, or nothing for other lines and
/// empty payloads.
pub fn sse_data_payload(line: &str) -> (r: Option<String>)
    ensures
        r is Some <==> spec_sse_data_payload(line@) is Some,
        r matches Some(v) ==> Some(v@) == spec_sse_data_payload(line@),
{
    proof {
        reveal_strlit("data:");
    }
    let n = line.unicode_len();
    if n < 5 {
        return None;
    }
    if !str_match_at(line, "data:", 0) {
        return None;
    }
    let rest = line.substring_char(5, n);
    let t = trim_str(rest);
    proof {
        assert(rest@ =~= line@.skip(5));
    }
    if t.unicode_len() == 0 {
        None
    } else {
        Some(t)
    }
}

/// The display name of the answer language for a language code; English
/// for any unrecognized code.
pub open spec fn spec_language_instruction(code: Seq<char>) -> Seq<char> {
    if code == "ja"@ {
        "日本語 (Japanese)"@
    } else if code == "ko"@ {
        "한국어 (Korean)"@
    } else if code == "zh"@ {
        "中文 (Chinese)"@
    } else if code == "es"@ {
        "Español (Spanish)"@
    } else if code == "fr"@ {
        "Français (French)"@
    } else if code == "de"@ {
        "Deutsch (German)"@
    } else if code == "it"@ {
        "Italiano (Italian)"@
    } else if code == "pt"@ {
        "Português (Portuguese)"@
    } else if code == "ru"@ {
        "Русский (Russian)"@
    } else {
        "English"@
    }
}

/// The display name of the answer language for a language code; English
/// for any unrecognized code.
pub fn get_language_instruction(lang_code: &str) -> (r: &'static str)
    ensures
        r@ == spec_language_instruction(lang_code@),
{
    if crate::callback::str_eq(lang_code, "ja") {
        "日本語 (Japanese)"
    } else if crate::callback::str_eq(lang_code, "ko") {
        "한국어 (Korean)"
    } else if crate::callback::str_eq(lang_code, "zh") {
        "中文 (Chinese)"
    } else if crate::callback::str_eq(lang_code, "es") {
        "Español (Spanish)"
    } else if crate::callback::str_eq(lang_code, "fr") {
        "Français (French)"
    } else if crate::callback::str_eq(lang_code, "de") {
        "Deutsch (German)"
    } else if crate::callback::str_eq(lang_code, "it") {
        "Italiano (Italian)"
    } else if crate::callback::str_eq(lang_code, "pt") {
        "Português (Portuguese)"
    } else if crate::callback::str_eq(lang_code, "ru") {
        "Русский (Russian)"
    } else {
        "English"
    }
}

} // verus!
