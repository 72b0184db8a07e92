//! Link previews: the title, description and image a web page declares in
//! its `<meta>` and `<title>` tags, and the checks around fetching it.
//!
//! The HTML is scanned as text, without building a document tree: tags are
//! found by ASCII-case-insensitive search, attributes are read with the
//! quoting rules of HTML, and a few character references are decoded.

use crate::text::{
    ascii_lower, ascii_lower_char, char_from_u32, hex_text_value, is_ascii_whitespace_char,
    is_scalar_value, is_unicode_whitespace, is_whitespace, parse_u32, parse_u32_hex, str_eq,
    string_from_chars, substring, unsigned_text_value,
};
use crate::error::{CoreError, CoreResult};
use crate::media::{
    DEFAULT_LINK_PREVIEW_FETCH_MAX_HTML_BYTES, DEFAULT_LINK_PREVIEW_FETCH_TIMEOUT_MS,
    DEFAULT_LINK_PREVIEW_FETCH_USER_AGENT, DEFAULT_LINK_PREVIEW_IMAGE_FETCH_MAX_BYTES,
    DEFAULT_LINK_PREVIEW_IMAGE_FETCH_TIMEOUT_MS,
};
use crate::message::LinkPreviewContent;
use crate::text::{concat2, opt_view, owned};
use vstd::prelude::*;
use vstd::utf8::{decode_utf8, valid_utf8};

verus! {

// ---------------------------------------------------------------------------
// Searching.
// ---------------------------------------------------------------------------

/// Whether `pat` occurs in `hay` at position `i`.
pub open spec fn occurs_at(hay: Seq<char>, pat: Seq<char>, i: int) -> bool {
    0 <= i && i + pat.len() <= hay.len() && hay.subrange(i, i + pat.len()) == pat
}

/// The first position at or after `from` where `pat` occurs in `hay`.
pub open spec fn first_match(hay: Seq<char>, pat: Seq<char>, from: int) -> Option<int>
    decreases hay.len() + 1 - from,
{
    if from < 0 || from + pat.len() > hay.len() {
        None
    } else if occurs_at(hay, pat, from) {
        Some(from)
    } else {
        first_match(hay, pat, from + 1)
    }
}

pub proof fn lemma_first_match_bounds(hay: Seq<char>, pat: Seq<char>, from: int)
    ensures
        first_match(hay, pat, from) matches Some(i) ==> from <= i && i + pat.len() <= hay.len()
            && occurs_at(hay, pat, i),
    decreases hay.len() + 1 - from,
{
    if from < 0 || from + pat.len() > hay.len() {
    } else if occurs_at(hay, pat, from) {
    } else {
        lemma_first_match_bounds(hay, pat, from + 1);
    }
}

fn occurs_at_exec(hay: &[char], pat: &[char], i: usize) -> (r: bool)
    requires
        i + pat@.len() <= hay@.len(),
    ensures
        r == occurs_at(hay@, pat@, i as int),
{
    let n = hay.len();
    let mut k: usize = 0;
    while k < pat.len()
        invariant
            0 <= k <= pat@.len(),
            n == hay@.len(),
            i + pat@.len() <= hay@.len(),
            forall|j: int| 0 <= j < k ==> hay@[i + j] == pat@[j],
        decreases pat@.len() - k,
    {
        if hay[i + k] != pat[k] {
            assert(hay@.subrange(i as int, i + pat@.len())[k as int] != pat@[k as int]);
            return false;
        }
        k = k + 1;
    }
    assert(hay@.subrange(i as int, i + pat@.len()) =~= pat@);
    true
}

/// The first position at or after `from` where `pat` occurs in `hay`
/// (`str::find` on the tail).
pub fn find_from(hay: &[char], pat: &[char], from: usize) -> (r: Option<usize>)
    ensures
        match r {
            Some(i) => first_match(hay@, pat@, from as int) == Some(i as int),
            None => first_match(hay@, pat@, from as int).is_none(),
        },
{
    if from > hay.len() {
        return None;
    }
    if pat.len() == 0 {
        assert(occurs_at(hay@, pat@, from as int)) by {
            assert(hay@.subrange(from as int, from as int) =~= pat@);
        }
        return Some(from);
    }
    let mut i = from;
    while pat.len() <= hay.len() - i
        invariant
            from <= i <= hay@.len(),
            pat@.len() > 0,
            first_match(hay@, pat@, from as int) == first_match(hay@, pat@, i as int),
        decreases hay@.len() + 1 - i,
    {
        if occurs_at_exec(hay, pat, i) {
            return Some(i);
        }
        i = i + 1;
    }
    None
}

// ---------------------------------------------------------------------------
// Character classes.
// ---------------------------------------------------------------------------

/// Characters that make up an attribute or tag name.
pub open spec fn is_name_char(c: char) -> bool {
    ('a' <= c && c <= 'z') || ('A' <= c && c <= 'Z') || ('0' <= c && c <= '9') || c == ':' || c
        == '_' || c == '-'
}

/// Whether a character belongs to an attribute or tag name: an ASCII
/// letter or digit, `:`, `_` or `-`.
pub fn is_attr_name_char(c: char) -> (r: bool)
    ensures
        r == is_name_char(c),
{
    ('a' <= c && c <= 'z') || ('A' <= c && c <= 'Z') || ('0' <= c && c <= '9') || c == ':' || c
        == '_' || c == '-'
}

fn is_ascii_ws(c: char) -> (r: bool)
    ensures
        r == is_ascii_whitespace_char(c),
{
    c == ' ' || c == '\t' || c == '\n' || c == '\x0C' || c == '\r'
}

fn lower_char(c: char) -> (r: char)
    ensures
        r == ascii_lower_char(c),
{
    if 'A' <= c && c <= 'Z' {
        let b = c as u32 as u8;
        assert(b as u32 == c as u32);
        ((b + 32) as char)
    } else {
        c
    }
}

/// The characters with ASCII letters lowered (`to_ascii_lowercase`).
pub fn lower_chars(cs: &[char]) -> (r: Vec<char>)
    ensures
        r@ == ascii_lower(cs@),
{
    let mut out: Vec<char> = Vec::new();
    let mut i: usize = 0;
    while i < cs.len()
        invariant
            0 <= i <= cs@.len(),
            out@ == ascii_lower(cs@.take(i as int)),
        decreases cs@.len() - i,
    {
        out.push(lower_char(cs[i]));
        assert(cs@.take(i as int + 1) == cs@.take(i as int).push(cs@[i as int]));
        assert(ascii_lower(cs@.take(i as int + 1)) =~= ascii_lower(cs@.take(i as int)).push(
            ascii_lower_char(cs@[i as int]),
        ));
        i = i + 1;
    }
    assert(cs@.take(cs@.len() as int) == cs@);
    out
}

/// ASCII-case-insensitive equality (`eq_ignore_ascii_case`).
pub fn eq_ignore_ascii_case(a: &[char], b: &[char]) -> (r: bool)
    ensures
        r == (ascii_lower(a@) == ascii_lower(b@)),
{
    if a.len() != b.len() {
        assert(ascii_lower(a@).len() != ascii_lower(b@).len());
        return false;
    }
    let mut i: usize = 0;
    while i < a.len()
        invariant
            0 <= i <= a@.len(),
            a@.len() == b@.len(),
            forall|j: int| 0 <= j < i ==> ascii_lower_char(a@[j]) == ascii_lower_char(b@[j]),
        decreases a@.len() - i,
    {
        if lower_char(a[i]) != lower_char(b[i]) {
            assert(ascii_lower(a@)[i as int] != ascii_lower(b@)[i as int]);
            return false;
        }
        i = i + 1;
    }
    assert(ascii_lower(a@) =~= ascii_lower(b@));
    true
}

// ---------------------------------------------------------------------------
// Tags.
// ---------------------------------------------------------------------------

/// The tags named `pattern` (which is `<` and the name, lower case) found
/// from `offset` on: each runs from its `<` to the next `>`. An occurrence
/// followed by a name character belongs to a longer tag name and is
/// skipped; scanning stops at a tag with no closing `>`.
pub open spec fn segments_from(html: Seq<char>, lower: Seq<char>, pattern: Seq<char>, offset: int) -> Seq<Seq<char>>
    decreases lower.len() - offset,
    when 0 <= offset && pattern.len() > 0
{
    match first_match(lower, pattern, offset) {
        None => Seq::empty(),
        Some(start) => {
            proof {
                lemma_first_match_bounds(lower, pattern, offset);
            }
            let after = start + pattern.len();
            if after < lower.len() && is_name_char(lower[after]) {
                segments_from(html, lower, pattern, after)
            } else {
                match first_match(lower, seq!['>'], start) {
                    None => Seq::empty(),
                    Some(gt) => {
                        proof {
                            lemma_first_match_bounds(lower, seq!['>'], start);
                        }
                        seq![html.subrange(start, gt + 1)] + segments_from(
                            html,
                            lower,
                            pattern,
                            gt + 1,
                        )
                    },
                }
            }
        },
    }
}

/// The `<tag ...>` openings of an HTML text, in order.
pub open spec fn tag_segments(html: Seq<char>, tag: Seq<char>) -> Seq<Seq<char>> {
    segments_from(html, ascii_lower(html), seq!['<'] + tag, 0)
}

/// The openings of the tags named `tag` (lower case) in an HTML text.
pub fn html_tag_segments(html: &[char], tag: &str) -> (r: Vec<Vec<char>>)
    ensures
        r@.len() == tag_segments(html@, tag@).len(),
        forall|i: int| 0 <= i < r@.len() ==> #[trigger] r@[i]@ == tag_segments(html@, tag@)[i],
{
    let lower = lower_chars(html);
    let mut pattern: Vec<char> = vec!['<'];
    let tag_chars = crate::text::chars_of(tag);
    let mut k: usize = 0;
    while k < tag_chars.len()
        invariant
            0 <= k <= tag_chars@.len(),
            pattern@ == seq!['<'] + tag_chars@.take(k as int),
        decreases tag_chars@.len() - k,
    {
        pattern.push(tag_chars[k]);
        assert(tag_chars@.take(k as int + 1) == tag_chars@.take(k as int).push(tag_chars@[k as int]));
        k = k + 1;
    }
    assert(tag_chars@.take(tag_chars@.len() as int) == tag_chars@);
    let ghost all = tag_segments(html@, tag@);
    let mut out: Vec<Vec<char>> = Vec::new();
    let mut offset: usize = 0;
    let n = lower.len();
    loop
        invariant
            n == lower@.len(),
            lower@ == ascii_lower(html@),
            lower@.len() == html@.len(),
            pattern@ == seq!['<'] + tag@,
            all == tag_segments(html@, tag@),
            offset <= lower@.len(),
            all == seq_views(out@) + segments_from(html@, lower@, pattern@, offset as int),
        ensures
            all == seq_views(out@),
        decreases lower@.len() - offset,
    {
        proof {
            lemma_first_match_bounds(lower@, pattern@, offset as int);
        }
        let start = match find_from(lower.as_slice(), pattern.as_slice(), offset) {
            Some(s) => s,
            None => {
                assert(segments_from(html@, lower@, pattern@, offset as int) == Seq::<Seq<char>>::empty());
                assert(all =~= seq_views(out@));
                break;
            },
        };
        let after = start + pattern.len();
        if after < lower.len() && is_attr_name_char(lower[after]) {
            offset = after;
            continue;
        }
        proof {
            lemma_first_match_bounds(lower@, seq!['>'], start as int);
        }
        let gt_pat: Vec<char> = vec!['>'];
        assert(gt_pat@ =~= seq!['>']);
        let gt = match find_from(lower.as_slice(), gt_pat.as_slice(), start) {
            Some(g) => g,
            None => {
                assert(segments_from(html@, lower@, pattern@, offset as int) == Seq::<Seq<char>>::empty());
                assert(all =~= seq_views(out@));
                break;
            },
        };
        let seg = crate::text::sub_chars(html, start, gt + 1);
        let ghost before = seq_views(out@);
        out.push(seg);
        proof {
            assert(seq_views(out@) =~= before.push(html@.subrange(start as int, gt + 1)));
        }
        offset = gt + 1;
    }
    out
}

/// The character sequences a vector of character vectors holds.
pub open spec fn seq_views(v: Seq<Vec<char>>) -> Seq<Seq<char>> {
    v.map_values(|x: Vec<char>| x@)
}

// ---------------------------------------------------------------------------
// Attributes.
// ---------------------------------------------------------------------------

/// The runs of characters that attribute scanning skips over.
pub enum CharRun {
    NonName,
    Name,
    Space,
    NotChar(char),
    Unquoted,
}

/// Whether `c` continues a run of the given kind.
pub open spec fn in_run(run: CharRun, c: char) -> bool {
    match run {
        CharRun::NonName => !is_name_char(c),
        CharRun::Name => is_name_char(c),
        CharRun::Space => is_ascii_whitespace_char(c),
        CharRun::NotChar(q) => c != q,
        CharRun::Unquoted => !is_ascii_whitespace_char(c) && c != '>',
    }
}

/// The end of the run of the given kind that starts at `i`: the first
/// position at or after `i` whose character does not continue it, or the
/// end of the text.
pub open spec fn skip_run(t: Seq<char>, i: int, run: CharRun) -> int
    decreases t.len() - i,
{
    if 0 <= i < t.len() && in_run(run, t[i]) {
        skip_run(t, i + 1, run)
    } else {
        i
    }
}

pub proof fn lemma_skip_run(t: Seq<char>, i: int, run: CharRun)
    ensures
        i <= skip_run(t, i, run),
        0 <= i <= t.len() ==> skip_run(t, i, run) <= t.len(),
        0 <= i <= t.len() ==> skip_run(t, i, run) == t.len() || !in_run(run, t[skip_run(t, i, run)]),
        forall|j: int| i <= j < skip_run(t, i, run) ==> in_run(run, #[trigger] t[j]),
    decreases t.len() - i,
{
    if 0 <= i < t.len() && in_run(run, t[i]) {
        lemma_skip_run(t, i + 1, run);
    }
}

/// `s` without its trailing `/` characters.
pub open spec fn trim_slashes(s: Seq<char>) -> Seq<char>
    decreases s.len(),
{
    if s.len() > 0 && s.last() == '/' {
        trim_slashes(s.drop_last())
    } else {
        s
    }
}

/// The raw value of attribute `attr` in a tag, scanning from position `i`:
/// names are runs of name characters; a name without `=` has no value; a
/// value is quoted (up to the matching quote) or runs to white space or
/// `>`, without trailing `/`. Names compare ASCII-case-insensitively; the
/// first match wins.
pub open spec fn attr_raw(t: Seq<char>, attr: Seq<char>, i: int) -> Option<Seq<char>>
    decreases t.len() - i,
    when 0 <= i
{
    if i >= t.len() {
        None
    } else {
        let ns = skip_run(t, i, CharRun::NonName);
        let ne = skip_run(t, ns, CharRun::Name);
        proof {
            lemma_skip_run(t, i, CharRun::NonName);
            lemma_skip_run(t, ns, CharRun::Name);
        }
        if ns == ne {
            None
        } else {
            let name = t.subrange(ns, ne);
            let w = skip_run(t, ne, CharRun::Space);
            proof {
                lemma_skip_run(t, ne, CharRun::Space);
            }
            if w >= t.len() || t[w] != '=' {
                attr_raw(t, attr, w)
            } else {
                let v0 = skip_run(t, w + 1, CharRun::Space);
                proof {
                    lemma_skip_run(t, w + 1, CharRun::Space);
                }
                if v0 >= t.len() {
                    None
                } else if t[v0] == '"' || t[v0] == '\'' {
                    let ve = skip_run(t, v0 + 1, CharRun::NotChar(t[v0]));
                    proof {
                        lemma_skip_run(t, v0 + 1, CharRun::NotChar(t[v0]));
                    }
                    if ascii_lower(name) == ascii_lower(attr) {
                        Some(t.subrange(v0 + 1, ve))
                    } else if ve < t.len() {
                        attr_raw(t, attr, ve + 1)
                    } else {
                        attr_raw(t, attr, ve)
                    }
                } else {
                    let ve = skip_run(t, v0, CharRun::Unquoted);
                    proof {
                        lemma_skip_run(t, v0, CharRun::Unquoted);
                    }
                    if ascii_lower(name) == ascii_lower(attr) {
                        Some(trim_slashes(t.subrange(v0, ve)))
                    } else {
                        attr_raw(t, attr, ve)
                    }
                }
            }
        }
    }
}

fn skip_non_name_exec(t: &[char], i: usize) -> (r: usize)
    requires
        i <= t@.len(),
    ensures
        r == skip_run(t@, i as int, CharRun::NonName),
{
    let mut j = i;
    while j < t.len() && !is_attr_name_char(t[j])
        invariant
            i <= j <= t@.len(),
            skip_run(t@, i as int, CharRun::NonName) == skip_run(t@, j as int, CharRun::NonName),
        decreases t@.len() - j,
    {
        j = j + 1;
    }
    j
}

fn skip_name_exec(t: &[char], i: usize) -> (r: usize)
    requires
        i <= t@.len(),
    ensures
        r == skip_run(t@, i as int, CharRun::Name),
{
    let mut j = i;
    while j < t.len() && is_attr_name_char(t[j])
        invariant
            i <= j <= t@.len(),
            skip_run(t@, i as int, CharRun::Name) == skip_run(t@, j as int, CharRun::Name),
        decreases t@.len() - j,
    {
        j = j + 1;
    }
    j
}

fn skip_ws_exec(t: &[char], i: usize) -> (r: usize)
    requires
        i <= t@.len(),
    ensures
        r == skip_run(t@, i as int, CharRun::Space),
{
    let mut j = i;
    while j < t.len() && is_ascii_ws(t[j])
        invariant
            i <= j <= t@.len(),
            skip_run(t@, i as int, CharRun::Space) == skip_run(t@, j as int, CharRun::Space),
        decreases t@.len() - j,
    {
        j = j + 1;
    }
    j
}

fn skip_to_exec(t: &[char], i: usize, q: char) -> (r: usize)
    requires
        i <= t@.len(),
    ensures
        r == skip_run(t@, i as int, CharRun::NotChar(q)),
{
    let mut j = i;
    while j < t.len() && t[j] != q
        invariant
            i <= j <= t@.len(),
            skip_run(t@, i as int, CharRun::NotChar(q)) == skip_run(t@, j as int, CharRun::NotChar(q)),
        decreases t@.len() - j,
    {
        j = j + 1;
    }
    j
}

fn skip_unquoted_exec(t: &[char], i: usize) -> (r: usize)
    requires
        i <= t@.len(),
    ensures
        r == skip_run(t@, i as int, CharRun::Unquoted),
{
    let mut j = i;
    while j < t.len() && !is_ascii_ws(t[j]) && t[j] != '>'
        invariant
            i <= j <= t@.len(),
            skip_run(t@, i as int, CharRun::Unquoted) == skip_run(t@, j as int, CharRun::Unquoted),
        decreases t@.len() - j,
    {
        j = j + 1;
    }
    j
}

fn trim_slashes_exec(v: &[char], from: usize, to: usize) -> (r: Vec<char>)
    requires
        from <= to <= v@.len(),
    ensures
        r@ == trim_slashes(v@.subrange(from as int, to as int)),
{
    let mut end = to;
    while end > from && v[end - 1] == '/'
        invariant
            from <= end <= to <= v@.len(),
            trim_slashes(v@.subrange(from as int, to as int)) == trim_slashes(
                v@.subrange(from as int, end as int),
            ),
        decreases end,
    {
        assert(v@.subrange(from as int, end as int).drop_last() == v@.subrange(
            from as int,
            end - 1,
        ));
        end = end - 1;
    }
    crate::text::sub_chars(v, from, end)
}

/// The raw value of attribute `attr` in a tag (see [`attr_raw`]).
fn html_attr_raw(t: &[char], attr: &[char]) -> (r: Option<Vec<char>>)
    ensures
        match r {
            Some(v) => attr_raw(t@, attr@, 0) == Some(v@),
            None => attr_raw(t@, attr@, 0).is_none(),
        },
{
    let n = t.len();
    let mut index: usize = 0;
    while index < n
        invariant
            n == t@.len(),
            index <= n,
            attr_raw(t@, attr@, 0) == attr_raw(t@, attr@, index as int),
        decreases n - index,
    {
        let ghost i0 = index as int;
        proof {
            lemma_skip_run(t@, i0, CharRun::NonName);
        }
        let ns = skip_non_name_exec(t, index);
        proof {
            lemma_skip_run(t@, ns as int, CharRun::Name);
        }
        let ne = skip_name_exec(t, ns);
        if ns == ne {
            return None;
        }
        let name = crate::text::sub_chars(t, ns, ne);
        proof {
            lemma_skip_run(t@, ne as int, CharRun::Space);
        }
        let w = skip_ws_exec(t, ne);
        if w >= n || t[w] != '=' {
            index = w;
            continue;
        }
        proof {
            lemma_skip_run(t@, w + 1, CharRun::Space);
        }
        let v0 = skip_ws_exec(t, w + 1);
        if v0 >= n {
            return None;
        }
        let first = t[v0];
        if first == '"' || first == '\'' {
            proof {
                lemma_skip_run(t@, v0 + 1, CharRun::NotChar(first));
            }
            let ve = skip_to_exec(t, v0 + 1, first);
            if eq_ignore_ascii_case(name.as_slice(), attr) {
                return Some(crate::text::sub_chars(t, v0 + 1, ve));
            }
            index = if ve < n { ve + 1 } else { ve };
        } else {
            proof {
                lemma_skip_run(t@, v0 as int, CharRun::Unquoted);
            }
            let ve = skip_unquoted_exec(t, v0);
            if eq_ignore_ascii_case(name.as_slice(), attr) {
                return Some(trim_slashes_exec(t, v0, ve));
            }
            index = ve;
        }
    }
    None
}

// ---------------------------------------------------------------------------
// Character references and white space.
// ---------------------------------------------------------------------------

/// The character a code point denotes, if it is a scalar value.
pub open spec fn code_char(v: Option<nat>) -> Option<char> {
    match v {
        Some(n) => if n <= u32::MAX && is_scalar_value(n) {
            Some((n as u32) as char)
        } else {
            None
        },
        None => None,
    }
}

/// The character a reference `&e;` stands for: one of the named
/// references `amp`, `lt`, `gt`, `quot`, `apos`, or a numeric reference
/// (`#x`/`#X` and hexadecimal digits, or `#` and decimal digits).
pub open spec fn entity_char(e: Seq<char>) -> Option<char> {
    if e == "amp"@ {
        Some('&')
    } else if e == "lt"@ {
        Some('<')
    } else if e == "gt"@ {
        Some('>')
    } else if e == "quot"@ {
        Some('"')
    } else if e == "apos"@ || e == "#39"@ {
        Some('\'')
    } else if e.len() >= 2 && e[0] == '#' && (e[1] == 'x' || e[1] == 'X') {
        code_char(hex_text_value(e.skip(2)))
    } else if e.len() >= 1 && e[0] == '#' {
        code_char(unsigned_text_value(e.skip(1)))
    } else {
        None
    }
}

/// What a reference `&e;` becomes: its character, or the reference itself
/// when it names none.
pub open spec fn entity_text(e: Seq<char>) -> Seq<char> {
    match entity_char(e) {
        Some(c) => seq![c],
        None => seq!['&'] + e + seq![';'],
    }
}

/// `s` from position `i` on with its character references decoded: each
/// `&` up to the next `;` is a reference; an `&` with no `;` after it
/// stays, with the rest of the text.
pub open spec fn decode_from(s: Seq<char>, i: int) -> Seq<char>
    decreases s.len() - i,
    when 0 <= i
{
    if i >= s.len() {
        Seq::empty()
    } else if s[i] != '&' {
        seq![s[i]] + decode_from(s, i + 1)
    } else {
        match first_match(s, seq![';'], i + 1) {
            None => s.skip(i),
            Some(e) => {
                proof {
                    lemma_first_match_bounds(s, seq![';'], i + 1);
                }
                entity_text(s.subrange(i + 1, e)) + decode_from(s, e + 1)
            },
        }
    }
}

/// `s` with its character references decoded.
pub open spec fn decode_entities(s: Seq<char>) -> Seq<char> {
    decode_from(s, 0)
}

/// The words of `s` (its runs of non-white-space characters) joined by
/// single spaces.
pub open spec fn collapse_ws(s: Seq<char>) -> Seq<char>
    decreases s.len(),
{
    if s.len() == 0 {
        Seq::empty()
    } else {
        let p = s.drop_last();
        let c = s.last();
        if is_unicode_whitespace(c) {
            collapse_ws(p)
        } else if p.len() > 0 && is_unicode_whitespace(p.last()) && collapse_ws(p).len() > 0 {
            collapse_ws(p) + seq![' ', c]
        } else {
            collapse_ws(p).push(c)
        }
    }
}

/// Text taken from HTML: references decoded, white space collapsed; none
/// if nothing is left.
pub open spec fn normalized_text(s: Seq<char>) -> Option<Seq<char>> {
    let c = collapse_ws(decode_entities(s));
    if c.len() == 0 {
        None
    } else {
        Some(c)
    }
}

fn entity_char_exec(e: &[char]) -> (r: Option<char>)
    ensures
        r == entity_char(e@),
{
    let text = string_from_chars(e);
    if str_eq(text.as_str(), "amp") {
        return Some('&');
    } else if str_eq(text.as_str(), "lt") {
        return Some('<');
    } else if str_eq(text.as_str(), "gt") {
        return Some('>');
    } else if str_eq(text.as_str(), "quot") {
        return Some('"');
    } else if str_eq(text.as_str(), "apos") || str_eq(text.as_str(), "#39") {
        return Some('\'');
    }
    let n = e.len();
    let value: Option<u32> = if n >= 2 && e[0] == '#' && (e[1] == 'x' || e[1] == 'X') {
        let digits = substring(e, 2, n);
        assert(digits@ == e@.skip(2));
        parse_u32_hex(digits.as_str())
    } else if n >= 1 && e[0] == '#' {
        let digits = substring(e, 1, n);
        assert(digits@ == e@.skip(1));
        parse_u32(digits.as_str())
    } else {
        return None;
    };
    match value {
        Some(v) => {
            let c = char_from_u32(v);
            if let Some(ch) = c {
                proof {
                    vstd::utf8::char_u32_cast(ch, v);
                }
            }
            c
        },
        None => None,
    }
}

/// `value` with its character references decoded.
pub fn decode_html_entities(value: &[char]) -> (r: Vec<char>)
    ensures
        r@ == decode_entities(value@),
{
    let n = value.len();
    let semi: Vec<char> = vec![';'];
    assert(semi@ =~= seq![';']);
    let mut out: Vec<char> = Vec::new();
    let mut i: usize = 0;
    while i < n
        invariant
            n == value@.len(),
            i <= n,
            semi@ == seq![';'],
            decode_from(value@, 0) == out@ + decode_from(value@, i as int),
        decreases n - i,
    {
        let c = value[i];
        if c != '&' {
            out.push(c);
            assert(decode_from(value@, 0) =~= out@ + decode_from(value@, i + 1));
            i = i + 1;
        } else {
            proof {
                lemma_first_match_bounds(value@, seq![';'], i + 1);
            }
            match find_from(value, semi.as_slice(), i + 1) {
                None => {
                    let ghost before = out@;
                    let mut j = i;
                    while j < n
                        invariant
                            n == value@.len(),
                            i <= j <= n,
                            out@ == before + value@.subrange(i as int, j as int),
                        decreases n - j,
                    {
                        out.push(value[j]);
                        assert(out@ =~= before + value@.subrange(i as int, j + 1));
                        j = j + 1;
                    }
                    assert(value@.subrange(i as int, n as int) == value@.skip(i as int));
                    assert(decode_from(value@, i as int) == value@.skip(i as int));
                    assert(decode_from(value@, 0) =~= out@ + decode_from(value@, n as int));
                    i = n;
                },
                Some(e) => {
                    let entity = crate::text::sub_chars(value, i + 1, e);
                    let ghost before = out@;
                    match entity_char_exec(entity.as_slice()) {
                        Some(d) => {
                            out.push(d);
                        },
                        None => {
                            out.push('&');
                            let mut k: usize = 0;
                            while k < entity.len()
                                invariant
                                    k <= entity@.len(),
                                    out@ == before.push('&') + entity@.take(k as int),
                                decreases entity@.len() - k,
                            {
                                out.push(entity[k]);
                                assert(entity@.take(k + 1) == entity@.take(k as int).push(entity@[k as int]));
                                k = k + 1;
                            }
                            out.push(';');
                            assert(entity@.take(entity@.len() as int) == entity@);
                        },
                    }
                    assert(out@ =~= before + entity_text(value@.subrange(i + 1, e as int)));
                    assert(decode_from(value@, 0) =~= out@ + decode_from(value@, e + 1));
                    i = e + 1;
                },
            }
        }
    }
    assert(decode_from(value@, n as int) == Seq::<char>::empty());
    assert(out@ =~= decode_from(value@, 0));
    out
}

/// The words of `s` joined by single spaces (`split_whitespace` then
/// `join(" ")`).
pub fn collapse_whitespace(s: &[char]) -> (r: Vec<char>)
    ensures
        r@ == collapse_ws(s@),
{
    let mut out: Vec<char> = Vec::new();
    let mut i: usize = 0;
    while i < s.len()
        invariant
            0 <= i <= s@.len(),
            out@ == collapse_ws(s@.take(i as int)),
        decreases s@.len() - i,
    {
        let c = s[i];
        let ghost t = s@.take(i as int + 1);
        assert(t.drop_last() == s@.take(i as int));
        assert(t.last() == c);
        if is_whitespace(c) {
        } else if i > 0 && is_whitespace(s[i - 1]) && out.len() > 0 {
            assert(t.drop_last().last() == s@[i - 1]);
            out.push(' ');
            out.push(c);
        } else {
            if i > 0 {
                assert(t.drop_last().last() == s@[i - 1]);
            }
            out.push(c);
        }
        assert(out@ =~= collapse_ws(t));
        i = i + 1;
    }
    assert(s@.take(s@.len() as int) == s@);
    out
}

/// Text taken from HTML: references decoded, white space collapsed; none
/// if nothing is left.
pub fn normalize_html_text(value: &[char]) -> (r: Option<String>)
    ensures
        match r {
            Some(t) => normalized_text(value@) == Some(t@),
            None => normalized_text(value@).is_none(),
        },
{
    let decoded = decode_html_entities(value);
    let collapsed = collapse_whitespace(decoded.as_slice());
    if collapsed.len() == 0 {
        None
    } else {
        Some(string_from_chars(collapsed.as_slice()))
    }
}

/// The value of attribute `attr` in a tag, with its character references
/// decoded.
pub fn html_attr_value(tag: &[char], attr: &[char]) -> (r: Option<Vec<char>>)
    ensures
        match r {
            Some(v) => attr_raw(tag@, attr@, 0) matches Some(raw) && v@ == decode_entities(raw),
            None => attr_raw(tag@, attr@, 0).is_none(),
        },
{
    match html_attr_raw(tag, attr) {
        Some(raw) => Some(decode_html_entities(raw.as_slice())),
        None => None,
    }
}

// ---------------------------------------------------------------------------
// Titles, descriptions and images.
// ---------------------------------------------------------------------------

/// The text a `<meta>` tag gives when its attribute `key_attr` equals
/// `key_value` (ignoring ASCII case): its `content` attribute, decoded and
/// normalized.
pub open spec fn meta_pick(seg: Seq<char>, key_attr: Seq<char>, key_value: Seq<char>) -> Option<Seq<char>> {
    match attr_raw(seg, key_attr, 0) {
        None => None,
        Some(raw) => if ascii_lower(decode_entities(raw)) != ascii_lower(key_value) {
            None
        } else {
            match attr_raw(seg, "content"@, 0) {
                None => None,
                Some(c) => normalized_text(decode_entities(c)),
            }
        },
    }
}

/// The first text that one of the tags gives (see [`meta_pick`]).
pub open spec fn first_meta(segs: Seq<Seq<char>>, key_attr: Seq<char>, key_value: Seq<char>) -> Option<Seq<char>>
    decreases segs.len(),
{
    if segs.len() == 0 {
        None
    } else {
        match meta_pick(segs[0], key_attr, key_value) {
            Some(v) => Some(v),
            None => first_meta(segs.drop_first(), key_attr, key_value),
        }
    }
}

/// The content of the first `<meta>` tag of an HTML text whose `key_attr`
/// is `key_value` and whose content is not blank.
pub open spec fn meta_content(html: Seq<char>, key_attr: Seq<char>, key_value: Seq<char>) -> Option<Seq<char>> {
    first_meta(tag_segments(html, "meta"@), key_attr, key_value)
}

/// The normalized text of the first `<title>` element.
pub open spec fn title_text(html: Seq<char>) -> Option<Seq<char>> {
    let lower = ascii_lower(html);
    match first_match(lower, "<title"@, 0) {
        None => None,
        Some(start) => match first_match(lower, seq!['>'], start) {
            None => None,
            Some(gt) => match first_match(lower, "</title>"@, gt + 1) {
                None => None,
                Some(close) => normalized_text(html.subrange(gt + 1, close)),
            },
        },
    }
}

fn meta_pick_exec(seg: &[char], key_attr: &[char], key_value: &[char]) -> (r: Option<String>)
    ensures
        match r {
            Some(v) => meta_pick(seg@, key_attr@, key_value@) == Some(v@),
            None => meta_pick(seg@, key_attr@, key_value@).is_none(),
        },
{
    let value = match html_attr_value(seg, key_attr) {
        Some(v) => v,
        None => {
            return None;
        },
    };
    if !eq_ignore_ascii_case(value.as_slice(), key_value) {
        return None;
    }
    let content_name = crate::text::chars_of("content");
    let content = match html_attr_value(seg, content_name.as_slice()) {
        Some(c) => c,
        None => {
            return None;
        },
    };
    normalize_html_text(content.as_slice())
}

/// The content of the first `<meta>` tag whose `key_attr` is `key_value`
/// and whose content is not blank.
pub fn find_meta_content(html: &[char], key_attr: &str, key_value: &str) -> (r: Option<String>)
    ensures
        match r {
            Some(v) => meta_content(html@, key_attr@, key_value@) == Some(v@),
            None => meta_content(html@, key_attr@, key_value@).is_none(),
        },
{
    let segs = html_tag_segments(html, "meta");
    let ghost all = tag_segments(html@, "meta"@);
    let attr_chars = crate::text::chars_of(key_attr);
    let value_chars = crate::text::chars_of(key_value);
    assert(all.skip(0) == all);
    let mut i: usize = 0;
    while i < segs.len()
        invariant
            0 <= i <= segs@.len(),
            segs@.len() == all.len(),
            forall|k: int| 0 <= k < segs@.len() ==> #[trigger] segs@[k]@ == all[k],
            attr_chars@ == key_attr@,
            value_chars@ == key_value@,
            meta_content(html@, key_attr@, key_value@) == first_meta(all.skip(i as int), key_attr@, key_value@),
        decreases segs@.len() - i,
    {
        assert(all.skip(i as int)[0] == all[i as int]);
        assert(all.skip(i as int).drop_first() == all.skip(i + 1));
        match meta_pick_exec(segs[i].as_slice(), attr_chars.as_slice(), value_chars.as_slice()) {
            Some(v) => {
                return Some(v);
            },
            None => {},
        }
        i = i + 1;
    }
    None
}

/// The normalized text of the first `<title>` element.
pub fn find_title_text(html: &[char]) -> (r: Option<String>)
    ensures
        match r {
            Some(v) => title_text(html@) == Some(v@),
            None => title_text(html@).is_none(),
        },
{
    let lower = lower_chars(html);
    let lower_len = lower.len();
    let open_pat = crate::text::chars_of("<title");
    let gt_pat: Vec<char> = vec!['>'];
    assert(gt_pat@ =~= seq!['>']);
    let close_pat = crate::text::chars_of("</title>");
    proof {
        lemma_first_match_bounds(lower@, open_pat@, 0);
    }
    let start = match find_from(lower.as_slice(), open_pat.as_slice(), 0) {
        Some(s) => s,
        None => {
            return None;
        },
    };
    proof {
        lemma_first_match_bounds(lower@, seq!['>'], start as int);
    }
    let gt = match find_from(lower.as_slice(), gt_pat.as_slice(), start) {
        Some(g) => g,
        None => {
            return None;
        },
    };
    proof {
        lemma_first_match_bounds(lower@, close_pat@, gt + 1);
    }
    let close = match find_from(lower.as_slice(), close_pat.as_slice(), gt + 1) {
        Some(c) => c,
        None => {
            return None;
        },
    };
    let inner = crate::text::sub_chars(html, gt + 1, close);
    normalize_html_text(inner.as_slice())
}

// ---------------------------------------------------------------------------
// URLs.
// ---------------------------------------------------------------------------

/// What `reqwest::Url::parse` (the url crate's `Url::parse`) makes of a text: the URL's
/// serialization and scheme, or nothing when the text is not an absolute
/// URL.
pub uninterp spec fn parsed_url(text: Seq<char>) -> Option<(Seq<char>, Seq<char>)>;

/// What `reqwest::Url::join` (the url crate's `Url::join`) gives for `reference` against the URL
/// that `base` parses to: the serialization and scheme of the result, or
/// nothing when `base` does not parse or the join fails.
pub uninterp spec fn joined_url(base: Seq<char>, reference: Seq<char>) -> Option<(Seq<char>, Seq<char>)>;

/// Parses an absolute URL with `reqwest::Url::parse`: its serialization and
/// scheme, or the parser's description of the failure (not stated).
#[verifier::external_body]
pub(crate) fn url_parse(text: &str) -> (r: Result<(String, String), String>)
    ensures
        match r {
            Ok((s, scheme)) => parsed_url(text@) == Some((s@, scheme@)),
            Err(_) => parsed_url(text@).is_none(),
        },
{
    match reqwest::Url::parse(text) {
        Ok(u) => Ok((u.as_str().to_owned(), u.scheme().to_owned())),
        Err(e) => Err(e.to_string()),
    }
}

/// Resolves `reference` against `base` with `reqwest::Url::parse` and
/// `reqwest::Url::join`: the serialization and scheme of the result.
#[verifier::external_body]
fn url_join(base: &str, reference: &str) -> (r: Option<(String, String)>)
    ensures
        match r {
            Some((s, scheme)) => joined_url(base@, reference@) == Some((s@, scheme@)),
            None => joined_url(base@, reference@).is_none(),
        },
{
    let base = reqwest::Url::parse(base).ok()?;
    let joined = base.join(reference).ok()?;
    Some((joined.as_str().to_owned(), joined.scheme().to_owned()))
}

pub open spec fn is_web_scheme(scheme: Seq<char>) -> bool {
    scheme == "http"@ || scheme == "https"@
}

/// The web URL an image reference of a page denotes: the normalized
/// reference resolved against the page's URL (or, where that fails, taken
/// as an absolute URL), if the page URL parses and the result is `http` or
/// `https`.
pub open spec fn resolved_url(base: Seq<char>, raw: Seq<char>) -> Option<Seq<char>> {
    match normalized_text(raw) {
        None => None,
        Some(r) => match parsed_url(base) {
            None => None,
            Some(_) => {
                let u = match joined_url(base, r) {
                    Some(x) => Some(x),
                    None => parsed_url(r),
                };
                match u {
                    Some((text, scheme)) => if is_web_scheme(scheme) {
                        Some(text)
                    } else {
                        None
                    },
                    None => None,
                }
            },
        },
    }
}

fn is_web_scheme_exec(scheme: &str) -> (r: bool)
    ensures
        r == is_web_scheme(scheme@),
{
    str_eq(scheme, "http") || str_eq(scheme, "https")
}

/// The web URL an image reference of a page denotes (see [`resolved_url`]).
pub fn resolve_link_preview_url(base_url: &str, raw_url: &str) -> (r: Option<String>)
    ensures
        match r {
            Some(u) => resolved_url(base_url@, raw_url@) == Some(u@),
            None => resolved_url(base_url@, raw_url@).is_none(),
        },
{
    let raw_chars = crate::text::chars_of(raw_url);
    let raw = match normalize_html_text(raw_chars.as_slice()) {
        Some(r) => r,
        None => {
            return None;
        },
    };
    if url_parse(base_url).is_err() {
        return None;
    }
    let resolved = match url_join(base_url, raw.as_str()) {
        Some(x) => x,
        None => match url_parse(raw.as_str()) {
            Ok(x) => x,
            Err(_) => {
                return None;
            },
        },
    };
    let (text, scheme) = resolved;
    if is_web_scheme_exec(scheme.as_str()) {
        Some(text)
    } else {
        None
    }
}

/// The URL a link preview is fetched from: an absolute `http` or `https`
/// URL, in its normalized form.
pub fn parse_link_preview_fetch_url(url: &str) -> (r: CoreResult<String>)
    ensures
        match r {
            Ok(u) => parsed_url(url@) matches Some((text, scheme)) && is_web_scheme(scheme) && u@
                == text,
            Err(e) => e is Payload && match parsed_url(url@) {
                Some((_, scheme)) => !is_web_scheme(scheme) && (e matches CoreError::Payload(m) && m@
                    == "unsupported link preview URL scheme: "@ + scheme),
                None => e matches CoreError::Payload(m) && "invalid link preview URL: "@.is_prefix_of(m@),
            },
        },
{
    match url_parse(url) {
        Ok((text, scheme)) => {
            if is_web_scheme_exec(scheme.as_str()) {
                Ok(text)
            } else {
                Err(CoreError::Payload(concat2("unsupported link preview URL scheme: ", scheme.as_str())))
            }
        },
        Err(reason) => Err(CoreError::Payload(concat2("invalid link preview URL: ", reason.as_str()))),
    }
}

// ---------------------------------------------------------------------------
// Previews.
// ---------------------------------------------------------------------------

/// A link preview read from a fetched page.
#[derive(Clone, Debug, PartialEq, Eq)]
pub struct FetchedLinkPreview {
    pub content: LinkPreviewContent,
    pub final_url: String,
    pub image_url: Option<String>,
}

pub open spec fn or_else(a: Option<Seq<char>>, b: Option<Seq<char>>) -> Option<Seq<char>> {
    if a is Some {
        a
    } else {
        b
    }
}

/// A page's title: `og:title`, else `twitter:title`, else its `<title>`.
pub open spec fn preview_title(html: Seq<char>) -> Option<Seq<char>> {
    or_else(
        meta_content(html, "property"@, "og:title"@),
        or_else(meta_content(html, "name"@, "twitter:title"@), title_text(html)),
    )
}

/// A page's description: `og:description`, else `description`, else
/// `twitter:description`.
pub open spec fn preview_description(html: Seq<char>) -> Option<Seq<char>> {
    or_else(
        meta_content(html, "property"@, "og:description"@),
        or_else(
            meta_content(html, "name"@, "description"@),
            meta_content(html, "name"@, "twitter:description"@),
        ),
    )
}

/// A page's image: `og:image`, else `twitter:image`, resolved against the
/// page's URL.
pub open spec fn preview_image(final_url: Seq<char>, html: Seq<char>) -> Option<Seq<char>> {
    match or_else(
        meta_content(html, "property"@, "og:image"@),
        meta_content(html, "name"@, "twitter:image"@),
    ) {
        Some(image) => resolved_url(final_url, image),
        None => None,
    }
}

/// A page's title is its `og:title` meta, else its `twitter:title` meta,
/// else its `<title>` text, and the preview is refused only when it has
/// none of the three; its description is its `og:description` meta, else
/// its `description` meta, else its `twitter:description` meta.
pub proof fn lemma_preview_text_sources(html: Seq<char>)
    ensures
        meta_content(html, "property"@, "og:title"@) is Some ==> preview_title(html) == meta_content(
            html,
            "property"@,
            "og:title"@,
        ),
        meta_content(html, "property"@, "og:title"@) is None && meta_content(html, "name"@, "twitter:title"@)
            is Some ==> preview_title(html) == meta_content(html, "name"@, "twitter:title"@),
        meta_content(html, "property"@, "og:title"@) is None && meta_content(html, "name"@, "twitter:title"@)
            is None ==> preview_title(html) == title_text(html),
        meta_content(html, "property"@, "og:description"@) is Some ==> preview_description(html) == meta_content(
            html,
            "property"@,
            "og:description"@,
        ),
        meta_content(html, "property"@, "og:description"@) is None && meta_content(html, "name"@, "description"@)
            is Some ==> preview_description(html) == meta_content(html, "name"@, "description"@),
        meta_content(html, "property"@, "og:description"@) is None && meta_content(html, "name"@, "description"@)
            is None ==> preview_description(html) == meta_content(html, "name"@, "twitter:description"@),
{
}

/// A page's image comes from its `og:image` meta when it has one, and
/// otherwise from its `twitter:image` meta, in either case resolved against
/// the page's URL; a page with neither meta has no image.
pub proof fn lemma_preview_image_sources(final_url: Seq<char>, html: Seq<char>)
    ensures
        meta_content(html, "property"@, "og:image"@) matches Some(c) ==> preview_image(final_url, html)
            == resolved_url(final_url, c),
        meta_content(html, "property"@, "og:image"@) is None ==> (meta_content(html, "name"@, "twitter:image"@)
            matches Some(c) ==> preview_image(final_url, html) == resolved_url(final_url, c)),
        meta_content(html, "property"@, "og:image"@) is None && meta_content(html, "name"@, "twitter:image"@)
            is None ==> preview_image(final_url, html) is None,
{
}

fn first_of(a: Option<String>, b: Option<String>) -> (r: Option<String>)
    ensures
        opt_view(r) == or_else(opt_view(a), opt_view(b)),
{
    if a.is_some() {
        a
    } else {
        b
    }
}

/// The link preview a page gives: its title (required), description and
/// image. `matched_text` is the link as it appeared in the message and
/// `final_url` the URL the page was fetched from.
pub fn link_preview_from_html(matched_text: &str, final_url: &str, html: &str) -> (r: CoreResult<FetchedLinkPreview>)
    ensures
        match r {
            Ok(p) => {
                &&& preview_title(html@) matches Some(t) && p.content.title@ == t
                &&& p.content.matched_text@ == matched_text@
                &&& opt_view(p.content.description) == preview_description(html@)
                &&& p.content.jpeg_thumbnail.is_none()
                &&& p.content.high_quality_thumbnail.is_none()
                &&& p.final_url@ == final_url@
                &&& opt_view(p.image_url) == preview_image(final_url@, html@)
            },
            Err(e) => preview_title(html@).is_none() && (e matches CoreError::Payload(m) && m@
                == "link preview HTML missing title"@),
        },
{
    let h = crate::text::chars_of(html);
    let title = first_of(
        find_meta_content(h.as_slice(), "property", "og:title"),
        first_of(find_meta_content(h.as_slice(), "name", "twitter:title"), find_title_text(h.as_slice())),
    );
    let title = match title {
        Some(t) => t,
        None => {
            return Err(crate::error::payload("link preview HTML missing title"));
        },
    };
    let description = first_of(
        find_meta_content(h.as_slice(), "property", "og:description"),
        first_of(
            find_meta_content(h.as_slice(), "name", "description"),
            find_meta_content(h.as_slice(), "name", "twitter:description"),
        ),
    );
    let image = first_of(
        find_meta_content(h.as_slice(), "property", "og:image"),
        find_meta_content(h.as_slice(), "name", "twitter:image"),
    );
    let image_url = match image {
        Some(i) => resolve_link_preview_url(final_url, i.as_str()),
        None => None,
    };
    let mut content = LinkPreviewContent::new(matched_text, title.as_str());
    if let Some(d) = description {
        content = content.with_description(d.as_str());
    }
    Ok(FetchedLinkPreview { content, final_url: owned(final_url), image_url })
}

/// What `String::from_utf8_lossy` makes of bytes (each ill-formed sequence
/// replaced by U+FFFD).
pub uninterp spec fn lossy_text(bytes: Seq<u8>) -> Seq<char>;

/// Decodes bytes as UTF-8, replacing ill-formed sequences
/// (`String::from_utf8_lossy`); well-formed UTF-8 decodes to its
/// characters.
#[verifier::external_body]
fn utf8_lossy(bytes: &[u8]) -> (s: String)
    ensures
        s@ == lossy_text(bytes@),
        valid_utf8(bytes@) ==> s@ == decode_utf8(bytes@),
{
    String::from_utf8_lossy(bytes).into_owned()
}

/// The link preview a fetched page body gives (see
/// [`link_preview_from_html`]); the body is decoded as UTF-8, replacing
/// ill-formed sequences.
pub fn link_preview_from_body(matched_text: &str, final_url: &str, body: &[u8]) -> (r: CoreResult<FetchedLinkPreview>)
    ensures
        match r {
            Ok(p) => {
                &&& preview_title(lossy_text(body@)) matches Some(t) && p.content.title@ == t
                &&& p.content.matched_text@ == matched_text@
                &&& opt_view(p.content.description) == preview_description(lossy_text(body@))
                &&& p.content.jpeg_thumbnail.is_none()
                &&& p.content.high_quality_thumbnail.is_none()
                &&& p.final_url@ == final_url@
                &&& opt_view(p.image_url) == preview_image(final_url@, lossy_text(body@))
            },
            Err(e) => preview_title(lossy_text(body@)).is_none() && (e matches CoreError::Payload(m)
                && m@ == "link preview HTML missing title"@),
        },
{
    let html = utf8_lossy(body);
    link_preview_from_html(matched_text, final_url, html.as_str())
}

// ---------------------------------------------------------------------------
// Fetching.
// ---------------------------------------------------------------------------

/// How a page is fetched for its link preview. The timeout is in
/// milliseconds.
#[derive(Clone, Debug, PartialEq, Eq)]
pub struct LinkPreviewFetchOptions {
    pub max_html_bytes: usize,
    pub timeout_ms: u64,
    pub user_agent: Option<String>,
    pub max_redirects: usize,
}

impl Default for LinkPreviewFetchOptions {
    fn default() -> (o: Self)
        ensures
            o.max_html_bytes == DEFAULT_LINK_PREVIEW_FETCH_MAX_HTML_BYTES,
            o.timeout_ms == DEFAULT_LINK_PREVIEW_FETCH_TIMEOUT_MS,
            opt_view(o.user_agent) == Some(DEFAULT_LINK_PREVIEW_FETCH_USER_AGENT@),
            o.max_redirects == 5,
    {
        LinkPreviewFetchOptions {
            max_html_bytes: DEFAULT_LINK_PREVIEW_FETCH_MAX_HTML_BYTES,
            timeout_ms: DEFAULT_LINK_PREVIEW_FETCH_TIMEOUT_MS,
            user_agent: Some(owned(DEFAULT_LINK_PREVIEW_FETCH_USER_AGENT)),
            max_redirects: 5,
        }
    }
}

/// How a preview image is fetched. The timeout is in milliseconds.
#[derive(Clone, Debug, PartialEq, Eq)]
pub struct LinkPreviewImageFetchOptions {
    pub max_image_bytes: usize,
    pub timeout_ms: u64,
    pub user_agent: Option<String>,
    pub max_redirects: usize,
}

impl Default for LinkPreviewImageFetchOptions {
    fn default() -> (o: Self)
        ensures
            o.max_image_bytes == DEFAULT_LINK_PREVIEW_IMAGE_FETCH_MAX_BYTES,
            o.timeout_ms == DEFAULT_LINK_PREVIEW_IMAGE_FETCH_TIMEOUT_MS,
            opt_view(o.user_agent) == Some(DEFAULT_LINK_PREVIEW_FETCH_USER_AGENT@),
            o.max_redirects == 5,
    {
        LinkPreviewImageFetchOptions {
            max_image_bytes: DEFAULT_LINK_PREVIEW_IMAGE_FETCH_MAX_BYTES,
            timeout_ms: DEFAULT_LINK_PREVIEW_IMAGE_FETCH_TIMEOUT_MS,
            user_agent: Some(owned(DEFAULT_LINK_PREVIEW_FETCH_USER_AGENT)),
            max_redirects: 5,
        }
    }
}

/// Checks page fetch options: a positive size limit and timeout.
pub fn validate_link_preview_fetch_options(options: &LinkPreviewFetchOptions) -> (r: CoreResult<()>)
    ensures
        match r {
            Ok(_) => options.max_html_bytes > 0 && options.timeout_ms > 0,
            Err(e) => e matches CoreError::Payload(m) && if options.max_html_bytes == 0 {
                m@ == "link preview max HTML bytes must be greater than zero"@
            } else {
                options.timeout_ms == 0 && m@ == "link preview fetch timeout must be non-zero"@
            },
        },
{
    if options.max_html_bytes == 0 {
        return Err(crate::error::payload("link preview max HTML bytes must be greater than zero"));
    }
    if options.timeout_ms == 0 {
        return Err(crate::error::payload("link preview fetch timeout must be non-zero"));
    }
    Ok(())
}

/// Checks image fetch options: a positive size limit and timeout.
pub fn validate_link_preview_image_fetch_options(options: &LinkPreviewImageFetchOptions) -> (r: CoreResult<()>)
    ensures
        match r {
            Ok(_) => options.max_image_bytes > 0 && options.timeout_ms > 0,
            Err(e) => e matches CoreError::Payload(m) && if options.max_image_bytes == 0 {
                m@ == "link preview max image bytes must be greater than zero"@
            } else {
                options.timeout_ms == 0 && m@ == "link preview image fetch timeout must be non-zero"@
            },
        },
{
    if options.max_image_bytes == 0 {
        return Err(crate::error::payload("link preview max image bytes must be greater than zero"));
    }
    if options.timeout_ms == 0 {
        return Err(crate::error::payload("link preview image fetch timeout must be non-zero"));
    }
    Ok(())
}

/// The media type of a `Content-Type` value: the part before the first
/// `;`, trimmed and in lower case.
pub open spec fn media_type_of(content_type: Seq<char>) -> Seq<char> {
    let first = match first_match(content_type, seq![';'], 0) {
        Some(i) => content_type.take(i),
        None => content_type,
    };
    ascii_lower(crate::text::trimmed(first))
}

/// Whether a media type is an image type that previews accept (any
/// `image/` type but SVG).
pub open spec fn accepted_image_type(t: Seq<char>) -> bool {
    t.len() >= 6 && t.take(6) == "image/"@ && t != "image/svg+xml"@
}

/// Checks the `Content-Type` of a fetched preview image.
pub fn validate_link_preview_image_content_type(content_type: &str) -> (r: CoreResult<()>)
    ensures
        match r {
            Ok(_) => accepted_image_type(media_type_of(content_type@)),
            Err(e) => !accepted_image_type(media_type_of(content_type@)) && (e matches CoreError::Protocol(m)
                && m@ == "link preview image fetch returned unsupported content-type "@ + media_type_of(content_type@)),
        },
{
    let cs = crate::text::chars_of(content_type);
    let semi: Vec<char> = vec![';'];
    assert(semi@ =~= seq![';']);
    proof {
        lemma_first_match_bounds(cs@, seq![';'], 0);
    }
    let end = match find_from(cs.as_slice(), semi.as_slice(), 0) {
        Some(i) => i,
        None => cs.len(),
    };
    assert(cs@.subrange(0, end as int) == match first_match(cs@, seq![';'], 0) {
        Some(i) => cs@.take(i),
        None => cs@,
    });
    let first = crate::text::substring(cs.as_slice(), 0, end);
    let trimmed = crate::text::trim(first.as_str());
    let tchars = crate::text::chars_of(trimmed.as_str());
    let lowered = lower_chars(tchars.as_slice());
    let image_prefix = crate::text::chars_of("image/");
    let svg = crate::text::chars_of("image/svg+xml");
    proof {
        reveal_strlit("image/");
        reveal_strlit("image/svg+xml");
    }
    let mut ok = lowered.len() >= 6 && occurs_at_exec(lowered.as_slice(), image_prefix.as_slice(), 0);
    if ok {
        assert(lowered@.subrange(0, 6) == lowered@.take(6));
        if lowered.len() == svg.len() && occurs_at_exec(lowered.as_slice(), svg.as_slice(), 0) {
            assert(lowered@.subrange(0, svg@.len() as int) == lowered@);
            ok = false;
        } else {
            proof {
                if lowered@ == svg@ {
                    assert(occurs_at(lowered@, svg@, 0)) by {
                        assert(lowered@.subrange(0, svg@.len() as int) == lowered@);
                    }
                }
            }
        }
    } else {
        proof {
            if lowered@.len() >= 6 {
                assert(lowered@.subrange(0, 6) == lowered@.take(6));
            }
        }
    }
    if ok {
        Ok(())
    } else {
        let lowered_text = crate::text::string_from_chars(lowered.as_slice());
        Err(CoreError::Protocol(concat2("link preview image fetch returned unsupported content-type ", lowered_text.as_str())))
    }
}

/// Whether a page's `Content-Type` is HTML: its lower-case form contains
/// `text/html` or `application/xhtml+xml`.
pub open spec fn is_html_type(content_type: Seq<char>) -> bool {
    first_match(ascii_lower(content_type), "text/html"@, 0) is Some || first_match(
        ascii_lower(content_type),
        "application/xhtml+xml"@,
        0,
    ) is Some
}

/// Whether an HTTP status is a success (2xx).
pub open spec fn is_success_status(status: u16) -> bool {
    200 <= status && status < 300
}

/// What a page response's headers decide before its body is read. The
/// status is given by its code and the text it displays as; the
/// `Content-Type` is absent, not text (`Some(None)`), or its text.
pub fn check_link_preview_response(
    status: u16,
    status_text: &str,
    content_length: Option<u64>,
    content_type: Option<Option<&str>>,
    max_html_bytes: usize,
) -> (r: CoreResult<()>)
    ensures
        match r {
            Ok(_) => {
                &&& is_success_status(status)
                &&& !(content_length matches Some(n) && n > max_html_bytes)
                &&& match content_type {
                    Some(Some(t)) => is_html_type(t@),
                    Some(None) => false,
                    None => true,
                }
            },
            Err(e) => if !is_success_status(status) {
                e matches CoreError::Protocol(m) && m@ == "link preview fetch failed with HTTP status "@
                    + status_text@
            } else if content_length matches Some(n) && n > max_html_bytes {
                e matches CoreError::Payload(m) && m@ == "link preview HTML exceeds "@
                    + crate::text::decimal_chars(max_html_bytes as nat) + " bytes"@
            } else {
                match content_type {
                    Some(Some(t)) => !is_html_type(t@) && (e matches CoreError::Protocol(m) && m@
                        == "link preview fetch returned unsupported content-type "@ + ascii_lower(t@)),
                    Some(None) => e matches CoreError::Protocol(m) && m@
                        == "link preview content-type is not valid UTF-8"@,
                    None => false,
                }
            },
        },
{
    if !(200 <= status && status < 300) {
        return Err(CoreError::Protocol(concat2("link preview fetch failed with HTTP status ", status_text)));
    }
    if let Some(n) = content_length {
        if n > max_html_bytes as u64 {
            let max_text = crate::text::u64_to_string(max_html_bytes as u64);
            return Err(CoreError::Payload(crate::text::concat3("link preview HTML exceeds ", max_text.as_str(), " bytes")));
        }
    }
    match content_type {
        Some(Some(t)) => {
            let cs = crate::text::chars_of(t);
            let lower = lower_chars(cs.as_slice());
            let html_pat = crate::text::chars_of("text/html");
            let xhtml_pat = crate::text::chars_of("application/xhtml+xml");
            let is_html = find_from(lower.as_slice(), html_pat.as_slice(), 0).is_some() || find_from(
                lower.as_slice(),
                xhtml_pat.as_slice(),
                0,
            ).is_some();
            if !is_html {
                let lower_text = crate::text::string_from_chars(lower.as_slice());
                return Err(CoreError::Protocol(concat2("link preview fetch returned unsupported content-type ", lower_text.as_str())));
            }
            Ok(())
        },
        Some(None) => Err(crate::error::protocol("link preview content-type is not valid UTF-8")),
        None => Ok(()),
    }
}

/// What a preview image response's headers decide before its body is
/// read (see [`check_link_preview_response`]).
pub fn check_link_preview_image_response(
    status: u16,
    status_text: &str,
    content_length: Option<u64>,
    content_type: Option<Option<&str>>,
    max_image_bytes: usize,
) -> (r: CoreResult<()>)
    ensures
        match r {
            Ok(_) => {
                &&& is_success_status(status)
                &&& !(content_length matches Some(n) && n > max_image_bytes)
                &&& match content_type {
                    Some(Some(t)) => accepted_image_type(media_type_of(t@)),
                    Some(None) => false,
                    None => true,
                }
            },
            Err(e) => if !is_success_status(status) {
                e matches CoreError::Protocol(m) && m@ == "link preview image fetch failed with HTTP status "@
                    + status_text@
            } else if content_length matches Some(n) && n > max_image_bytes {
                e matches CoreError::Payload(m) && m@ == "link preview image exceeds "@
                    + crate::text::decimal_chars(max_image_bytes as nat) + " bytes"@
            } else {
                match content_type {
                    Some(Some(t)) => !accepted_image_type(media_type_of(t@)) && (e matches CoreError::Protocol(m)
                        && m@ == "link preview image fetch returned unsupported content-type "@
                        + media_type_of(t@)),
                    Some(None) => e matches CoreError::Protocol(m) && m@
                        == "link preview image content-type is not valid UTF-8"@,
                    None => false,
                }
            },
        },
{
    if !(200 <= status && status < 300) {
        return Err(CoreError::Protocol(concat2("link preview image fetch failed with HTTP status ", status_text)));
    }
    if let Some(n) = content_length {
        if n > max_image_bytes as u64 {
            let max_text = crate::text::u64_to_string(max_image_bytes as u64);
            return Err(CoreError::Payload(crate::text::concat3("link preview image exceeds ", max_text.as_str(), " bytes")));
        }
    }
    match content_type {
        Some(Some(t)) => validate_link_preview_image_content_type(t),
        Some(None) => Err(crate::error::protocol("link preview image content-type is not valid UTF-8")),
        None => Ok(()),
    }
}

/// The sum of two sizes, capped at `usize::MAX`.
pub open spec fn saturating_sum(a: usize, b: usize) -> int {
    if a + b > usize::MAX {
        usize::MAX as int
    } else {
        a + b
    }
}

/// Whether a body chunk may be taken: `received` bytes so far and
/// `chunk_len` more (the sum capped at `usize::MAX`) must not exceed
/// `max_bytes`.
pub fn check_link_preview_body_chunk(received: usize, chunk_len: usize, max_bytes: usize, label: &str) -> (r: CoreResult<()>)
    ensures
        match r {
            Ok(_) => saturating_sum(received, chunk_len) <= max_bytes,
            Err(e) => saturating_sum(received, chunk_len) > max_bytes && (e matches CoreError::Payload(m) && m@ == label@
                + " exceeds "@ + crate::text::decimal_chars(max_bytes as nat) + " bytes"@),
        },
{
    let total: usize = if received > usize::MAX - chunk_len {
        usize::MAX
    } else {
        received + chunk_len
    };
    if total > max_bytes {
        let max_text = crate::text::u64_to_string(max_bytes as u64);
        let m1 = concat2(label, " exceeds ");
        return Err(CoreError::Payload(crate::text::concat3(m1.as_str(), max_text.as_str(), " bytes")));
    }
    Ok(())
}

} // verus!
