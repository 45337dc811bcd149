//! Site information for a new app: its title, its icon candidates in the
//! order they are tried, inline `data:` icons, and the image formats an icon
//! may have. Fetching and saving are the caller's part.
//!
//! Tags are found in the lower-cased page and read from the page at the
//! same byte offsets, as `str::find` and `str` slicing count them. Where such
//! an offset cuts a character of the page (slicing a `str` there panics),
//! nothing is read there.
use vstd::prelude::*;
use crate::links::{joined_url, join_url, json_string_literal, js_string_literal, opt_text, parse_url, parsed_url};
use crate::numbers::{parse_i32, parse_signed};
use crate::text::{
    contains, contains_exec, find, find_exec, find_from, find_from_bytes, find_from_exec,
    from_chars, lemma_find_from_first, lowercase, replace, replace_str, slice_bytes, slice_to_vec,
    starts_with, starts_with_exec, to_chars, to_lowercase, trim, trim_exec, trim_str,
};
use vstd::utf8::{decode_utf8, encode_utf8, valid_utf8};

verus! {

broadcast use vstd::string::group_string_axioms;

/// `s` with the HTML entities `&amp;`, `&lt;`, `&gt;`, `&quot;`, `&#39;` and
/// `&apos;` decoded, in that order.
pub open spec fn decoded_entities(s: Seq<char>) -> Seq<char> {
    replace(
        replace(
            replace(replace(replace(replace(s, "&amp;"@, "&"@), "&lt;"@, "<"@), "&gt;"@, ">"@), "&quot;"@, "\""@),
            "&#39;"@,
            "'"@,
        ),
        "&apos;"@,
        "'"@,
    )
}

/// `s` with its HTML entities decoded (see [`decoded_entities`]).
pub fn decode_html_entities(s: &str) -> (r: String)
    ensures
        r@ == decoded_entities(s@),
{
    proof {
        reveal_strlit("&amp;");
        reveal_strlit("&lt;");
        reveal_strlit("&gt;");
        reveal_strlit("&quot;");
        reveal_strlit("&#39;");
        reveal_strlit("&apos;");
    }
    let a = replace_str(s, "&amp;", "&");
    let b = replace_str(a.as_str(), "&lt;", "<");
    let c = replace_str(b.as_str(), "&gt;", ">");
    let d = replace_str(c.as_str(), "&quot;", "\"");
    let e = replace_str(d.as_str(), "&#39;", "'");
    replace_str(e.as_str(), "&apos;", "'")
}

/// The text of the bytes `b[from..to]` where they are whole UTF-8
/// characters: what slicing a `str` at those byte offsets gives, where the
/// slice does not panic; `None` where it would (the range leaves `b` or cuts
/// a character).
pub open spec fn text_piece(b: Seq<u8>, from: int, to: int) -> Option<Seq<char>> {
    if 0 <= from <= to <= b.len() && valid_utf8(b.subrange(from, to)) {
        Some(decode_utf8(b.subrange(from, to)))
    } else {
        None
    }
}

/// The text of the bytes `b[from..to]` (see [`text_piece`]).
fn text_piece_exec(b: &[u8], from: usize, to: usize) -> (r: Option<String>)
    ensures
        opt_text(r) == text_piece(b@, from as int, to as int),
{
    if from > to || to > b.len() {
        return None;
    }
    let v = slice_bytes(b, from, to);
    match utf8_text(v.as_slice()) {
        Some(t) => Some(String::from_str(t)),
        None => None,
    }
}

/// The value after the first `pattern` in the tag's lower-cased bytes
/// `lower`, read from the tag's bytes `tag` up to the next `closer` byte; as
/// `str::find` does, positions are byte offsets.
pub open spec fn attr_at(tag: Seq<u8>, lower: Seq<u8>, pattern: Seq<char>, closer: u8) -> Option<Seq<char>> {
    let pat = encode_utf8(pattern);
    match find(lower, pat) {
        None => None,
        Some(pos) => {
            let vs = pos + pat.len();
            match find_from(tag, seq![closer], vs) {
                None => None,
                Some(ve) => text_piece(tag, vs, ve),
            }
        },
    }
}

/// The value of attribute `name` in a tag, given the UTF-8 bytes of the tag
/// (`tag`) and of the tag in lower case (`lower`): written `name="…"`,
/// `name='…'`, `name = "…"` or `name = '…'`, tried in that order.
pub open spec fn attr_value(tag: Seq<u8>, lower: Seq<u8>, name: Seq<char>) -> Option<Seq<char>> {
    match attr_at(tag, lower, name + "=\""@, DOUBLE_QUOTE) {
        Some(v) => Some(v),
        None => match attr_at(tag, lower, name + "='"@, SINGLE_QUOTE) {
            Some(v) => Some(v),
            None => match attr_at(tag, lower, name + " = \""@, DOUBLE_QUOTE) {
                Some(v) => Some(v),
                None => attr_at(tag, lower, name + " = '"@, SINGLE_QUOTE),
            },
        },
    }
}

/// The byte of `"`.
pub const DOUBLE_QUOTE: u8 = 34;

/// The byte of `'`.
pub const SINGLE_QUOTE: u8 = 39;

fn attr_try(tag: &[u8], lower: &[u8], name: &str, suffix: &str, closer: u8) -> (r: Option<String>)
    ensures
        opt_text(r) == attr_at(tag@, lower@, name@ + suffix@, closer),
{
    let mut pat = String::from_str(name);
    pat.append(suffix);
    let pb = pat.as_str().as_bytes();
    let pos = match find_from_bytes(lower, pb, 0) {
        Some(p) => p,
        None => {
            return None;
        },
    };
    let n = lower.len();
    assert(pos + pb@.len() <= n);
    let vs = pos + pb.len();
    let cv: Vec<u8> = vec![closer];
    assert(cv@ =~= seq![closer]);
    match find_from_bytes(tag, cv.as_slice(), vs) {
        Some(ve) => text_piece_exec(tag, vs, ve),
        None => None,
    }
}

/// The value of attribute `name` in a tag (see [`attr_value`]), given the
/// UTF-8 bytes of the tag and of the tag in lower case.
pub fn extract_attr(tag: &[u8], lower: &[u8], name: &str) -> (r: Option<String>)
    ensures
        opt_text(r) == attr_value(tag@, lower@, name@),
{
    match attr_try(tag, lower, name, "=\"", DOUBLE_QUOTE) {
        Some(v) => {
            return Some(v);
        },
        None => {},
    }
    match attr_try(tag, lower, name, "='", SINGLE_QUOTE) {
        Some(v) => {
            return Some(v);
        },
        None => {},
    }
    match attr_try(tag, lower, name, " = \"", DOUBLE_QUOTE) {
        Some(v) => {
            return Some(v);
        },
        None => {},
    }
    attr_try(tag, lower, name, " = '", SINGLE_QUOTE)
}

/// The priority of an icon by its `sizes` attribute: 8 for `any` (a
/// scalable icon), 7, 5, 3 or 1 for a width of at least 128, 64, 32 or less
/// in `<w>x<h>`, and 0 for anything else.
pub open spec fn size_priority(sizes: Seq<char>) -> int {
    if sizes.len() == 0 {
        0
    } else if lowercase(sizes) == "any"@ {
        8
    } else {
        match crate::text::split_once(sizes, 'x') {
            Some((w, h)) => if crate::text::find(h, seq!['x']) is Some {
                0
            } else {
                match parse_signed(trim(w), i32::MIN as int, i32::MAX as int) {
                    Some(n) => if n >= 128 {
                        7
                    } else if n >= 64 {
                        5
                    } else if n >= 32 {
                        3
                    } else {
                        1
                    },
                    None => 0,
                }
            },
            None => 0,
        }
    }
}

/// The priority of an icon by its `sizes` attribute (see
/// [`size_priority`]).
pub fn parse_icon_size(sizes: &str) -> (r: i32)
    ensures
        r == size_priority(sizes@),
{
    proof {
        reveal_strlit("any");
    }
    let v = to_chars(sizes);
    if v.len() == 0 {
        return 0;
    }
    let lower = to_lowercase(sizes);
    if str_eq_any(lower.as_str()) {
        return 8;
    }
    match crate::text::split_once_exec(v.as_slice(), 'x') {
        Some((w, h)) => {
            let xv = vec!['x'];
            assert(xv@ =~= seq!['x']);
            if find_exec(h.as_slice(), xv.as_slice()).is_some() {
                return 0;
            }
            let tw = trim_exec(w.as_slice());
            match parse_i32(tw.as_slice()) {
                Some(n) => if n >= 128 {
                    7
                } else if n >= 64 {
                    5
                } else if n >= 32 {
                    3
                } else {
                    1
                },
                None => 0,
            }
        },
        None => 0,
    }
}

fn str_eq_any(s: &str) -> (r: bool)
    ensures
        r == (s@ == "any"@),
{
    crate::text::str_eq(s, "any")
}

/// `href` resolved against the page `base`: absolute `http(s)` addresses
/// and `data:` URIs as they are, protocol-relative ones with `https:`, and
/// others joined onto `base`, or as they are where that fails.
pub open spec fn resolved(href: Seq<char>, base: Seq<char>) -> Seq<char> {
    if starts_with(href, "http://"@) || starts_with(href, "https://"@) {
        href
    } else if starts_with(href, "//"@) {
        "https:"@ + href
    } else if starts_with(href, "data:"@) {
        href
    } else {
        match joined_url(base, href) {
            Some(u) => u,
            None => href,
        }
    }
}

fn begins_with(s: &[char], p: &str) -> (r: bool)
    ensures
        r == starts_with(s@, p@),
{
    let pv = to_chars(p);
    starts_with_exec(s, pv.as_slice())
}

/// `href` resolved against the page `base` (see [`resolved`]).
pub fn resolve_url(href: &str, base: &str) -> (r: String)
    ensures
        r@ == resolved(href@, base@),
{
    let h = to_chars(href);
    if begins_with(h.as_slice(), "http://") || begins_with(h.as_slice(), "https://") {
        return String::from_str(href);
    }
    if begins_with(h.as_slice(), "//") {
        let mut r = String::from_str("https:");
        r.append(href);
        return r;
    }
    if begins_with(h.as_slice(), "data:") {
        return String::from_str(href);
    }
    match join_url(base, href) {
        Some(u) => u,
        None => String::from_str(href),
    }
}

/// The UTF-8 bytes of a page and of the page in lower case: the offsets the
/// page is searched and sliced at.
pub open spec fn page_bytes(html: Seq<char>) -> (Seq<u8>, Seq<u8>) {
    (encode_utf8(html), encode_utf8(lowercase(html)))
}

/// The page's title: the text of its `<title>` element, trimmed and with
/// its entities decoded; `None` where there is none or it is blank. The
/// element is found in the lower-cased page and its text read from the page
/// at the same byte offsets (nothing where they cut a character).
pub open spec fn title_of(html: Seq<char>) -> Option<Seq<char>> {
    let (h, lower) = page_bytes(html);
    match find(lower, encode_utf8("<title"@)) {
        None => None,
        Some(st) => match find_from(lower, encode_utf8(">"@), st) {
            None => None,
            Some(te) => match find_from(lower, encode_utf8("</title>"@), te + 1) {
                None => None,
                Some(e) => match text_piece(h, te + 1, e) {
                    None => None,
                    Some(raw) => {
                        let t = trim(raw);
                        if t.len() == 0 {
                            None
                        } else {
                            Some(decoded_entities(t))
                        }
                    },
                },
            },
        },
    }
}

/// The page's title (see [`title_of`]).
pub fn extract_title(html: &str) -> (r: Option<String>)
    ensures
        opt_text(r) == title_of(html@),
{
    let hb = html.as_bytes();
    let lower_s = to_lowercase(html);
    let lb = lower_s.as_str().as_bytes();
    let st = match find_from_bytes(lb, "<title".as_bytes(), 0) {
        Some(k) => k,
        None => {
            return None;
        },
    };
    let te = match find_from_bytes(lb, ">".as_bytes(), st) {
        Some(k) => k,
        None => {
            return None;
        },
    };
    if te >= lb.len() {
        return None;
    }
    let e = match find_from_bytes(lb, "</title>".as_bytes(), te + 1) {
        Some(k) => k,
        None => {
            return None;
        },
    };
    let raw = match text_piece_exec(hb, te + 1, e) {
        Some(t) => t,
        None => {
            return None;
        },
    };
    let t = trim_str(raw.as_str());
    if t.len() == 0 {
        return None;
    }
    let ts = from_chars(t.as_slice());
    Some(decode_html_entities(ts.as_str()))
}

/// The page's `og:image`, resolved against the page, given the UTF-8 bytes
/// of the page and of the page in lower case: the `content` of the tag
/// within 300 bytes of the first `property="og:image"`; nothing where that
/// window leaves the lower-cased page or cuts a character.
pub open spec fn og_image_of(h: Seq<u8>, lower: Seq<u8>, page_url: Seq<char>) -> Option<Seq<char>> {
    match find(lower, encode_utf8("property=\"og:image\""@)) {
        None => None,
        Some(pos) => {
            let s = if pos > 300 {
                pos - 300
            } else {
                0
            };
            let e = if pos + 300 < h.len() {
                pos + 300
            } else {
                h.len() as int
            };
            if s > e || e > lower.len() || !valid_utf8(h.subrange(s, e)) || !valid_utf8(
                lower.subrange(s, e),
            ) {
                None
            } else {
                match attr_value(h.subrange(s, e), lower.subrange(s, e), "content"@) {
                    Some(v) => Some(resolved(v, page_url)),
                    None => None,
                }
            }
        },
    }
}

/// The page's `og:image` (see [`og_image_of`]), given the page and the page
/// in lower case.
pub fn extract_og_image(html: &str, lower: &str, page_url: &str) -> (r: Option<String>)
    ensures
        opt_text(r) == og_image_of(encode_utf8(html@), encode_utf8(lower@), page_url@),
{
    let hb = html.as_bytes();
    let lb = lower.as_bytes();
    let pos = match find_from_bytes(lb, "property=\"og:image\"".as_bytes(), 0) {
        Some(p) => p,
        None => {
            return None;
        },
    };
    let hl = hb.len();
    let ll = lb.len();
    let s = if pos > 300 {
        pos - 300
    } else {
        0
    };
    let e = if hl > 300 && pos < hl - 300 {
        pos + 300
    } else {
        hl
    };
    if s > e || e > ll {
        return None;
    }
    let snippet = slice_bytes(hb, s, e);
    let snippet_lower = slice_bytes(lb, s, e);
    if utf8_text(snippet.as_slice()).is_none() || utf8_text(snippet_lower.as_slice()).is_none() {
        return None;
    }
    match extract_attr(snippet.as_slice(), snippet_lower.as_slice(), "content") {
        Some(v) => Some(resolve_url(v.as_str(), page_url)),
        None => None,
    }
}

/// The icon candidate of a `<link>` tag, given the UTF-8 bytes of the tag
/// and of the tag in lower case: where its `rel` names an icon and it has a
/// non-empty `href`, that address resolved against the page, with priority
/// 10 for an `apple-touch-icon` and else by its `sizes` (see
/// [`size_priority`]).
pub open spec fn link_entry(tag: Seq<u8>, tl: Seq<u8>, page_url: Seq<char>) -> Option<(int, Seq<char>)> {
    let rel_lower = lowercase(
        match attr_value(tag, tl, "rel"@) {
            Some(r) => r,
            None => seq![],
        },
    );
    if !contains(rel_lower, "icon"@) {
        None
    } else {
        match attr_value(tag, tl, "href"@) {
            None => None,
            Some(h) => if h.len() == 0 {
                None
            } else {
                let pr = if contains(rel_lower, "apple-touch-icon"@) {
                    10
                } else {
                    size_priority(
                        match attr_value(tag, tl, "sizes"@) {
                            Some(z) => z,
                            None => seq![],
                        },
                    )
                };
                Some((pr, resolved(h, page_url)))
            },
        }
    }
}

/// The icon candidates of the `<link>` tags that start at or after byte
/// `from` of the lower-cased page `lower` (`h` being the page's bytes), in
/// page order (see [`link_entry`]); the scan stops at a tag that does not
/// close, or whose bytes in the page cut a character.
pub open spec fn link_candidates(h: Seq<u8>, lower: Seq<u8>, page_url: Seq<char>, from: int) -> Seq<
    (int, Seq<char>),
>
    decreases lower.len() + 1 - from,
{
    if from < 0 || from > lower.len() {
        seq![]
    } else {
        match find_from(lower, encode_utf8("<link"@), from) {
            None => seq![],
            Some(abs) => match find_from(lower, encode_utf8(">"@), abs) {
                None => seq![],
                Some(tag_end) => if tag_end + 1 > h.len() || tag_end + 1 > lower.len() || !valid_utf8(
                    h.subrange(abs, tag_end + 1),
                ) {
                    seq![]
                } else {
                    proof {
                        lemma_find_from_first(lower, encode_utf8("<link"@), from);
                        lemma_find_from_first(lower, encode_utf8(">"@), abs);
                    }
                    let rest = link_candidates(h, lower, page_url, tag_end + 1);
                    match link_entry(h.subrange(abs, tag_end + 1), lower.subrange(abs, tag_end + 1), page_url) {
                        Some(e) => seq![e] + rest,
                        None => rest,
                    }
                },
            },
        }
    }
}

/// All icon candidates of a page in page order: its `<link>` icons, then
/// its `og:image` with priority -1.
pub open spec fn icon_candidates(html: Seq<char>, page_url: Seq<char>) -> Seq<(int, Seq<char>)> {
    let (h, lower) = page_bytes(html);
    link_candidates(h, lower, page_url, 0) + match og_image_of(h, lower, page_url) {
        Some(u) => seq![(-1int, u)],
        None => seq![],
    }
}

/// An entry of lower priority than `pr`.
pub open spec fn below(pr: int) -> spec_fn((int, Seq<char>)) -> bool {
    |x: (int, Seq<char>)| x.0 < pr
}

/// `sorted` with `e` inserted after every entry of at least its priority.
pub open spec fn insert_by_priority(sorted: Seq<(int, Seq<char>)>, e: (int, Seq<char>)) -> Seq<
    (int, Seq<char>),
> {
    match crate::state::first_index(sorted, below(e.0)) {
        Some(k) => sorted.insert(k, e),
        None => sorted.push(e),
    }
}

/// `c` sorted by priority, highest first, entries of equal priority in
/// their order in `c` (a stable sort).
pub open spec fn by_priority(c: Seq<(int, Seq<char>)>) -> Seq<(int, Seq<char>)>
    decreases c.len(),
{
    if c.len() == 0 {
        seq![]
    } else {
        insert_by_priority(by_priority(c.drop_last()), c.last())
    }
}

/// The addresses of a page's favicons, best first (see
/// [`icon_candidates`] and [`by_priority`]).
pub open spec fn favicon_urls(html: Seq<char>, page_url: Seq<char>) -> Seq<Seq<char>> {
    by_priority(icon_candidates(html, page_url)).map_values(|e: (int, Seq<char>)| e.1)
}

/// The view of a list of prioritized addresses.
pub open spec fn entries_view(v: Seq<(i32, String)>) -> Seq<(int, Seq<char>)> {
    v.map_values(|e: (i32, String)| (e.0 as int, e.1@))
}

fn link_entry_exec(tag: &[u8], tl: &[u8], page_url: &str) -> (r: Option<(i32, String)>)
    ensures
        match link_entry(tag@, tl@, page_url@) {
            Some((p, u)) => r matches Some((q, v)) && q as int == p && v@ == u,
            None => r is None,
        },
{
    proof {
        reveal_strlit("icon");
        reveal_strlit("apple-touch-icon");
    }
    let rel = match extract_attr(tag, tl, "rel") {
        Some(r) => r,
        None => String::new(),
    };
    let rel_lower_s = to_lowercase(rel.as_str());
    let rel_lower = to_chars(rel_lower_s.as_str());
    let icon = to_chars("icon");
    if !contains_exec(rel_lower.as_slice(), icon.as_slice()) {
        return None;
    }
    let href = match extract_attr(tag, tl, "href") {
        Some(h) => h,
        None => {
            return None;
        },
    };
    if href.as_str().is_empty() {
        return None;
    }
    let apple = to_chars("apple-touch-icon");
    let pr = if contains_exec(rel_lower.as_slice(), apple.as_slice()) {
        10
    } else {
        let sizes = match extract_attr(tag, tl, "sizes") {
            Some(z) => z,
            None => String::new(),
        };
        parse_icon_size(sizes.as_str())
    };
    Some((pr, resolve_url(href.as_str(), page_url)))
}

fn insert_by_priority_exec(sorted: &mut Vec<(i32, String)>, e: (i32, String))
    ensures
        entries_view(final(sorted)@) == insert_by_priority(entries_view(old(sorted)@), (e.0 as int, e.1@)),
{
    let ghost sv = entries_view(sorted@);
    let ghost ev = (e.0 as int, e.1@);
    let ghost p = below(ev.0);
    proof {
        crate::state::lemma_first_index(sv, p);
    }
    let mut k: usize = 0;
    while k < sorted.len()
        invariant
            k <= sorted.len(),
            sv == entries_view(sorted@),
            p == below(ev.0),
            ev == (e.0 as int, e.1@),
            sv == entries_view(old(sorted)@),
            forall|j: int| 0 <= j < k ==> !p(sv[j]),
        decreases sorted.len() - k,
    {
        if sorted[k].0 < e.0 {
            proof {
                crate::state::lemma_first_index_is(sv, p, k as int);
            }
            sorted.insert(k, e);
            assert(entries_view(sorted@) =~= sv.insert(k as int, ev));
            return;
        }
        k = k + 1;
    }
    proof {
        crate::state::lemma_first_index(sv, p);
    }
    sorted.push(e);
    assert(entries_view(sorted@) =~= sv.push(ev));
}

/// The addresses of a page's favicons, best first (see [`favicon_urls`]).
pub fn extract_favicon_urls(html: &str, page_url: &str) -> (r: Vec<String>)
    ensures
        crate::state::texts(r@) == favicon_urls(html@, page_url@),
{
    let hb = html.as_bytes();
    let lower_s = to_lowercase(html);
    let lb = lower_s.as_str().as_bytes();
    let ghost hv = encode_utf8(html@);
    let ghost lv = encode_utf8(lowercase(html@));
    let ghost pv = page_url@;
    let mut results: Vec<(i32, String)> = Vec::new();
    let mut search_from: usize = 0;
    let ll = lb.len();
    let hl = hb.len();
    loop
        invariant
            search_from <= ll,
            ll == lb@.len(),
            hl == hb@.len(),
            hb@ == hv,
            lb@ == lv,
            pv == page_url@,
            entries_view(results@) + link_candidates(hv, lv, pv, search_from as int)
                == link_candidates(hv, lv, pv, 0),
        ensures
            entries_view(results@) == link_candidates(hv, lv, pv, 0),
        decreases ll - search_from,
    {
        let abs = match find_from_bytes(lb, "<link".as_bytes(), search_from) {
            Some(a) => a,
            None => {
                assert(link_candidates(hv, lv, pv, search_from as int) == Seq::<(int, Seq<char>)>::empty());
                assert(entries_view(results@) + Seq::<(int, Seq<char>)>::empty() =~= entries_view(results@));
                break;
            },
        };
        let tag_end = match find_from_bytes(lb, ">".as_bytes(), abs) {
            Some(t) => t,
            None => {
                assert(entries_view(results@) + Seq::<(int, Seq<char>)>::empty() =~= entries_view(results@));
                break;
            },
        };
        if tag_end >= hl || tag_end >= ll {
            assert(entries_view(results@) + Seq::<(int, Seq<char>)>::empty() =~= entries_view(results@));
            break;
        }
        let tag = slice_bytes(hb, abs, tag_end + 1);
        if utf8_text(tag.as_slice()).is_none() {
            assert(entries_view(results@) + Seq::<(int, Seq<char>)>::empty() =~= entries_view(results@));
            break;
        }
        let tl = slice_bytes(lb, abs, tag_end + 1);
        let ghost before = entries_view(results@);
        let ghost rest = link_candidates(hv, lv, pv, tag_end + 1);
        assert(link_candidates(hv, lv, pv, search_from as int) == match link_entry(tag@, tl@, pv) {
            Some(e) => seq![e] + rest,
            None => rest,
        });
        match link_entry_exec(tag.as_slice(), tl.as_slice(), page_url) {
            Some(e) => {
                let ghost ev = (e.0 as int, e.1@);
                assert(link_entry(tag@, tl@, pv) == Some(ev));
                assert(link_candidates(hv, lv, pv, search_from as int) == seq![ev] + rest);
                results.push(e);
                assert(entries_view(results@) =~= before.push(ev));
                assert(entries_view(results@) + rest =~= before + (seq![ev] + rest));
            },
            None => {
                assert(entries_view(results@) + rest == before + link_candidates(hv, lv, pv, search_from as int));
            },
        }
        assert(entries_view(results@) + rest == link_candidates(hv, lv, pv, 0));
        search_from = tag_end + 1;
    }
    let og = extract_og_image(html, lower_s.as_str(), page_url);
    match og {
        Some(u) => {
            let ghost before = entries_view(results@);
            results.push((-1, u));
            assert(entries_view(results@) =~= before + seq![(-1int, opt_text(og).unwrap())]);
        },
        None => {
            assert(entries_view(results@) =~= entries_view(results@) + Seq::<(int, Seq<char>)>::empty());
        },
    }
    let ghost all = entries_view(results@);
    assert(all == icon_candidates(html@, page_url@));
    let mut sorted: Vec<(i32, String)> = Vec::new();
    let mut i: usize = 0;
    while i < results.len()
        invariant
            i <= results.len(),
            all == entries_view(results@),
            entries_view(sorted@) == by_priority(all.take(i as int)),
        decreases results.len() - i,
    {
        assert(all.take(i + 1).drop_last() =~= all.take(i as int));
        let e = (results[i].0, results[i].1.clone());
        insert_by_priority_exec(&mut sorted, e);
        i = i + 1;
    }
    assert(all.take(results.len() as int) =~= all);
    let mut urls: Vec<String> = Vec::new();
    let mut j: usize = 0;
    while j < sorted.len()
        invariant
            j <= sorted.len(),
            crate::state::texts(urls@) == entries_view(sorted@).take(j as int).map_values(
                |e: (int, Seq<char>)| e.1,
            ),
        decreases sorted.len() - j,
    {
        let ghost before = crate::state::texts(urls@);
        let u = sorted[j].1.clone();
        urls.push(u);
        assert(crate::state::texts(urls@) =~= before.push(sorted@[j as int].1@));
        assert(entries_view(sorted@).take(j + 1) =~= entries_view(sorted@).take(j as int).push(
            entries_view(sorted@)[j as int],
        ));
        assert(crate::state::texts(urls@) =~= entries_view(sorted@).take(j + 1).map_values(
            |e: (int, Seq<char>)| e.1,
        ));
        j = j + 1;
    }
    assert(entries_view(sorted@).take(sorted.len() as int) =~= entries_view(sorted@));
    urls
}

/// The value of a base64 symbol.
pub open spec fn b64_value(c: char) -> Option<int> {
    if 'A' <= c && c <= 'Z' {
        Some(c as int - 65)
    } else if 'a' <= c && c <= 'z' {
        Some(c as int - 97 + 26)
    } else if '0' <= c && c <= '9' {
        Some(c as int - 48 + 52)
    } else if c == '+' {
        Some(62)
    } else if c == '/' {
        Some(63)
    } else {
        None
    }
}

/// The text up to its first `=`.
pub open spec fn before_pad(s: Seq<char>) -> Seq<char> {
    match find(s, seq!['=']) {
        Some(k) => s.take(k),
        None => s,
    }
}

/// The 6-bit values of the base64 symbols of `t`; other characters are
/// skipped.
pub open spec fn sextets(t: Seq<char>) -> Seq<int>
    decreases t.len(),
{
    if t.len() == 0 {
        seq![]
    } else {
        let r = sextets(t.drop_last());
        match b64_value(t.last()) {
            Some(v) => r.push(v),
            None => r,
        }
    }
}

/// Base64 decoding of the values `vals`, as (pending bits, their count,
/// the bytes so far): each value adds 6 bits, and each complete byte is
/// emitted, most significant bits first.
pub open spec fn b64_run(vals: Seq<int>) -> (int, int, Seq<u8>)
    decreases vals.len(),
{
    if vals.len() == 0 {
        (0, 0, seq![])
    } else {
        let (buf, bits, out) = b64_run(vals.drop_last());
        let b2 = buf * 64 + vals.last();
        let bits2 = bits + 6;
        if bits2 >= 8 {
            let d = vstd::arithmetic::power2::pow2((bits2 - 8) as nat) as int;
            (b2 % d, bits2 - 8, out.push((b2 / d) as u8))
        } else {
            (b2, bits2, out)
        }
    }
}

/// The bytes that base64 text `s` stands for: its symbols before the first
/// `=`, other characters skipped, trailing bits dropped.
pub open spec fn base64_bytes(s: Seq<char>) -> Seq<u8> {
    b64_run(sextets(before_pad(s))).2
}

fn b64_value_exec(c: char) -> (r: Option<u32>)
    ensures
        match b64_value(c) {
            Some(v) => r == Some(v as u32),
            None => r is None,
        },
{
    if 'A' <= c && c <= 'Z' {
        Some(c as u32 - 65)
    } else if 'a' <= c && c <= 'z' {
        Some(c as u32 - 97 + 26)
    } else if '0' <= c && c <= '9' {
        Some(c as u32 - 48 + 52)
    } else if c == '+' {
        Some(62)
    } else if c == '/' {
        Some(63)
    } else {
        None
    }
}

/// The bytes that base64 text `input` stands for (see [`base64_bytes`]);
/// the decoding never fails.
pub fn base64_decode(input: &str) -> (r: Result<Vec<u8>, String>)
    ensures
        r matches Ok(v) && v@ == base64_bytes(input@),
{
    proof {
        vstd::arithmetic::power2::lemma2_to64();
    }
    let s = to_chars(input);
    let mut out: Vec<u8> = Vec::new();
    let mut buf: u32 = 0;
    let mut bits: u32 = 0;
    let mut i: usize = 0;
    let mut stopped = false;
    while i < s.len() && !stopped
        invariant
            i <= s.len(),
            s@ == input@,
            stopped ==> i < s.len() && s@[i as int] == '=',
            forall|j: int| 0 <= j < i ==> s@[j] != '=',
            bits == 0 || bits == 2 || bits == 4 || bits == 6,
            buf < vstd::arithmetic::power2::pow2(bits as nat),
            (buf as int, bits as int, out@) == b64_run(sextets(s@.take(i as int))),
            vstd::arithmetic::power2::pow2(0) == 1,
            vstd::arithmetic::power2::pow2(2) == 4,
            vstd::arithmetic::power2::pow2(4) == 16,
            vstd::arithmetic::power2::pow2(6) == 64,
        decreases s.len() - i + (if stopped { 0int } else { 1int }),
    {
        let c = s[i];
        if c == '=' {
            stopped = true;
        } else {
            assert(s@.take(i + 1).drop_last() =~= s@.take(i as int));
            assert(s@.take(i + 1).last() == c);
            match b64_value_exec(c) {
                None => {},
                Some(v) => {
                    let ghost vals = sextets(s@.take(i as int));
                    assert(sextets(s@.take(i + 1)) == vals.push(v as int));
                    assert(vals.push(v as int).drop_last() =~= vals);
                    let b2 = buf * 64 + v;
                    let bits2 = bits + 6;
                    if bits2 >= 8 {
                        let d: u32 = if bits2 == 8 {
                            1
                        } else if bits2 == 10 {
                            4
                        } else {
                            16
                        };
                        assert(d == vstd::arithmetic::power2::pow2((bits2 - 8) as nat));
                        assert(b2 < d * 256);
                        let byte = (b2 / d) as u8;
                        out.push(byte);
                        buf = b2 % d;
                        bits = bits2 - 8;
                    } else {
                        buf = b2;
                        bits = bits2;
                    }
                },
            }
            i = i + 1;
        }
    }
    proof {
        if stopped {
            crate::text::lemma_find_single(s@, '=', i as int);
        } else {
            crate::text::lemma_find_single_none(s@, '=');
            assert(s@.take(s@.len() as int) =~= s@);
        }
    }
    Ok(out)
}

/// `s` without its leading `c` characters (`str::trim_start_matches`).
pub open spec fn trim_start_char(s: Seq<char>, c: char) -> Seq<char>
    decreases s.len(),
{
    if s.len() > 0 && s[0] == c {
        trim_start_char(s.skip(1), c)
    } else {
        s
    }
}

/// The text of the first up to 1024 bytes of an image where they are valid
/// UTF-8; else empty.
pub open spec fn head_text(b: Seq<u8>) -> Seq<char> {
    let head = b.take(if b.len() < 1024 {
        b.len() as int
    } else {
        1024
    });
    if vstd::utf8::valid_utf8(head) {
        vstd::utf8::decode_utf8(head)
    } else {
        seq![]
    }
}

/// `b` begins with the bytes `p`.
pub open spec fn bytes_start(b: Seq<u8>, p: Seq<u8>) -> bool {
    p.len() <= b.len() && b.take(p.len() as int) == p
}

/// The image format of `b` by its first bytes, as a file extension: PNG,
/// JPEG, GIF, ICO, WebP and BMP by their magic numbers, SVG by an `<?xml`
/// or `<svg` start or an `<svg` in its first KiB of text; `None` for fewer
/// than 4 bytes or anything else.
pub open spec fn image_format(b: Seq<u8>) -> Option<Seq<char>> {
    if b.len() < 4 {
        None
    } else if bytes_start(b, seq![0x89u8, 0x50u8, 0x4Eu8, 0x47u8]) {
        Some("png"@)
    } else if bytes_start(b, seq![0xFFu8, 0xD8u8, 0xFFu8]) {
        Some("jpg"@)
    } else if bytes_start(b, seq![0x47u8, 0x49u8, 0x46u8, 0x38u8]) {
        Some("gif"@)
    } else if bytes_start(b, seq![0x00u8, 0x00u8, 0x01u8, 0x00u8]) {
        Some("ico"@)
    } else if b.len() >= 12 && bytes_start(b, seq![0x52u8, 0x49u8, 0x46u8, 0x46u8]) && b.subrange(8, 12)
        == seq![0x57u8, 0x45u8, 0x42u8, 0x50u8] {
        Some("webp"@)
    } else if bytes_start(b, seq![0x42u8, 0x4Du8]) {
        Some("bmp"@)
    } else {
        let t = trim(trim_start_char(head_text(b), '\u{feff}'));
        if starts_with(t, "<?xml"@) || starts_with(t, "<svg"@) || contains(t, "<svg"@) {
            Some("svg"@)
        } else {
            None
        }
    }
}

/// `std::str::from_utf8`: the text of `b` where it is valid UTF-8, as the
/// standard library documents.
#[verifier::external_body]
fn utf8_text(b: &[u8]) -> (r: Option<&str>)
    ensures
        match r {
            Some(t) => vstd::utf8::valid_utf8(b@) && t@ == vstd::utf8::decode_utf8(b@),
            None => !vstd::utf8::valid_utf8(b@),
        },
{
    std::str::from_utf8(b).ok()
}

fn starts_bytes(b: &[u8], p: &[u8]) -> (r: bool)
    ensures
        r == bytes_start(b@, p@),
{
    if p.len() > b.len() {
        return false;
    }
    let mut i: usize = 0;
    while i < p.len()
        invariant
            i <= p.len() <= b.len(),
            forall|j: int| 0 <= j < i ==> b@[j] == p@[j],
        decreases p.len() - i,
    {
        if b[i] != p[i] {
            assert(b@.take(p.len() as int)[i as int] != p@[i as int]);
            return false;
        }
        i = i + 1;
    }
    assert(b@.take(p.len() as int) =~= p@);
    true
}

fn take_bytes(b: &[u8], n: usize) -> (r: Vec<u8>)
    requires
        n <= b.len(),
    ensures
        r@ == b@.take(n as int),
{
    let mut r: Vec<u8> = Vec::new();
    let mut i: usize = 0;
    while i < n
        invariant
            i <= n <= b.len(),
            r@ == b@.take(i as int),
        decreases n - i,
    {
        r.push(b[i]);
        assert(b@.take(i + 1) =~= b@.take(i as int).push(b@[i as int]));
        i = i + 1;
    }
    r
}

fn trim_start_bom(s: &[char]) -> (r: Vec<char>)
    ensures
        r@ == trim_start_char(s@, '\u{feff}'),
{
    let mut i: usize = 0;
    assert(s@.skip(0) =~= s@);
    while i < s.len() && s[i] == '\u{feff}'
        invariant
            i <= s.len(),
            trim_start_char(s@, '\u{feff}') == trim_start_char(s@.skip(i as int), '\u{feff}'),
        decreases s.len() - i,
    {
        assert(s@.skip(i as int).skip(1) =~= s@.skip(i + 1));
        i = i + 1;
    }
    let n = s.len();
    let r = slice_to_vec(s, i, n);
    assert(r@ =~= s@.skip(i as int));
    r
}

/// The image format of `bytes` as a file extension (see
/// [`image_format`]).
pub fn detect_image_format(bytes: &[u8]) -> (r: Option<&'static str>)
    ensures
        crate::render_mode::opt_view(r) == image_format(bytes@),
{
    let n = bytes.len();
    if n < 4 {
        return None;
    }
    let png = [0x89u8, 0x50u8, 0x4Eu8, 0x47u8];
    if starts_bytes(bytes, &png) {
        assert(png@ =~= seq![0x89u8, 0x50u8, 0x4Eu8, 0x47u8]);
        return Some("png");
    }
    assert(png@ =~= seq![0x89u8, 0x50u8, 0x4Eu8, 0x47u8]);
    let jpg = [0xFFu8, 0xD8u8, 0xFFu8];
    assert(jpg@ =~= seq![0xFFu8, 0xD8u8, 0xFFu8]);
    if starts_bytes(bytes, &jpg) {
        return Some("jpg");
    }
    let gif = [0x47u8, 0x49u8, 0x46u8, 0x38u8];
    assert(gif@ =~= seq![0x47u8, 0x49u8, 0x46u8, 0x38u8]);
    if starts_bytes(bytes, &gif) {
        return Some("gif");
    }
    let ico = [0x00u8, 0x00u8, 0x01u8, 0x00u8];
    assert(ico@ =~= seq![0x00u8, 0x00u8, 0x01u8, 0x00u8]);
    if starts_bytes(bytes, &ico) {
        return Some("ico");
    }
    let riff = [0x52u8, 0x49u8, 0x46u8, 0x46u8];
    assert(riff@ =~= seq![0x52u8, 0x49u8, 0x46u8, 0x46u8]);
    if n >= 12 && starts_bytes(bytes, &riff) && bytes[8] == 0x57u8 && bytes[9] == 0x45u8 && bytes[10]
        == 0x42u8 && bytes[11] == 0x50u8 {
        assert(bytes@.subrange(8, 12) =~= seq![0x57u8, 0x45u8, 0x42u8, 0x50u8]);
        return Some("webp");
    }
    if n >= 12 && starts_bytes(bytes, &riff) {
        assert(bytes@.subrange(8, 12) != seq![0x57u8, 0x45u8, 0x42u8, 0x50u8]) by {
            if bytes@.subrange(8, 12) == seq![0x57u8, 0x45u8, 0x42u8, 0x50u8] {
                assert(bytes@.subrange(8, 12)[0] == bytes@[8]);
                assert(bytes@.subrange(8, 12)[1] == bytes@[9]);
                assert(bytes@.subrange(8, 12)[2] == bytes@[10]);
                assert(bytes@.subrange(8, 12)[3] == bytes@[11]);
            }
        }
    }
    let bmp = [0x42u8, 0x4Du8];
    assert(bmp@ =~= seq![0x42u8, 0x4Du8]);
    if starts_bytes(bytes, &bmp) {
        return Some("bmp");
    }
    let check_len = if n < 1024 {
        n
    } else {
        1024
    };
    let head = take_bytes(bytes, check_len);
    let text: Vec<char> = match utf8_text(head.as_slice()) {
        Some(t) => to_chars(t),
        None => Vec::new(),
    };
    let t1 = trim_start_bom(text.as_slice());
    let t = trim_exec(t1.as_slice());
    if begins_with(t.as_slice(), "<?xml") || begins_with(t.as_slice(), "<svg") || {
        let p = to_chars("<svg");
        contains_exec(t.as_slice(), p.as_slice())
    } {
        Some("svg")
    } else {
        None
    }
}

/// The capture script that opens with the app id: everything before it.
pub const CAPTURE_HEAD: &'static str = r#"
(function() {
  if (window.__webapps_icon_captured) return;
  var APP_ID = "#;

/// The capture script after the app id.
pub const CAPTURE_TAIL: &'static str = r#";

  function priorityFor(el) {
    var rel = (el.getAttribute('rel') || '').toLowerCase();
    if (rel.indexOf('apple-touch-icon') !== -1) return 10;
    var sizes = (el.getAttribute('sizes') || '').toLowerCase();
    if (sizes === 'any') return 8; // SVG / scalable, very good
    var m = sizes.match(/(\d+)x\d+/);
    if (m) {
      var n = parseInt(m[1], 10);
      return n >= 128 ? 7 : n >= 64 ? 5 : n >= 32 ? 3 : 1;
    }
    return 0;
  }

  function resolve(href, base) {
    try { return new URL(href, base).href; }
    catch (e) { return null; }
  }

  function run() {
    if (window.__webapps_icon_captured) return;
    window.__webapps_icon_captured = true;

    var base = window.location.href;
    var results = [];
    var links = document.querySelectorAll('link[rel]');
    links.forEach(function(el) {
      var rel = (el.getAttribute('rel') || '').toLowerCase();
      if (rel.indexOf('icon') === -1) return; // mirrors Rust rel.contains("icon")
      var href = el.getAttribute('href');
      if (!href) return;
      var resolved = resolve(href, base);
      if (resolved) results.push({ p: priorityFor(el), u: resolved });
    });

    // og:image as a last-resort candidate.
    var og = document.querySelector('meta[property="og:image"]');
    if (og) {
      var content = og.getAttribute('content');
      if (content) {
        var resolved = resolve(content, base);
        if (resolved) results.push({ p: -1, u: resolved });
      }
    }

    // Highest priority first.
    results.sort(function(a, b) { return b.p - a.p; });
    var urls = results.map(function(r) { return r.u; });

    if (window.__TAURI_INTERNALS__) {
      try {
        window.__TAURI_INTERNALS__.invoke('capture_favicon_done', { appId: APP_ID, urls: urls });
      } catch (e) {}
    }
  }

  if (document.readyState === 'complete') {
    setTimeout(run, 800);
  } else {
    window.addEventListener('load', function() { setTimeout(run, 800); });
  }
})();
"#;

/// The favicon-capture script injected into app `app_id`'s webview during
/// an icon refetch: once the page has loaded and settled, it collects the
/// page's favicon addresses, best first, and reports them through
/// `capture_favicon_done`; a guard keeps it from running twice.
pub fn build_favicon_capture_js(app_id: &str) -> (r: String)
    ensures
        r@ == CAPTURE_HEAD@ + json_string_literal(app_id@) + CAPTURE_TAIL@,
{
    let id = js_string_literal(app_id);
    let mut r = String::from_str(CAPTURE_HEAD);
    r.append(id.as_str());
    r.append(CAPTURE_TAIL);
    r
}

/// The value of a hexadecimal digit byte.
pub open spec fn hex_val(b: u8) -> Option<int> {
    if 0x30 <= b && b <= 0x39 {
        Some(b - 0x30)
    } else if 0x41 <= b && b <= 0x46 {
        Some(b - 0x41 + 10)
    } else if 0x61 <= b && b <= 0x66 {
        Some(b - 0x61 + 10)
    } else {
        None
    }
}

/// `b` with each `%` followed by two hexadecimal digits replaced by the
/// byte they spell; any other `%` is kept as it is.
pub open spec fn percent_decoded(b: Seq<u8>) -> Seq<u8>
    decreases b.len(),
{
    if b.len() == 0 {
        seq![]
    } else if b[0] != 0x25 {
        seq![b[0]] + percent_decoded(b.skip(1))
    } else if b.len() >= 3 && hex_val(b[1]) is Some && hex_val(b[2]) is Some {
        seq![(hex_val(b[1]).unwrap() * 16 + hex_val(b[2]).unwrap()) as u8] + percent_decoded(b.skip(3))
    } else if b.len() >= 3 && hex_val(b[1]) is Some {
        seq![0x25u8, b[1]] + percent_decoded(b.skip(2))
    } else {
        seq![0x25u8] + percent_decoded(b.skip(1))
    }
}

/// `urlencoding::decode_binary`: the bytes with their `%xx` escapes
/// decoded and malformed escapes kept, as its source does it.
#[verifier::external_body]
fn percent_decode(b: &[u8]) -> (r: Vec<u8>)
    ensures
        r@ == percent_decoded(b@),
{
    urlencoding::decode_binary(b).into_owned()
}

/// The image format a data URI's header names: PNG, SVG or ICO.
pub open spec fn mime_guess(header: Seq<char>) -> Option<Seq<char>> {
    if contains(header, "image/png"@) {
        Some("png"@)
    } else if contains(header, "image/svg"@) {
        Some("svg"@)
    } else if contains(header, "image/x-icon"@) || contains(header, "image/vnd.microsoft.icon"@) {
        Some("ico"@)
    } else {
        None
    }
}

/// The icon a `data:` URI holds, with its format: the part after the first
/// `,`, base64-decoded (white space dropped) where the part before names
/// `base64`, else percent-decoded; its format by its bytes, else by the
/// header. Errors for a URI without `,`, fewer than 4 bytes, or an unknown
/// format.
pub open spec fn data_uri_icon(uri: Seq<char>) -> Result<(Seq<u8>, Seq<char>), Seq<char>> {
    match crate::text::split_once(uri, ',') {
        None => Err("Invalid data URI"@),
        Some((header, data)) => {
            let bytes = if contains(header, "base64"@) {
                base64_bytes(data.filter(|c: char| !crate::text::is_ws(c)))
            } else {
                percent_decoded(vstd::utf8::encode_utf8(data))
            };
            if bytes.len() < 4 {
                Err("Data URI too small"@)
            } else {
                match image_format(bytes) {
                    Some(e) => Ok((bytes, e)),
                    None => match mime_guess(header) {
                        Some(e) => Ok((bytes, e)),
                        None => Err("Unknown image format in data URI"@),
                    },
                }
            }
        },
    }
}

fn has_text(s: &[char], p: &str) -> (r: bool)
    ensures
        r == contains(s@, p@),
{
    let pv = to_chars(p);
    contains_exec(s, pv.as_slice())
}

fn mime_guess_exec(header: &[char]) -> (r: Option<&'static str>)
    ensures
        crate::render_mode::opt_view(r) == mime_guess(header@),
{
    if has_text(header, "image/png") {
        Some("png")
    } else if has_text(header, "image/svg") {
        Some("svg")
    } else if has_text(header, "image/x-icon") || has_text(header, "image/vnd.microsoft.icon") {
        Some("ico")
    } else {
        None
    }
}

fn drop_white_space(s: &[char]) -> (r: Vec<char>)
    ensures
        r@ == s@.filter(|c: char| !crate::text::is_ws(c)),
{
    let mut r: Vec<char> = Vec::new();
    let mut i: usize = 0;
    while i < s.len()
        invariant
            i <= s.len(),
            r@ == s@.take(i as int).filter(|c: char| !crate::text::is_ws(c)),
        decreases s.len() - i,
    {
        proof {
            reveal(Seq::filter);
        }
        assert(s@.take(i + 1).drop_last() =~= s@.take(i as int));
        assert(s@.take(i + 1).last() == s@[i as int]);
        if !crate::text::is_ws_exec(s[i]) {
            r.push(s[i]);
        }
        assert(r@ =~= s@.take(i + 1).filter(|c: char| !crate::text::is_ws(c)));
        i = i + 1;
    }
    assert(s@.take(s@.len() as int) =~= s@);
    r
}

/// The icon a `data:` URI holds, with its format (see [`data_uri_icon`]).
pub fn decode_data_uri(data_uri: &str) -> (r: Result<(Vec<u8>, &'static str), String>)
    ensures
        match data_uri_icon(data_uri@) {
            Ok((b, e)) => r matches Ok((v, x)) && v@ == b && x@ == e,
            Err(m) => r matches Err(x) && x@ == m,
        },
{
    let u = to_chars(data_uri);
    let (header, data) = match crate::text::split_once_exec(u.as_slice(), ',') {
        Some(parts) => parts,
        None => {
            return Err(String::from_str("Invalid data URI"));
        },
    };
    let bytes = if has_text(header.as_slice(), "base64") {
        let cleaned = drop_white_space(data.as_slice());
        let cs = from_chars(cleaned.as_slice());
        match base64_decode(cs.as_str()) {
            Ok(b) => b,
            Err(e) => {
                return Err(e);
            },
        }
    } else {
        let ds = from_chars(data.as_slice());
        percent_decode(ds.as_str().as_bytes())
    };
    if bytes.len() < 4 {
        return Err(String::from_str("Data URI too small"));
    }
    match detect_image_format(bytes.as_slice()) {
        Some(e) => Ok((bytes, e)),
        None => match mime_guess_exec(header.as_slice()) {
            Some(e) => Ok((bytes, e)),
            None => Err(String::from_str("Unknown image format in data URI")),
        },
    }
}

/// A downloaded icon's format; errors for fewer than 4 bytes or an unknown
/// format.
pub fn check_downloaded_icon(bytes: &[u8]) -> (r: Result<&'static str, String>)
    ensures
        bytes@.len() < 4 ==> (r matches Err(m) && m@ == "Downloaded file too small to be a valid image"@),
        bytes@.len() >= 4 ==> match image_format(bytes@) {
            Some(e) => r matches Ok(x) && x@ == e,
            None => r matches Err(m) && m@ == "Not a recognized image format"@,
        },
{
    if bytes.len() < 4 {
        return Err(String::from_str("Downloaded file too small to be a valid image"));
    }
    match detect_image_format(bytes) {
        Some(e) => Ok(e),
        None => Err(String::from_str("Not a recognized image format")),
    }
}

/// `c` is alphabetic or numeric by Unicode's properties.
pub uninterp spec fn alphanumeric(c: char) -> bool;

/// `char::is_alphanumeric`: Unicode `Alphabetic` or `Numeric`; the tables
/// are not spelled out, the result is named.
#[verifier::external_body]
fn is_alphanumeric(c: char) -> (r: bool)
    ensures
        r == alphanumeric(c),
{
    c.is_alphanumeric()
}

/// A title made safe for a file name: its first 50 characters, each that is
/// not alphanumeric replaced by `_`.
pub open spec fn safe_name(title: Seq<char>) -> Seq<char> {
    title.take(if title.len() < 50 {
        title.len() as int
    } else {
        50
    }).map_values(|c: char| if alphanumeric(c) {
        c
    } else {
        '_'
    })
}

/// The file name of a saved icon: `<safe title>_<id>.<ext>`.
pub open spec fn icon_name(title: Seq<char>, id: Seq<char>, ext: Seq<char>) -> Seq<char> {
    safe_name(title) + "_"@ + id + "."@ + ext
}

/// The file name of an icon saved for a site titled `title`, with the
/// first 8 characters of `uuid_text` to keep names apart.
pub fn icon_file_name(title: &str, uuid_text: &str, ext: &str) -> (r: String)
    requires
        uuid_text@.len() >= 8,
    ensures
        r@ == icon_name(title@, uuid_text@.take(8), ext@),
{
    let t = to_chars(title);
    let n: usize = if t.len() < 50 {
        t.len()
    } else {
        50
    };
    let mut name: Vec<char> = Vec::new();
    let mut i: usize = 0;
    while i < n
        invariant
            i <= n <= t.len(),
            n == (if t@.len() < 50 { t@.len() as int } else { 50 }),
            name@ == t@.take(i as int).map_values(|c: char| if alphanumeric(c) {
                c
            } else {
                '_'
            }),
        decreases n - i,
    {
        let c = t[i];
        let d = if is_alphanumeric(c) {
            c
        } else {
            '_'
        };
        name.push(d);
        assert(t@.take(i + 1) =~= t@.take(i as int).push(c));
        assert(name@ =~= t@.take(i + 1).map_values(|c: char| if alphanumeric(c) {
            c
        } else {
            '_'
        }));
        i = i + 1;
    }
    let u = to_chars(uuid_text);
    let id = slice_to_vec(u.as_slice(), 0, 8);
    assert(id@ =~= uuid_text@.take(8));
    let mut r = from_chars(name.as_slice());
    r.append("_");
    let ids = from_chars(id.as_slice());
    r.append(ids.as_str());
    r.append(".");
    r.append(ext);
    r
}

/// The file name of an icon saved for a site titled `title`, with a fresh
/// random id.
pub fn new_icon_file_name(title: &str, ext: &str) -> (r: String)
    ensures
        exists|id: Seq<char>| crate::apps::is_uuid_text(id) && r@ == icon_name(title@, id.take(8), ext@),
{
    let u = crate::apps::new_uuid_text();
    icon_file_name(title, u.as_str(), ext)
}

/// The addresses tried after a page's own favicon candidates `urls`: the
/// site's `/favicon.ico` unless already among them, then Google's favicon
/// service for the site's host.
pub open spec fn favicon_fallbacks(urls: Seq<Seq<char>>, page_url: Seq<char>) -> Seq<Seq<char>> {
    match parsed_url(page_url) {
        Err(_) => seq![],
        Ok((scheme, host)) => {
            let h = match host {
                Some(x) => x,
                None => ""@,
            };
            let root = scheme + "://"@ + h + "/favicon.ico"@;
            let first = if urls.contains(root) {
                seq![]
            } else {
                seq![root]
            };
            let google = match host {
                Some(x) => seq!["https://www.google.com/s2/favicons?domain="@ + x + "&sz=64"@],
                None => seq![],
            };
            first + google
        },
    }
}

/// Every address tried for a page's favicon, in order: its own candidates
/// `urls`, then the fallbacks (see [`favicon_fallbacks`]).
pub fn favicon_attempts(urls: &Vec<String>, page_url: &str) -> (r: Vec<String>)
    ensures
        crate::state::texts(r@) == crate::state::texts(urls@) + favicon_fallbacks(
            crate::state::texts(urls@),
            page_url@,
        ),
{
    proof {
        reveal_strlit("");
    }
    let mut r = crate::models::clone_strings(urls);
    let ghost base = crate::state::texts(urls@);
    assert(crate::state::texts(r@) == base);
    match parse_url(page_url) {
        Err(_) => {
            assert(crate::state::texts(r@) =~= base + Seq::<Seq<char>>::empty());
        },
        Ok((scheme, host)) => {
            let mut root = scheme.clone();
            root.append("://");
            match &host {
                Some(h) => root.append(h.as_str()),
                None => {},
            }
            root.append("/favicon.ico");
            let ghost hv: Seq<char> = match opt_text(host) {
                Some(x) => x,
                None => ""@,
            };
            assert(root@ == scheme@ + "://"@ + hv + "/favicon.ico"@);
            let listed = crate::state::find_string(urls, root.as_str()).is_some();
            proof {
                crate::state::lemma_first_index(urls@, crate::state::has_text(root@));
                if base.contains(root@) {
                    let j = choose|j: int| 0 <= j < base.len() && base[j] == root@;
                    assert(urls@[j]@ == root@);
                }
                if listed {
                    let j = crate::state::string_pos(urls@, root@).unwrap();
                    assert(base[j] == root@);
                }
            }
            assert(listed == base.contains(root@));
            let ghost before = crate::state::texts(r@);
            if !listed {
                r.push(root);
            }
            let ghost mid = crate::state::texts(r@);
            assert(mid =~= base + (if listed {
                Seq::<Seq<char>>::empty()
            } else {
                seq![root@]
            }));
            match host {
                Some(h) => {
                    let mut g = String::from_str("https://www.google.com/s2/favicons?domain=");
                    g.append(h.as_str());
                    g.append("&sz=64");
                    r.push(g);
                    assert(crate::state::texts(r@) =~= mid.push(g@));
                },
                None => {},
            }
            assert(crate::state::texts(r@) =~= base + favicon_fallbacks(base, page_url@));
        },
    }
    r
}

/// Whether a download attempt gave a saved icon.
pub open spec fn is_found(o: Option<String>) -> bool {
    o is Some
}

/// The icon a new app gets from its download attempts, in the order they
/// were made: the saved path of the first that succeeded, else `auto`.
pub open spec fn favicon_pick(results: Seq<Option<String>>) -> Seq<char> {
    match crate::state::first_index(results, |o: Option<String>| is_found(o)) {
        Some(i) => results[i].unwrap()@,
        None => "auto"@,
    }
}

/// The icon a new app gets (see [`favicon_pick`]) from `results`, the
/// outcome of each download attempt in order (`None` where it failed).
pub fn favicon_choice(results: &Vec<Option<String>>) -> (r: String)
    ensures
        r@ == favicon_pick(results@),
{
    let ghost p = |o: Option<String>| is_found(o);
    proof {
        crate::state::lemma_first_index(results@, p);
    }
    let mut i: usize = 0;
    while i < results.len()
        invariant
            i <= results.len(),
            p == (|o: Option<String>| is_found(o)),
            forall|j: int| 0 <= j < i ==> !p(results@[j]),
        decreases results.len() - i,
    {
        match &results[i] {
            Some(path) => {
                proof {
                    crate::state::lemma_first_index_is(results@, p, i as int);
                }
                return path.clone();
            },
            None => {},
        }
        i = i + 1;
    }
    proof {
        crate::state::lemma_first_index(results@, p);
    }
    String::from_str("auto")
}

/// The title to give a new app: the page's title, else its address's host,
/// else `Untitled`.
pub open spec fn site_title_of(body: Seq<char>, url: Seq<char>) -> Seq<char> {
    match title_of(body) {
        Some(t) => t,
        None => match crate::links::url_host(url) {
            Some(h) => h,
            None => "Untitled"@,
        },
    }
}

/// The title to give a new app (see [`site_title_of`]).
pub fn site_title(body: &str, url: &str) -> (r: String)
    ensures
        r@ == site_title_of(body@, url@),
{
    match extract_title(body) {
        Some(t) => t,
        None => match crate::links::host_of(url) {
            Some(h) => h,
            None => String::from_str("Untitled"),
        },
    }
}

/// Entries ordered by priority, highest first.
pub open spec fn sorted_desc(s: Seq<(int, Seq<char>)>) -> bool {
    forall|i: int, j: int| 0 <= i < j < s.len() ==> s[i].0 >= s[j].0
}

/// Law: favicon candidates come out best first, with none lost and none
/// added.
pub proof fn law_favicons_best_first(c: Seq<(int, Seq<char>)>)
    ensures
        sorted_desc(by_priority(c)),
        by_priority(c).to_multiset() == c.to_multiset(),
    decreases c.len(),
{
    if c.len() == 0 {
        assert(by_priority(c) =~= c);
    } else {
        let rest = c.drop_last();
        let e = c.last();
        law_favicons_best_first(rest);
        let s = by_priority(rest);
        assert(c =~= rest.push(e));
        vstd::seq_lib::to_multiset_build(rest, e);
        crate::state::lemma_first_index(s, below(e.0));
        match crate::state::first_index(s, below(e.0)) {
            Some(k) => {
                let r = s.insert(k, e);
                s.insert_ensures(k, e);
                vstd::seq_lib::to_multiset_insert(s, k, e);
                assert(by_priority(c) == r);
                assert forall|i: int, j: int| 0 <= i < j < r.len() implies r[i].0 >= r[j].0 by {
                    if j < k {
                        assert(r[i] == s[i] && r[j] == s[j]);
                    } else if j == k {
                        assert(r[i] == s[i]);
                        assert(!below(e.0)(s[i]));
                    } else if i < k {
                        assert(r[i] == s[i] && r[j] == s[j - 1]);
                    } else if i == k {
                        assert(r[j] == s[j - 1]);
                        assert(s[k].0 >= s[j - 1].0 || k == j - 1);
                        assert(below(e.0)(s[k]));
                    } else {
                        assert(r[i] == s[i - 1] && r[j] == s[j - 1]);
                    }
                }
            },
            None => {
                let r = s.push(e);
                vstd::seq_lib::to_multiset_build(s, e);
                assert(by_priority(c) == r);
                assert forall|i: int, j: int| 0 <= i < j < r.len() implies r[i].0 >= r[j].0 by {
                    if j < s.len() {
                        assert(r[i] == s[i] && r[j] == s[j]);
                    } else {
                        assert(r[i] == s[i]);
                        assert(!below(e.0)(s[i]));
                    }
                }
            },
        }
    }
}

/// Law: how an icon address is resolved against its page: an absolute
/// `http://` or `https://` address, and a `data:` URI, are kept as they
/// are; a scheme-relative `//host/...` address gets `https:`; any other is
/// joined to the page's address, and kept as it is where that fails.
pub proof fn law_resolve_url(href: Seq<char>, base: Seq<char>)
    ensures
        starts_with(href, "http://"@) || starts_with(href, "https://"@) ==> resolved(href, base) == href,
        starts_with(href, "data:"@) ==> resolved(href, base) == href,
        starts_with(href, "//"@) ==> resolved(href, base) == "https:"@ + href,
        !starts_with(href, "http://"@) && !starts_with(href, "https://"@) && !starts_with(href, "//"@)
            && !starts_with(href, "data:"@) ==> resolved(href, base) == match joined_url(base, href) {
            Some(u) => u,
            None => href,
        },
{
    reveal_strlit("http://");
    reveal_strlit("https://");
    reveal_strlit("//");
    reveal_strlit("data:");
    if href.len() >= 7 {
        assert(href.subrange(0, 7)[0] == href[0]);
    }
    if href.len() >= 8 {
        assert(href.subrange(0, 8)[0] == href[0]);
    }
    if starts_with(href, "data:"@) {
        assert(href.subrange(0, 5)[0] == href[0]);
        assert(href[0] == 'd');
    }
    if starts_with(href, "//"@) {
        assert(href.subrange(0, 2)[0] == href[0]);
        assert(href[0] == '/');
    }
}

/// Law: an image's format is told by its first bytes: PNG, JPEG, GIF, ICO,
/// WebP (`RIFF` and, at byte 8, `WEBP`) and BMP by their signatures, in that
/// order of checking; fewer than 4 bytes have no format.
pub proof fn law_image_signatures(b: Seq<u8>)
    ensures
        b.len() < 4 ==> image_format(b) is None,
        b.len() >= 4 && b.take(4) == seq![0x89u8, 0x50u8, 0x4Eu8, 0x47u8] ==> image_format(b) == Some("png"@),
        b.len() >= 4 && b.take(3) == seq![0xFFu8, 0xD8u8, 0xFFu8] ==> image_format(b) == Some("jpg"@),
        b.len() >= 4 && b.take(4) == seq![0x47u8, 0x49u8, 0x46u8, 0x38u8] ==> image_format(b) == Some("gif"@),
        b.len() >= 4 && b.take(4) == seq![0x00u8, 0x00u8, 0x01u8, 0x00u8] ==> image_format(b) == Some("ico"@),
        b.len() >= 12 && b.take(4) == seq![0x52u8, 0x49u8, 0x46u8, 0x46u8] && b.subrange(8, 12) == seq![
            0x57u8,
            0x45u8,
            0x42u8,
            0x50u8,
        ] ==> image_format(b) == Some("webp"@),
        b.len() >= 4 && b.take(2) == seq![0x42u8, 0x4Du8] ==> image_format(b) == Some("bmp"@),
{
    if b.len() >= 4 {
        assert(b.subrange(0, 4) == b.take(4));
        assert(b.subrange(0, 3) == b.take(3));
        assert(b.subrange(0, 2) == b.take(2));
        if b.take(4) == seq![0x47u8, 0x49u8, 0x46u8, 0x38u8] || b.take(4) == seq![0x00u8, 0x00u8, 0x01u8, 0x00u8]
            || b.take(4) == seq![0x52u8, 0x49u8, 0x46u8, 0x46u8] {
            assert(b[0] == b.take(4)[0]);
            assert(b[1] == b.take(4)[1]);
        }
        if b.take(2) == seq![0x42u8, 0x4Du8] {
            assert(b[0] == b.take(2)[0]);
        }
        if b.take(3) == seq![0xFFu8, 0xD8u8, 0xFFu8] {
            assert(b[0] == b.take(3)[0]);
        }
    }
}

/// Law: a `data:` header names the format where the bytes do not:
/// `image/png`, then `image/svg`, then `image/x-icon` or
/// `image/vnd.microsoft.icon`; any other header names none.
pub proof fn law_mime_names_format(header: Seq<char>)
    ensures
        contains(header, "image/png"@) ==> mime_guess(header) == Some("png"@),
        !contains(header, "image/png"@) && contains(header, "image/svg"@) ==> mime_guess(header) == Some(
            "svg"@,
        ),
        !contains(header, "image/png"@) && !contains(header, "image/svg"@) && (contains(
            header,
            "image/x-icon"@,
        ) || contains(header, "image/vnd.microsoft.icon"@)) ==> mime_guess(header) == Some("ico"@),
        !contains(header, "image/png"@) && !contains(header, "image/svg"@) && !contains(
            header,
            "image/x-icon"@,
        ) && !contains(header, "image/vnd.microsoft.icon"@) ==> mime_guess(header) is None,
{
}

/// Law: the title part of a saved icon's file name is safe: at most 50
/// characters, the title's first ones, each letter or digit kept and every
/// other character turned into `_`.
pub proof fn law_safe_name(title: Seq<char>)
    ensures
        safe_name(title).len() == if title.len() < 50 {
            title.len()
        } else {
            50
        },
        forall|i: int|
            0 <= i < safe_name(title).len() ==> (#[trigger] safe_name(title)[i] == '_' || (alphanumeric(
                safe_name(title)[i],
            ) && safe_name(title)[i] == title[i])),
        forall|i: int|
            0 <= i < safe_name(title).len() && alphanumeric(title[i]) ==> #[trigger] safe_name(title)[i]
                == title[i],
        forall|i: int|
            0 <= i < safe_name(title).len() && !alphanumeric(title[i]) ==> #[trigger] safe_name(title)[i]
                == '_',
{
}

/// Law: base64 symbols stand for the values 0 to 63 in the order `A`-`Z`,
/// `a`-`z`, `0`-`9`, `+`, `/`; nothing else is a symbol.
pub proof fn law_b64_alphabet(c: char)
    ensures
        'A' <= c <= 'Z' ==> b64_value(c) == Some(c as int - 'A' as int),
        'a' <= c <= 'z' ==> b64_value(c) == Some(26 + c as int - 'a' as int),
        '0' <= c <= '9' ==> b64_value(c) == Some(52 + c as int - '0' as int),
        b64_value('+') == Some(62int),
        b64_value('/') == Some(63int),
        b64_value(c) matches Some(v) ==> 0 <= v < 64,
        b64_value('=') is None,
{
}

/// Law: base64 decodes four symbols, of values `v0` to `v3`, into three
/// bytes: the 24 bits `v0 v1 v2 v3`, most significant first.
pub proof fn law_base64_group(c0: char, c1: char, c2: char, c3: char)
    requires
        b64_value(c0) is Some,
        b64_value(c1) is Some,
        b64_value(c2) is Some,
        b64_value(c3) is Some,
    ensures
        ({
            let v0 = b64_value(c0).unwrap();
            let v1 = b64_value(c1).unwrap();
            let v2 = b64_value(c2).unwrap();
            let v3 = b64_value(c3).unwrap();
            base64_bytes(seq![c0, c1, c2, c3]) == seq![
                (v0 * 4 + v1 / 16) as u8,
                ((v1 % 16) * 16 + v2 / 4) as u8,
                ((v2 % 4) * 64 + v3) as u8,
            ]
        }),
{
    let s = seq![c0, c1, c2, c3];
    let v0 = b64_value(c0).unwrap();
    let v1 = b64_value(c1).unwrap();
    let v2 = b64_value(c2).unwrap();
    let v3 = b64_value(c3).unwrap();
    assert(before_pad(s) == s) by {
        assert forall|j: int| 0 <= j < s.len() implies s[j] != '=' by {}
        crate::text::lemma_find_single_none(s, '=');
    }
    assert(s.drop_last() =~= seq![c0, c1, c2]);
    assert(seq![c0, c1, c2].drop_last() =~= seq![c0, c1]);
    assert(seq![c0, c1].drop_last() =~= seq![c0]);
    assert(seq![c0].drop_last() =~= Seq::<char>::empty());
    let vals = seq![v0, v1, v2, v3];
    assert(sextets(Seq::<char>::empty()) =~= Seq::<int>::empty());
    assert(seq![c0].last() == c0);
    assert(sextets(seq![c0]) =~= seq![v0]);
    assert(seq![c0, c1].last() == c1);
    assert(sextets(seq![c0, c1]) =~= seq![v0, v1]);
    assert(seq![c0, c1, c2].last() == c2);
    assert(sextets(seq![c0, c1, c2]) =~= seq![v0, v1, v2]);
    assert(s.last() == c3);
    assert(sextets(s) =~= vals);
    assert(vals.drop_last() =~= seq![v0, v1, v2]);
    assert(seq![v0, v1, v2].drop_last() =~= seq![v0, v1]);
    assert(seq![v0, v1].drop_last() =~= seq![v0]);
    assert(seq![v0].drop_last() =~= Seq::<int>::empty());
    vstd::arithmetic::power2::lemma2_to64();
    assert(b64_run(Seq::<int>::empty()) == (0int, 0int, Seq::<u8>::empty()));
    assert(seq![v0].last() == v0);
    assert(b64_run(seq![v0]) == (v0, 6int, Seq::<u8>::empty()));
    assert(seq![v0, v1].last() == v1);
    assert(seq![v0, v1, v2].last() == v2);
    assert(vals.last() == v3);
    let b2 = v0 * 64 + v1;
    assert(b2 / 16 == v0 * 4 + v1 / 16 && b2 % 16 == v1 % 16) by (nonlinear_arith)
        requires
            b2 == v0 * 64 + v1,
            0 <= v0 < 64,
            0 <= v1 < 64,
    ;
    assert(b64_run(seq![v0, v1]) == (v1 % 16, 4int, seq![(v0 * 4 + v1 / 16) as u8]));
    let b3 = (v1 % 16) * 64 + v2;
    assert(b3 / 4 == (v1 % 16) * 16 + v2 / 4 && b3 % 4 == v2 % 4) by (nonlinear_arith)
        requires
            b3 == (v1 % 16) * 64 + v2,
            0 <= v2 < 64,
            0 <= v1 % 16 < 16,
    ;
    assert(b64_run(seq![v0, v1, v2]) == (v2 % 4, 2int, seq![
        (v0 * 4 + v1 / 16) as u8,
        ((v1 % 16) * 16 + v2 / 4) as u8,
    ]));
    let b4 = (v2 % 4) * 64 + v3;
    assert(b4 / 1 == b4 && b4 % 1 == 0);
    assert(b64_run(vals).2 =~= seq![
        (v0 * 4 + v1 / 16) as u8,
        ((v1 % 16) * 16 + v2 / 4) as u8,
        ((v2 % 4) * 64 + v3) as u8,
    ]);
}

} // verus!
