//! Preparing a response's HTML for display in a frame: a `<base>` tag for
//! its relative links, and absolute links redirected through this tool.
use vstd::prelude::*;

use crate::rest_client::util::link_rewrite::{
    absolute_url, converted, is_absolute, lemma_has_at_char, lemma_match_positions_bounds, lemma_match_positions_skip,
    lemma_pass_without_match, lemma_passes_without_char, lemma_passes_without_match, lemma_two_passes, rewrite_part, rewrite_upto, lemma_match_positions_find,
    lemma_match_positions_first, match_indices, match_positions, rewrite_links, rewrite_parts, Conversion,
    ConversionView, HostInfo, HostView,
};
use crate::rest_client::util::url_ops::{url_redirected, url_redirected_of, url_without_query, url_without_query_of};
use crate::text::{
    chars_at, chars_of, contains, extend_chars, extend_str, find_chars_from, find_from, has_at, lemma_find_first, starts_with,
    string_of, sub_chars, trim, trim_chars,
};

verus! {

/// `t` begins with one of the schemes or marks of links that are kept as
/// they are: `data:`, `javascript:`, `mailto:`, `tel:` or `#`.
pub open spec fn is_kept_scheme(t: Seq<char>) -> bool {
    starts_with(t, "data:"@) || starts_with(t, "javascript:"@) || starts_with(t, "mailto:"@)
        || starts_with(t, "tel:"@) || starts_with(t, "#"@)
}

/// What redirecting a trimmed absolute link gives: the redirected URL; the
/// link itself when it does not parse; `None` where the URL refuses the new
/// scheme, host or port.
pub open spec fn redirect_result(r: Option<Option<Seq<char>>>, t: Seq<char>) -> Option<Seq<char>> {
    match r {
        None => Some(t),
        Some(None) => None,
        Some(Some(u)) => Some(u),
    }
}

/// What a link becomes when it is redirected through `host`: nothing for a
/// blank link; the trimmed link when it is not absolute or has a kept scheme;
/// otherwise the redirected URL with the link in `rc_base_url`.
pub open spec fn absolute_conversion(src: Seq<char>, host: HostView) -> Option<Seq<char>> {
    let t = trim(src);
    if t.len() == 0 {
        None
    } else if !is_absolute(t) {
        Some(t)
    } else if is_kept_scheme(t) {
        Some(t)
    } else {
        redirect_result(
            url_redirected_of(t, host.0, host.1, host.2, "rc_base_url"@),
            t,
        )
    }
}

/// What a link found in a pass becomes: absolute links are redirected, others
/// stay.
pub open spec fn proxied_link(href: Seq<char>, host: HostView) -> Option<Seq<char>> {
    if is_absolute(href) {
        absolute_conversion(href, host)
    } else {
        None
    }
}

/// The opening and closing parts of the links that are redirected, in the
/// order of the passes: `href` and `src` attributes, then backgrounds.
pub open spec fn link_parts() -> Seq<(Seq<char>, Seq<char>)> {
    attr_parts("href"@) + attr_parts("src"@) + background_parts()
}

/// The parts `name="`…`"` and `name='`…`'` of an attribute.
pub open spec fn attr_parts(attr: Seq<char>) -> Seq<(Seq<char>, Seq<char>)> {
    seq![(attr + "=\""@, "\""@), (attr + "='"@, "'"@)]
}

/// The parts of CSS background images, with and without quotes and a space.
pub open spec fn background_parts() -> Seq<(Seq<char>, Seq<char>)> {
    seq![
        ("background:url("@, ")"@),
        ("background:url('"@, "'"@),
        ("background:url(\""@, "\""@),
        ("background: url("@, ")"@),
        ("background: url('"@, "'"@),
        ("background: url(\""@, "\""@),
        ("background-image:url("@, ")"@),
        ("background-image:url('"@, "'"@),
        ("background-image:url(\""@, "\""@),
        ("background-image: url("@, ")"@),
        ("background-image: url('"@, "'"@),
        ("background-image: url(\""@, "\""@),
    ]
}

/// The background parts, in order.
pub fn background_part_list() -> (r: Vec<(&'static str, &'static str)>)
    ensures
        r@.map_values(|p: (&'static str, &'static str)| (p.0@, p.1@)) == background_parts(),
        forall|k: int| 0 <= k < r@.len() ==> (#[trigger] r@[k]).0@.len() > 0,
{
    let r = vec![
        ("background:url(", ")"),
        ("background:url('", "'"),
        ("background:url(\"", "\""),
        ("background: url(", ")"),
        ("background: url('", "'"),
        ("background: url(\"", "\""),
        ("background-image:url(", ")"),
        ("background-image:url('", "'"),
        ("background-image:url(\"", "\""),
        ("background-image: url(", ")"),
        ("background-image: url('", "'"),
        ("background-image: url(\"", "\""),
    ];
    proof {
        reveal_strlit("background:url(");
        reveal_strlit("background:url('");
        reveal_strlit("background:url(\"");
        reveal_strlit("background: url(");
        reveal_strlit("background: url('");
        reveal_strlit("background: url(\"");
        reveal_strlit("background-image:url(");
        reveal_strlit("background-image:url('");
        reveal_strlit("background-image:url(\"");
        reveal_strlit("background-image: url(");
        reveal_strlit("background-image: url('");
        reveal_strlit("background-image: url(\"");
    }
    assert(r@.map_values(|p: (&'static str, &'static str)| (p.0@, p.1@)) =~= background_parts());
    r
}

/// The first position at or after `start_at` where `needle` occurs in
/// `haystack`, counted in characters.
pub fn find_from_index(haystack: &str, start_at: usize, needle: &str) -> (r: Option<usize>)
    ensures
        r matches Some(i) ==> find_from(haystack@, start_at as int, needle@) == Some(i as int),
        r is None ==> find_from(haystack@, start_at as int, needle@) is None,
{
    let h = chars_of(haystack);
    let n = chars_of(needle);
    find_chars_from(h.as_slice(), start_at, n.as_slice())
}

/// Whether the trimmed text begins like an absolute URL.
pub fn is_absolute_url(url_str: &str) -> (r: bool)
    ensures
        r == is_absolute(url_str@),
{
    absolute_url(url_str)
}

/// Whether `t` begins with `data:`, `javascript:`, `mailto:`, `tel:` or `#`.
pub fn kept_scheme(t: &[char]) -> (r: bool)
    ensures
        r == is_kept_scheme(t@),
{
    chars_at(t, 0, chars_of("data:").as_slice()) || chars_at(t, 0, chars_of("javascript:").as_slice())
        || chars_at(t, 0, chars_of("mailto:").as_slice()) || chars_at(t, 0, chars_of("tel:").as_slice())
        || chars_at(t, 0, chars_of("#").as_slice())
}

/// What a link becomes when it is redirected through `host`.
pub fn convert_absolute_url(src_url: &str, host: &HostInfo) -> (r: Option<String>)
    ensures
        (match r {
            Some(s) => Some(s@),
            None => None,
        }) == absolute_conversion(src_url@, host@),
{
    let t = trim_chars(chars_of(src_url).as_slice());
    let ts = string_of(t.as_slice());
    if t.len() == 0 {
        return None;
    }
    if !absolute_url(ts.as_str()) {
        return Some(ts);
    }
    if kept_scheme(t.as_slice()) {
        return Some(ts);
    }
    match url_redirected(ts.as_str(), host.scheme.as_str(), host.host.as_str(), host.port, "rc_base_url") {
        None => Some(ts),
        Some(None) => None,
        Some(Some(u)) => Some(u),
    }
}

/// The base URL of a page: the URL without its query, or the text as it is
/// when it does not parse.
pub open spec fn base_url_of(url: Seq<char>) -> Seq<char> {
    match url_without_query_of(url) {
        Some(u) => u,
        None => url,
    }
}

/// The base URL of a page.
pub fn build_base_url(url: &str) -> (r: String)
    ensures
        r@ == base_url_of(url@),
        url_without_query_of(url@) matches Some(u) ==> r@ == u,
        url_without_query_of(url@) is None ==> r@ == url@,
{
    match url_without_query(url) {
        Some(u) => u,
        None => url.to_owned(),
    }
}

/// There is exactly one `<head>` and one `</head>`.
pub open spec fn single_head(html: Seq<char>) -> bool {
    match_positions(html, "<head>"@, 0).len() == 1 && match_positions(html, "</head>"@, 0).len() == 1
}

/// Where `<head>` is.
pub open spec fn head_start(html: Seq<char>) -> int {
    match_positions(html, "<head>"@, 0)[0]
}

/// Where `</head>` is.
pub open spec fn head_end(html: Seq<char>) -> int {
    match_positions(html, "</head>"@, 0)[0]
}

/// The head can be cut out of the text: unless there is a single `<head>`
/// and a single `</head>`, it is not looked at, and if there are, `<head>`
/// does not come after `</head>`.
pub open spec fn head_in_order(html: Seq<char>) -> bool {
    single_head(html) ==> head_start(html) <= head_end(html)
}

/// `html` with `ins` inserted right after its single `<head>`; unchanged
/// when it has no single `<head>` and `</head>`.
pub open spec fn after_head(html: Seq<char>, ins: Seq<char>) -> Seq<char> {
    if single_head(html) {
        let at = head_start(html) + 6;
        html.take(at) + ins + html.skip(at)
    } else {
        html
    }
}

/// The `<base>` tag for a URL: its base URL, links opening in a new window.
pub open spec fn base_tag(url: Seq<char>) -> Seq<char> {
    "<base href=\""@ + base_url_of(url) + "\" target=\"_blank\">"@
}

/// `html` with a `<base>` tag for `url` after its `<head>`, unless its head
/// has a `<base ` already.
pub open spec fn with_base_tag(html: Seq<char>, url: Seq<char>) -> Seq<char> {
    if single_head(html) && !contains(html.subrange(head_start(html), head_end(html)), "<base "@) {
        after_head(html, base_tag(url))
    } else {
        html
    }
}

/// Where the single `<head>` and `</head>` are, if there are single ones.
pub fn single_head_positions(html: &[char]) -> (r: Option<(usize, usize)>)
    ensures
        r is Some <==> single_head(html@),
        r matches Some((a, b)) ==> a == head_start(html@) && b == head_end(html@) && a + 6
            <= html@.len() && b + 7 <= html@.len(),
{
    let open_tag = chars_of("<head>");
    let close_tag = chars_of("</head>");
    proof {
        reveal_strlit("<head>");
        reveal_strlit("</head>");
    }
    let starts = match_indices(html, open_tag.as_slice());
    let ends = match_indices(html, close_tag.as_slice());
    if starts.len() == 1 && ends.len() == 1 {
        assert(starts@.map_values(|i: usize| i as int)[0] == starts@[0] as int);
        assert(ends@.map_values(|i: usize| i as int)[0] == ends@[0] as int);
        Some((starts[0], ends[0]))
    } else {
        None
    }
}

/// Inserts `ins` right after the single `<head>` of `html`; leaves `html` as
/// it is when it has no single `<head>` and `</head>`.
pub fn insert_chars_after_head(html: &mut String, ins: &[char])
    ensures
        final(html)@ == after_head(old(html)@, ins@),
{
    let cs = chars_of(html.as_str());
    if let Some((a, _b)) = single_head_positions(cs.as_slice()) {
        let n = cs.len();
        assert(a + 6 <= n);
        insert_chars(html, a + 6, ins);
    }
}

/// Inserts `ins` after position `at` of `html`.
fn insert_chars(html: &mut String, at: usize, ins: &[char])
    requires
        at <= old(html)@.len(),
    ensures
        final(html)@ == old(html)@.take(at as int) + ins@ + old(html)@.skip(at as int),
{
    let cs = chars_of(html.as_str());
    let mut out = sub_chars(cs.as_slice(), 0, at);
    extend_chars(&mut out, ins);
    let tail = sub_chars(cs.as_slice(), at, cs.len());
    extend_chars(&mut out, tail.as_slice());
    assert(out@ =~= cs@.take(at as int) + ins@ + cs@.skip(at as int));
    *html = string_of(out.as_slice());
}

/// Adds a `<base>` tag for `url` after the head's `<head>`, unless the head
/// has one.
pub fn add_head_base_tag(html: &mut String, url: &str)
    requires
        head_in_order(old(html)@),
    ensures
        final(html)@ == with_base_tag(old(html)@, url@),
{
    let base_url = build_base_url(url);
    let cs = chars_of(html.as_str());
    if let Some((a, b)) = single_head_positions(cs.as_slice()) {
        let head_inner = sub_chars(cs.as_slice(), a, b);
        let base_open = chars_of("<base ");
        if find_chars_from(head_inner.as_slice(), 0, base_open.as_slice()).is_none() {
            let mut tag: Vec<char> = Vec::new();
            extend_str(&mut tag, "<base href=\"");
            extend_str(&mut tag, base_url.as_str());
            extend_str(&mut tag, "\" target=\"_blank\">");
            assert(tag@ =~= base_tag(url@));
            let n = cs.len();
            assert(a + 6 <= n);
            insert_chars(html, a + 6, tag.as_slice());
        }
    }
}

/// Redirects the absolute links of one pass: those after `start_attr_part`
/// up to `end_attr_part`.
pub fn replace_absolute_links_by_attr_part(
    html: &mut String,
    start_attr_part: &str,
    end_attr_part: &str,
    host: &HostInfo,
)
    requires
        start_attr_part@.len() > 0,
    ensures
        final(html)@ == rewrite_part(
            old(html)@,
            start_attr_part@,
            end_attr_part@,
            ConversionView::Proxy(host@),
        ),
{
    let conv = Conversion::Proxy(host.clone());
    rewrite_links(html, start_attr_part, end_attr_part, &conv);
}

/// Redirects the absolute links in the attribute `attr_name`, double quoted
/// and then single quoted.
pub fn replace_absolute_links_by_attr(html: &mut String, attr_name: &str, host: &HostInfo)
    ensures
        final(html)@ == rewrite_parts(old(html)@, attr_parts(attr_name@), ConversionView::Proxy(host@)),
{
    let mut dq: Vec<char> = chars_of(attr_name);
    extend_str(&mut dq, "=\"");
    let mut sq: Vec<char> = chars_of(attr_name);
    extend_str(&mut sq, "='");
    let dqs = string_of(dq.as_slice());
    let sqs = string_of(sq.as_slice());
    proof {
        reveal_strlit("=\"");
        reveal_strlit("='");
    }
    let ghost h0 = html@;
    replace_absolute_links_by_attr_part(html, dqs.as_str(), "\"", host);
    let ghost h1 = html@;
    replace_absolute_links_by_attr_part(html, sqs.as_str(), "'", host);
    proof {
        let conv = ConversionView::Proxy(host@);
        let parts = attr_parts(attr_name@);
        assert(dqs@ =~= attr_name@ + "=\""@);
        assert(sqs@ =~= attr_name@ + "='"@);
        assert(parts.drop_last() =~= seq![parts[0]]);
        assert(seq![parts[0]].drop_last() =~= Seq::<(Seq<char>, Seq<char>)>::empty());
        assert(rewrite_parts(h0, Seq::<(Seq<char>, Seq<char>)>::empty(), conv) == h0);
        assert(rewrite_parts(h0, seq![parts[0]], conv) == h1);
        assert(rewrite_parts(h0, parts, conv) == html@);
    }
}

/// Redirects the absolute links of `href` and `src` attributes and of CSS
/// background images through `host`.
pub fn replace_absolute_links(html: &mut String, host: &HostInfo)
    ensures
        final(html)@ == rewrite_parts(old(html)@, link_parts(), ConversionView::Proxy(host@)),
{
    let ghost h0 = html@;
    replace_absolute_links_by_attr(html, "href", host);
    let ghost h1 = html@;
    replace_absolute_links_by_attr(html, "src", host);
    let ghost h2 = html@;
    let parts = background_part_list();
    let ghost pv = parts@.map_values(|p: (&'static str, &'static str)| (p.0@, p.1@));
    let mut k: usize = 0;
    while k < parts.len()
        invariant
            pv == parts@.map_values(|p: (&'static str, &'static str)| (p.0@, p.1@)),
            pv == background_parts(),
            forall|j: int| 0 <= j < parts@.len() ==> (#[trigger] parts@[j]).0@.len() > 0,
            k <= parts@.len(),
            html@ == rewrite_parts(h2, pv.take(k as int), ConversionView::Proxy(host@)),
        decreases parts@.len() - k,
    {
        let ghost before = html@;
        replace_absolute_links_by_attr_part(html, parts[k].0, parts[k].1, host);
        assert(pv.take(k + 1).drop_last() =~= pv.take(k as int));
        assert(pv.take(k + 1).last() == (parts@[k as int].0@, parts@[k as int].1@));
        k = k + 1;
    }
    assert(pv.take(parts@.len() as int) =~= pv);
    proof {
        lemma_rewrite_parts_concat(h0, attr_parts("href"@), attr_parts("src"@), ConversionView::Proxy(host@));
        lemma_rewrite_parts_concat(
            h0,
            attr_parts("href"@) + attr_parts("src"@),
            background_parts(),
            ConversionView::Proxy(host@),
        );
    }
}

/// Passes over the parts of `a` and then of `b` are the passes over `a + b`.
pub proof fn lemma_rewrite_parts_concat(
    html: Seq<char>,
    a: Seq<(Seq<char>, Seq<char>)>,
    b: Seq<(Seq<char>, Seq<char>)>,
    conv: ConversionView,
)
    ensures
        rewrite_parts(rewrite_parts(html, a, conv), b, conv) == rewrite_parts(html, a + b, conv),
    decreases b.len(),
{
    if b.len() == 0 {
        assert(a + b =~= a);
    } else {
        lemma_rewrite_parts_concat(html, a, b.drop_last(), conv);
        assert((a + b).drop_last() =~= a + b.drop_last());
        assert((a + b).last() == b.last());
    }
}

/// A page whose only `<head>` is at `a` and whose only `</head>` is at `b`
/// has a single head, found there.
pub proof fn lemma_single_head_found(html: Seq<char>, a: int, b: int)
    requires
        has_at(html, a, "<head>"@),
        forall|i: int| i != a ==> !#[trigger] has_at(html, i, "<head>"@),
        has_at(html, b, "</head>"@),
        forall|j: int| j != b ==> !#[trigger] has_at(html, j, "</head>"@),
    ensures
        single_head(html),
        head_start(html) == a,
        head_end(html) == b,
{
    reveal_strlit("<head>");
    reveal_strlit("</head>");
    let o = "<head>"@;
    let c = "</head>"@;
    lemma_match_positions_skip(html, o, 0, a);
    lemma_match_positions_skip(html, o, a + 6, html.len() as int + 1);
    assert(match_positions(html, o, html.len() as int + 1) == Seq::<int>::empty());
    assert(match_positions(html, o, 0) =~= seq![a]);
    lemma_match_positions_skip(html, c, 0, b);
    lemma_match_positions_skip(html, c, b + 7, html.len() as int + 1);
    assert(match_positions(html, c, html.len() as int + 1) == Seq::<int>::empty());
    assert(match_positions(html, c, 0) =~= seq![b]);
}

/// Where `p` occurs nowhere from `start` on, it is not found.
proof fn lemma_not_found(s: Seq<char>, start: int, p: Seq<char>)
    requires
        forall|k: int| start <= k ==> !#[trigger] has_at(s, k, p),
    ensures
        find_from(s, start, p) is None,
    decreases s.len() - start,
{
    if start >= 0 && start + p.len() <= s.len() && start < s.len() {
        lemma_not_found(s, start + 1, p);
    }
}

/// A page with one `<head>` (at `a`) and one `</head>` (at `b`, after it),
/// and no `<base ` between them, gets `<base href="BASE" target="_blank">`
/// right after its `<head>`, BASE being the page URL without its query.
pub proof fn lemma_base_tag_inserted(html: Seq<char>, url: Seq<char>, a: int, b: int)
    requires
        has_at(html, a, "<head>"@),
        forall|i: int| i != a ==> !#[trigger] has_at(html, i, "<head>"@),
        has_at(html, b, "</head>"@),
        forall|j: int| j != b ==> !#[trigger] has_at(html, j, "</head>"@),
        a <= b,
        forall|k: int| a <= k && k + 6 <= b ==> !#[trigger] has_at(html, k, "<base "@),
    ensures
        with_base_tag(html, url) == html.take(a + 6) + "<base href=\""@ + base_url_of(url)
            + "\" target=\"_blank\">"@ + html.skip(a + 6),
{
    reveal_strlit("<base ");
    lemma_single_head_found(html, a, b);
    let inner = html.subrange(a, b);
    let p = "<base "@;
    assert forall|k: int| 0 <= k implies !#[trigger] has_at(inner, k, p) by {
        if has_at(inner, k, p) {
            assert(html.subrange(a + k, a + k + 6) =~= inner.subrange(k, k + 6));
            assert(has_at(html, a + k, p));
        }
    }
    lemma_not_found(inner, 0, p);
}

/// A page whose single head already holds a `<base ` tag is left as it is.
pub proof fn lemma_base_tag_kept(html: Seq<char>, url: Seq<char>, a: int, b: int, k: int)
    requires
        has_at(html, a, "<head>"@),
        forall|i: int| i != a ==> !#[trigger] has_at(html, i, "<head>"@),
        has_at(html, b, "</head>"@),
        forall|j: int| j != b ==> !#[trigger] has_at(html, j, "</head>"@),
        a <= k,
        k + 6 <= b,
        has_at(html, k, "<base "@),
    ensures
        with_base_tag(html, url) == html,
{
    reveal_strlit("<base ");
    lemma_single_head_found(html, a, b);
    let inner = html.subrange(a, b);
    assert(inner.subrange(k - a, k - a + 6) =~= html.subrange(k, k + 6));
    lemma_found_from(inner, 0, k - a, "<base "@);
}

/// A pattern whose first character occurs nowhere else in it: two of its
/// occurrences never overlap.
pub open spec fn first_char_unique(p: Seq<char>) -> bool {
    p.len() > 0 && forall|k: int| 0 < k < p.len() ==> #[trigger] p[k] != p[0]
}

/// Every occurrence of such a pattern from `start` on is among the found
/// positions.
proof fn lemma_match_positions_complete(s: Seq<char>, p: Seq<char>, start: int, i: int)
    requires
        first_char_unique(p),
        0 <= start <= i,
        has_at(s, i, p),
    ensures
        match_positions(s, p, start).contains(i),
    decreases s.len() - start,
{
    if has_at(s, start, p) {
        if i == start {
            assert(match_positions(s, p, start)[0] == i);
        } else {
            if i < start + p.len() {
                assert(s[i] == p[0]) by {
                    assert(s.subrange(i, i + p.len())[0] == s[i]);
                }
                assert(s[i] == p[i - start]) by {
                    assert(s.subrange(start, start + p.len())[i - start] == s[i]);
                }
            }
            lemma_match_positions_complete(s, p, start + p.len(), i);
            let rest = match_positions(s, p, start + p.len());
            let k = choose|k: int| 0 <= k < rest.len() && rest[k] == i;
            assert(match_positions(s, p, start)[k + 1] == i);
        }
    } else {
        assert(i != start);
        lemma_match_positions_complete(s, p, start + 1, i);
    }
}

/// `p` occurs in `s` at some position from `start` on.
proof fn lemma_found_from(s: Seq<char>, start: int, j: int, p: Seq<char>)
    requires
        0 <= start <= j,
        has_at(s, j, p),
    ensures
        find_from(s, start, p) is Some,
    decreases j - start,
{
    if start < j && !has_at(s, start, p) {
        lemma_found_from(s, start + 1, j, p);
    }
}

/// The single `<head>` and `</head>` of a page: any occurrence is that one.
proof fn lemma_single_head_at(h: Seq<char>, i: int, j: int)
    requires
        single_head(h),
    ensures
        has_at(h, i, "<head>"@) ==> i == head_start(h),
        has_at(h, j, "</head>"@) ==> j == head_end(h),
{
    reveal_strlit("<head>");
    reveal_strlit("</head>");
    if has_at(h, i, "<head>"@) {
        lemma_match_positions_complete(h, "<head>"@, 0, i);
    }
    if has_at(h, j, "</head>"@) {
        lemma_match_positions_complete(h, "</head>"@, 0, j);
    }
}

/// Adding the `<base>` tag a second time, for any URL, changes nothing: the
/// first one is inside the head then (or the page no longer has a single
/// head). The tagged page can be tagged again.
pub proof fn lemma_base_tag_once(h: Seq<char>, url: Seq<char>, other_url: Seq<char>)
    requires
        head_in_order(h),
    ensures
        head_in_order(with_base_tag(h, url)),
        with_base_tag(with_base_tag(h, url), other_url) == with_base_tag(h, url),
{
    reveal_strlit("<head>");
    reveal_strlit("</head>");
    reveal_strlit("<base ");
    reveal_strlit("<base href=\"");
    let h2 = with_base_tag(h, url);
    if h2 != h {
        let st = head_start(h);
        let en = head_end(h);
        let at = st + 6;
        let tag = base_tag(url);
        let n = tag.len();
        lemma_match_positions_bounds(h, "<head>"@, 0);
        lemma_match_positions_bounds(h, "</head>"@, 0);
        assert(has_at(h, st, "<head>"@)) by {
            lemma_match_positions_find(h, "<head>"@, 0);
            lemma_match_positions_first(h, "<head>"@, 0);
        }
        assert(has_at(h, en, "</head>"@)) by {
            lemma_match_positions_find(h, "</head>"@, 0);
            lemma_match_positions_first(h, "</head>"@, 0);
        }
        // `</head>` cannot start inside `<head>`
        if en < at {
            assert(h[en] == '<') by {
                assert(h.subrange(en, en + 7)[0] == h[en]);
            }
            if en > st {
                assert(h[en] == "<head>"@[en - st]) by {
                    assert(h.subrange(st, st + 6)[en - st] == h[en]);
                }
            } else {
                assert(h[en + 1] == '/') by {
                    assert(h.subrange(en, en + 7)[1] == h[en + 1]);
                }
                assert(h[st + 1] == 'h') by {
                    assert(h.subrange(st, st + 6)[1] == h[st + 1]);
                }
            }
        }
        assert(en >= at);
        assert(h2 == h.take(at) + tag + h.skip(at));
        // the old tags are still there, the closing one moved past the tag
        assert(has_at(h2, st, "<head>"@)) by {
            assert(h2.subrange(st, st + 6) =~= h.subrange(st, st + 6));
        }
        assert(has_at(h2, en + n, "</head>"@)) by {
            assert(h2.subrange(en + n, en + n + 7) =~= h.subrange(en, en + 7));
        }
        if single_head(h2) {
            lemma_single_head_at(h2, st, en + n);
            assert(head_start(h2) == st);
            assert(head_end(h2) == en + n);
            let inner = h2.subrange(st, en + n);
            assert(has_at(inner, 6, "<base "@)) by {
                assert(inner.subrange(6, 12) =~= tag.subrange(0, 6));
                assert(tag.subrange(0, 6) =~= "<base "@);
            }
            lemma_found_from(inner, 0, 6, "<base "@);
            assert(contains(h2.subrange(head_start(h2), head_end(h2)), "<base "@));
        }
    } else {
        if single_head(h) && !contains(h.subrange(head_start(h), head_end(h)), "<base "@) {
            assert(base_tag(url).len() > 0);
            assert(h2.len() == h.len() + base_tag(url).len()) by {
                lemma_match_positions_bounds(h, "<head>"@, 0);
            }
        }
    }
}

/// An absolute link in the `src` attribute of an element is redirected
/// through the host, just as one in `href` is: `<img src="LINK">` becomes
/// `<img src="URL">`, where URL is the redirected link with the link in
/// `rc_base_url`. This holds for every link without quotes or surrounding
/// white space that does not end in `=`, whose redirected URL holds no `'`
/// and no `(` (so that no later pass finds a link in it).
pub proof fn lemma_src_link_redirected(link: Seq<char>, host: HostView, u: Seq<char>)
    requires
        is_absolute(link),
        trim(link) == link,
        forall|k: int| 0 <= k < link.len() ==> link[k] != '"' && link[k] != '\'',
        link.last() != '=',
        url_redirected_of(link, host.0, host.1, host.2, "rc_base_url"@) == Some(Some(u)),
        forall|k: int| 0 <= k < u.len() ==> u[k] != '\'' && u[k] != '(',
    ensures
        rewrite_parts("<img src=\""@ + link + "\">"@, link_parts(), ConversionView::Proxy(host))
            == "<img src=\""@ + u + "\">"@,
{
    lemma_absolute_link_start(link);
    assert(converted(ConversionView::Proxy(host), link) == Some(u));
    lemma_src_page_rewritten(link, u, ConversionView::Proxy(host));
}

/// An absolute link found in a pass (without surrounding white space) is
/// redirected through the host with the link in `rc_base_url`; it stays as
/// it is when it does not parse as a URL, and is left alone when the URL
/// refuses the host's scheme, host or port.
pub proof fn lemma_absolute_link_conversion(link: Seq<char>, host: HostView)
    requires
        is_absolute(link),
        trim(link) == link,
    ensures
        match url_redirected_of(link, host.0, host.1, host.2, "rc_base_url"@) {
            None => proxied_link(link, host) == Some(link),
            Some(None) => proxied_link(link, host) is None,
            Some(Some(u)) => proxied_link(link, host) == Some(u),
        },
{
    lemma_absolute_link_start(link);
}

/// A link without surrounding white space that is absolute begins with `h`
/// or `/`, so it has none of the kept schemes.
pub proof fn lemma_absolute_link_start(link: Seq<char>)
    requires
        is_absolute(link),
        trim(link) == link,
    ensures
        link.len() >= 2,
        link[0] == 'h' || link[0] == '/',
        !is_kept_scheme(link),
{
    reveal_strlit("http://");
    reveal_strlit("https://");
    reveal_strlit("//");
    reveal_strlit("data:");
    reveal_strlit("javascript:");
    reveal_strlit("mailto:");
    reveal_strlit("tel:");
    reveal_strlit("#");
    if starts_with(link, "http://"@) {
        lemma_has_at_char(link, 0, "http://"@, 0);
    } else if starts_with(link, "https://"@) {
        lemma_has_at_char(link, 0, "https://"@, 0);
    } else {
        lemma_has_at_char(link, 0, "//"@, 0);
    }
    assert(!is_kept_scheme(link)) by {
        if starts_with(link, "data:"@) {
            lemma_has_at_char(link, 0, "data:"@, 0);
        }
        if starts_with(link, "javascript:"@) {
            lemma_has_at_char(link, 0, "javascript:"@, 0);
        }
        if starts_with(link, "mailto:"@) {
            lemma_has_at_char(link, 0, "mailto:"@, 0);
        }
        if starts_with(link, "tel:"@) {
            lemma_has_at_char(link, 0, "tel:"@, 0);
        }
        if starts_with(link, "#"@) {
            lemma_has_at_char(link, 0, "#"@, 0);
        }
    }
}

/// On the page `<img src="LINK">`, where the conversion makes URL of the
/// link, the passes over all kinds of links give `<img src="URL">`: the link
/// has no quotes and does not end in `=`, and URL holds no `'` and no `(`.
pub proof fn lemma_src_page_rewritten(link: Seq<char>, u: Seq<char>, conv: ConversionView)
    requires
        link.len() > 0,
        forall|k: int| 0 <= k < link.len() ==> link[k] != '"' && link[k] != '\'',
        link.last() != '=',
        converted(conv, link) == Some(u),
        forall|k: int| 0 <= k < u.len() ==> u[k] != '\'' && u[k] != '(',
    ensures
        rewrite_parts("<img src=\""@ + link + "\">"@, link_parts(), conv) == "<img src=\""@ + u + "\">"@,
{
    reveal_strlit("<img src=\"");
    reveal_strlit("\">");
    reveal_strlit("href=\"");
    reveal_strlit("href='");
    reveal_strlit("src=\"");
    reveal_strlit("src='");
    reveal_strlit("href");
    reveal_strlit("src");
    reveal_strlit("=\"");
    reveal_strlit("='");
    reveal_strlit("\"");
    let pre = "<img src=\""@;
    let post = "\">"@;
    let h0 = pre + link + post;
    let n = link.len() as int;
    assert(n >= 1);
    assert(h0.len() == n + 12);
    assert forall|k: int| 10 <= k < 10 + n implies h0[k] == link[k - 10] by {}
    assert(h0[10 + n] == '"');
    assert(h0[11 + n] == '>');
    assert(h0[9 + n] == link.last());
    // no `'` in the page before or after
    assert forall|j: int| 0 <= j < h0.len() implies h0[j] != '\'' by {
        if 10 <= j < 10 + n {
            assert(h0[j] == link[j - 10]);
        }
    }
    // the `href` passes find nothing
    let hd = "href=\""@;
    let hs = "href='"@;
    assert forall|i: int| 0 <= i implies !has_at(h0, i, hd) by {
        if has_at(h0, i, hd) {
            lemma_has_at_char(h0, i, hd, 0);
            lemma_has_at_char(h0, i, hd, 4);
            lemma_has_at_char(h0, i, hd, 5);
            if 10 <= i + 5 < 10 + n {
                assert(h0[i + 5] == link[i - 5]);
            }
        }
    }
    assert forall|i: int| 0 <= i implies !has_at(h0, i, hs) by {
        if has_at(h0, i, hs) {
            lemma_has_at_char(h0, i, hs, 5);
        }
    }
    lemma_pass_without_match(h0, hd, "\""@, conv);
    lemma_pass_without_match(h0, hs, "'"@, conv);
    lemma_two_passes(h0, attr_parts("href"@), conv);
    assert(attr_parts("href"@)[0].0 =~= hd);
    assert(attr_parts("href"@)[1].0 =~= hs);
    assert(rewrite_parts(h0, attr_parts("href"@), conv) == h0);
    // the `src="` pass finds the one link at 5
    let sd = "src=\""@;
    assert forall|i: int| 0 <= i < 5 implies !has_at(h0, i, sd) by {
        if has_at(h0, i, sd) {
            lemma_has_at_char(h0, i, sd, 4);
        }
    }
    assert forall|i: int| 10 <= i < n + 13 implies !has_at(h0, i, sd) by {
        if has_at(h0, i, sd) {
            lemma_has_at_char(h0, i, sd, 3);
            lemma_has_at_char(h0, i, sd, 4);
            if i + 4 < 10 + n {
                assert(h0[i + 4] == link[i - 6]);
            }
        }
    }
    assert(h0.subrange(5, 10) =~= sd);
    lemma_match_positions_skip(h0, sd, 0, 5);
    lemma_match_positions_skip(h0, sd, 10, n + 13);
    assert(match_positions(h0, sd, n + 13) == Seq::<int>::empty());
    let ps = match_positions(h0, sd, 0);
    assert(ps =~= seq![5int]);
    assert forall|j: int| 10 <= j < 10 + n implies !has_at(h0, j, "\""@) by {
        if has_at(h0, j, "\""@) {
            lemma_has_at_char(h0, j, "\""@, 0);
            assert(h0[j] == link[j - 10]);
        }
    }
    assert(h0.subrange(10 + n, 11 + n) =~= "\""@);
    lemma_find_first(h0, 10, 10 + n, "\""@);
    assert(h0.subrange(10, 10 + n) =~= link);
    let h1 = pre + u + post;
    assert(h0.take(10) + u + h0.skip(10 + n) =~= h1);
    assert(rewrite_upto(h0, ps, 0, 5, "\""@, conv) == h0);
    assert(rewrite_part(h0, sd, "\""@, conv) == h1);
    // nothing more is found in the new page
    assert forall|j: int| 0 <= j < h1.len() implies h1[j] != '\'' && h1[j] != '(' by {
        if 10 <= j < 10 + u.len() {
            assert(h1[j] == u[j - 10]);
        }
    }
    let ss = "src='"@;
    assert forall|i: int| 0 <= i implies !has_at(h1, i, ss) by {
        if has_at(h1, i, ss) {
            lemma_has_at_char(h1, i, ss, 4);
        }
    }
    lemma_pass_without_match(h1, ss, "'"@, conv);
    lemma_two_passes(h0, attr_parts("src"@), conv);
    assert(attr_parts("src"@)[0].0 =~= sd);
    assert(attr_parts("src"@)[1].0 =~= ss);
    assert(rewrite_parts(h0, attr_parts("src"@), conv) == h1);
    lemma_background_parts_open(h1, conv);
    lemma_rewrite_parts_concat(h0, attr_parts("href"@), attr_parts("src"@), conv);
    lemma_rewrite_parts_concat(h0, attr_parts("href"@) + attr_parts("src"@), background_parts(), conv);
}

/// An absolute link in the `href` attribute of an element is redirected
/// through the host: `<a href="LINK">` becomes `<a href="URL">`, where URL is
/// the redirected link with the link in `rc_base_url`. This holds for every
/// link without quotes or surrounding white space that does not end in `=`,
/// whose redirected URL holds no quotes and no `(` and does not end in `=`.
pub proof fn lemma_href_link_redirected(link: Seq<char>, host: HostView, u: Seq<char>)
    requires
        is_absolute(link),
        trim(link) == link,
        forall|k: int| 0 <= k < link.len() ==> link[k] != '"' && link[k] != '\'',
        link.last() != '=',
        url_redirected_of(link, host.0, host.1, host.2, "rc_base_url"@) == Some(Some(u)),
        u.len() > 0,
        u.last() != '=',
        forall|k: int| 0 <= k < u.len() ==> u[k] != '"' && u[k] != '\'' && u[k] != '(',
    ensures
        rewrite_parts("<a href=\""@ + link + "\">"@, link_parts(), ConversionView::Proxy(host))
            == "<a href=\""@ + u + "\">"@,
{
    lemma_absolute_link_start(link);
    assert(converted(ConversionView::Proxy(host), link) == Some(u));
    lemma_href_page_rewritten(link, u, ConversionView::Proxy(host));
}

/// On the page `<a href="LINK">`, where the conversion makes URL of the
/// link, the passes over all kinds of links give `<a href="URL">`: the link
/// has no quotes and does not end in `=`, and URL holds no quotes and no `(`
/// and does not end in `=`.
pub proof fn lemma_href_page_rewritten(link: Seq<char>, u: Seq<char>, conv: ConversionView)
    requires
        link.len() > 0,
        forall|k: int| 0 <= k < link.len() ==> link[k] != '"' && link[k] != '\'',
        link.last() != '=',
        converted(conv, link) == Some(u),
        u.len() > 0,
        u.last() != '=',
        forall|k: int| 0 <= k < u.len() ==> u[k] != '"' && u[k] != '\'' && u[k] != '(',
    ensures
        rewrite_parts("<a href=\""@ + link + "\">"@, link_parts(), conv) == "<a href=\""@ + u + "\">"@,
{
    reveal_strlit("<a href=\"");
    reveal_strlit("\">");
    reveal_strlit("href=\"");
    reveal_strlit("href='");
    reveal_strlit("src=\"");
    reveal_strlit("src='");
    reveal_strlit("href");
    reveal_strlit("src");
    reveal_strlit("=\"");
    reveal_strlit("='");
    reveal_strlit("\"");
    let pre = "<a href=\""@;
    let post = "\">"@;
    let h0 = pre + link + post;
    let n = link.len() as int;
    assert(h0.len() == n + 11);
    assert forall|k: int| 9 <= k < 9 + n implies h0[k] == link[k - 9] by {}
    assert(h0[9 + n] == '"');
    assert(h0[10 + n] == '>');
    assert(h0[8 + n] == link.last());
    // the `href="` pass finds the one link at 3
    let hd = "href=\""@;
    assert forall|i: int| 0 <= i < 3 implies !has_at(h0, i, hd) by {
        if has_at(h0, i, hd) {
            lemma_has_at_char(h0, i, hd, 5);
        }
    }
    assert forall|i: int| 9 <= i < n + 12 implies !has_at(h0, i, hd) by {
        if has_at(h0, i, hd) {
            lemma_has_at_char(h0, i, hd, 4);
            lemma_has_at_char(h0, i, hd, 5);
            if i + 5 < 9 + n {
                assert(h0[i + 5] == link[i - 4]);
            }
        }
    }
    assert(h0.subrange(3, 9) =~= hd);
    lemma_match_positions_skip(h0, hd, 0, 3);
    lemma_match_positions_skip(h0, hd, 9, n + 12);
    assert(match_positions(h0, hd, n + 12) == Seq::<int>::empty());
    let ps = match_positions(h0, hd, 0);
    assert(ps =~= seq![3int]);
    assert forall|j: int| 9 <= j < 9 + n implies !has_at(h0, j, "\""@) by {
        if has_at(h0, j, "\""@) {
            lemma_has_at_char(h0, j, "\""@, 0);
            assert(h0[j] == link[j - 9]);
        }
    }
    assert(h0.subrange(9 + n, 10 + n) =~= "\""@);
    lemma_find_first(h0, 9, 9 + n, "\""@);
    assert(h0.subrange(9, 9 + n) =~= link);
    let h1 = pre + u + post;
    let m = u.len() as int;
    assert(h0.take(9) + u + h0.skip(9 + n) =~= h1);
    assert(rewrite_upto(h0, ps, 0, 6, "\""@, conv) == h0);
    assert(rewrite_part(h0, hd, "\""@, conv) == h1);
    // nothing more is found in the new page
    assert(h1.len() == m + 11);
    assert forall|k: int| 9 <= k < 9 + m implies h1[k] == u[k - 9] by {}
    assert(h1[9 + m] == '"');
    assert(h1[10 + m] == '>');
    assert(h1[8 + m] == u.last());
    assert forall|j: int| 0 <= j < h1.len() implies h1[j] != '\'' && h1[j] != '(' by {
        if 9 <= j < 9 + m {
            assert(h1[j] == u[j - 9]);
        }
    }
    let hs = "href='"@;
    let sd = "src=\""@;
    let ss = "src='"@;
    assert forall|i: int| 0 <= i implies !has_at(h1, i, hs) by {
        if has_at(h1, i, hs) {
            lemma_has_at_char(h1, i, hs, 5);
        }
    }
    assert forall|i: int| 0 <= i implies !has_at(h1, i, sd) by {
        if has_at(h1, i, sd) {
            lemma_has_at_char(h1, i, sd, 0);
            lemma_has_at_char(h1, i, sd, 3);
            lemma_has_at_char(h1, i, sd, 4);
            if 9 <= i + 4 < 9 + m {
                assert(h1[i + 4] == u[i - 5]);
            }
        }
    }
    assert forall|i: int| 0 <= i implies !has_at(h1, i, ss) by {
        if has_at(h1, i, ss) {
            lemma_has_at_char(h1, i, ss, 4);
        }
    }
    lemma_pass_without_match(h1, hs, "'"@, conv);
    lemma_pass_without_match(h1, sd, "\""@, conv);
    lemma_pass_without_match(h1, ss, "'"@, conv);
    lemma_two_passes(h0, attr_parts("href"@), conv);
    lemma_two_passes(h1, attr_parts("src"@), conv);
    assert(attr_parts("href"@)[0].0 =~= hd);
    assert(attr_parts("href"@)[1].0 =~= hs);
    assert(attr_parts("src"@)[0].0 =~= sd);
    assert(attr_parts("src"@)[1].0 =~= ss);
    assert(rewrite_parts(h0, attr_parts("href"@), conv) == h1);
    assert(rewrite_parts(h1, attr_parts("src"@), conv) == h1);
    lemma_background_parts_open(h1, conv);
    lemma_rewrite_parts_concat(h0, attr_parts("href"@), attr_parts("src"@), conv);
    lemma_rewrite_parts_concat(h0, attr_parts("href"@) + attr_parts("src"@), background_parts(), conv);
}

/// An absolute link in a CSS background image is redirected through the
/// host: `background:url(LINK)` becomes `background:url(URL)`, where URL is
/// the redirected link with the link in `rc_base_url`. This holds for every
/// link without quotes, brackets or surrounding white space, whose redirected
/// URL holds no quotes and no `(`.
pub proof fn lemma_background_link_redirected(link: Seq<char>, host: HostView, u: Seq<char>)
    requires
        is_absolute(link),
        trim(link) == link,
        forall|k: int|
            0 <= k < link.len() ==> link[k] != '"' && link[k] != '\'' && link[k] != '(' && link[k] != ')',
        url_redirected_of(link, host.0, host.1, host.2, "rc_base_url"@) == Some(Some(u)),
        forall|k: int| 0 <= k < u.len() ==> u[k] != '"' && u[k] != '\'' && u[k] != '(',
    ensures
        rewrite_parts("background:url("@ + link + ")"@, link_parts(), ConversionView::Proxy(host))
            == "background:url("@ + u + ")"@,
{
    lemma_absolute_link_start(link);
    assert(converted(ConversionView::Proxy(host), link) == Some(u));
    lemma_background_page_rewritten(link, u, ConversionView::Proxy(host));
}

/// On the text `background:url(LINK)`, where the conversion makes URL of the
/// link, the passes over all kinds of links give `background:url(URL)`: the
/// link has no quotes and no brackets, and URL holds no quotes and no `(`.
pub proof fn lemma_background_page_rewritten(link: Seq<char>, u: Seq<char>, conv: ConversionView)
    requires
        forall|k: int|
            0 <= k < link.len() ==> link[k] != '"' && link[k] != '\'' && link[k] != '(' && link[k] != ')',
        converted(conv, link) == Some(u),
        forall|k: int| 0 <= k < u.len() ==> u[k] != '"' && u[k] != '\'' && u[k] != '(',
    ensures
        rewrite_parts("background:url("@ + link + ")"@, link_parts(), conv) == "background:url("@ + u + ")"@,
{
    reveal_strlit(")");
    reveal_strlit("href=\"");
    reveal_strlit("href='");
    reveal_strlit("src=\"");
    reveal_strlit("src='");
    reveal_strlit("href");
    reveal_strlit("src");
    reveal_strlit("=\"");
    reveal_strlit("='");
    reveal_strlit("background:url(");
    reveal_strlit("background:url('");
    reveal_strlit("background:url(\"");
    reveal_strlit("background: url(");
    reveal_strlit("background: url('");
    reveal_strlit("background: url(\"");
    reveal_strlit("background-image:url(");
    reveal_strlit("background-image:url('");
    reveal_strlit("background-image:url(\"");
    reveal_strlit("background-image: url(");
    reveal_strlit("background-image: url('");
    reveal_strlit("background-image: url(\"");
    let pre = "background:url("@;
    let post = ")"@;
    let h0 = pre + link + post;
    let n = link.len() as int;
    assert(h0.len() == n + 16);
    assert forall|k: int| 15 <= k < 15 + n implies h0[k] == link[k - 15] by {}
    assert(h0[15 + n] == ')');
    // no quotes, and `(` only at 14
    assert forall|j: int| 0 <= j < h0.len() implies h0[j] != '"' && h0[j] != '\'' && (h0[j] == '(' ==> j == 14) by {
        if 15 <= j < 15 + n {
            assert(h0[j] == link[j - 15]);
        }
    }
    // the attribute passes find nothing
    let hd = "href=\""@;
    let hs = "href='"@;
    let sd = "src=\""@;
    let ss = "src='"@;
    assert forall|i: int| 0 <= i implies !has_at(h0, i, hd) && !has_at(h0, i, hs) && !has_at(h0, i, sd) && !has_at(
        h0,
        i,
        ss,
    ) by {
        if has_at(h0, i, hd) {
            lemma_has_at_char(h0, i, hd, 5);
        }
        if has_at(h0, i, hs) {
            lemma_has_at_char(h0, i, hs, 5);
        }
        if has_at(h0, i, sd) {
            lemma_has_at_char(h0, i, sd, 4);
        }
        if has_at(h0, i, ss) {
            lemma_has_at_char(h0, i, ss, 4);
        }
    }
    let attrs = attr_parts("href"@) + attr_parts("src"@);
    assert(attrs[0].0 =~= hd);
    assert(attrs[1].0 =~= hs);
    assert(attrs[2].0 =~= sd);
    assert(attrs[3].0 =~= ss);
    lemma_passes_without_match(h0, attrs, conv);
    // the first background pass finds the one link at 0
    let b = background_parts();
    let b0 = b[0].0;
    assert(b0 =~= pre);
    assert forall|i: int| 15 <= i < n + 17 implies !has_at(h0, i, b0) by {
        if has_at(h0, i, b0) {
            lemma_has_at_char(h0, i, b0, 14);
        }
    }
    assert(h0.subrange(0, 15) =~= b0);
    lemma_match_positions_skip(h0, b0, 15, n + 17);
    assert(match_positions(h0, b0, n + 17) == Seq::<int>::empty());
    let ps = match_positions(h0, b0, 0);
    assert(ps =~= seq![0int]);
    assert forall|j: int| 15 <= j < 15 + n implies !has_at(h0, j, post) by {
        if has_at(h0, j, post) {
            lemma_has_at_char(h0, j, post, 0);
            assert(h0[j] == link[j - 15]);
        }
    }
    assert(h0.subrange(15 + n, 16 + n) =~= post);
    lemma_find_first(h0, 15, 15 + n, post);
    assert(h0.subrange(15, 15 + n) =~= link);
    let h1 = pre + u + post;
    let m = u.len() as int;
    assert(h0.take(15) + u + h0.skip(15 + n) =~= h1);
    assert(rewrite_upto(h0, ps, 0, 15, post, conv) == h0);
    assert(rewrite_part(h0, b0, post, conv) == h1);
    // the other background passes find nothing in the new text
    assert(h1.len() == m + 16);
    assert forall|k: int| 15 <= k < 15 + m implies h1[k] == u[k - 15] by {}
    assert(h1[15 + m] == ')');
    assert forall|j: int| 0 <= j < h1.len() implies (h1[j] == '(' ==> j == 14) && (j == 15 ==> h1[j] != '"'
        && h1[j] != '\'') by {
        if 15 <= j < 15 + m {
            assert(h1[j] == u[j - 15]);
        }
    }
    let rest = b.drop_first();
    assert forall|k: int| 0 <= k < rest.len() implies (#[trigger] rest[k]).0.len() > 0 by {}
    assert forall|k: int, i: int| 0 <= k < rest.len() && 0 <= i implies !#[trigger] has_at(h1, i, rest[k].0) by {
        let o = rest[k].0;
        if has_at(h1, i, o) {
            if k < 2 {
                lemma_has_at_char(h1, i, o, 14);
                lemma_has_at_char(h1, i, o, 15);
            } else if k < 5 {
                lemma_has_at_char(h1, i, o, 15);
            } else if k < 8 {
                lemma_has_at_char(h1, i, o, 20);
            } else {
                lemma_has_at_char(h1, i, o, 21);
            }
        }
    }
    lemma_passes_without_match(h1, rest, conv);
    assert(b =~= seq![b[0]] + rest);
    assert(seq![b[0]].drop_last() =~= Seq::<(Seq<char>, Seq<char>)>::empty());
    assert(rewrite_parts(h0, Seq::<(Seq<char>, Seq<char>)>::empty(), conv) == h0);
    assert(rewrite_parts(h0, seq![b[0]], conv) == h1);
    lemma_rewrite_parts_concat(h0, seq![b[0]], rest, conv);
    lemma_rewrite_parts_concat(h0, attrs, b, conv);
}

/// The background passes find nothing in a text without `(`: each of their
/// opening parts holds one.
proof fn lemma_background_parts_open(h: Seq<char>, conv: ConversionView)
    requires
        forall|j: int| 0 <= j < h.len() ==> h[j] != '(',
    ensures
        rewrite_parts(h, background_parts(), conv) == h,
{
    reveal_strlit("background:url(");
    reveal_strlit("background:url('");
    reveal_strlit("background:url(\"");
    reveal_strlit("background: url(");
    reveal_strlit("background: url('");
    reveal_strlit("background: url(\"");
    reveal_strlit("background-image:url(");
    reveal_strlit("background-image:url('");
    reveal_strlit("background-image:url(\"");
    reveal_strlit("background-image: url(");
    reveal_strlit("background-image: url('");
    reveal_strlit("background-image: url(\"");
    let b = background_parts();
    assert(b[0].0[14] == '(');
    assert(b[1].0[14] == '(');
    assert(b[2].0[14] == '(');
    assert(b[3].0[15] == '(');
    assert(b[4].0[15] == '(');
    assert(b[5].0[15] == '(');
    assert(b[6].0[20] == '(');
    assert(b[7].0[20] == '(');
    assert(b[8].0[20] == '(');
    assert(b[9].0[21] == '(');
    assert(b[10].0[21] == '(');
    assert(b[11].0[21] == '(');
    assert forall|k: int| 0 <= k < b.len() implies (#[trigger] b[k]).0.contains('(') by {
        if k < 3 {
            assert(b[k].0[14] == '(');
        } else if k < 6 {
            assert(b[k].0[15] == '(');
        } else if k < 9 {
            assert(b[k].0[20] == '(');
        } else {
            assert(b[k].0[21] == '(');
        }
    }
    lemma_passes_without_char(h, b, '(', conv);
}

} // verus!
