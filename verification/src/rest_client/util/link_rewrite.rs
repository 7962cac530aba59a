//! Rewriting the links of an HTML text: each occurrence of an opening part
//! (such as `href="`) marks a link that runs up to the next closing part; a
//! conversion decides what the link becomes. Occurrences are found in the
//! text as it was before the pass, and each is moved by how much the
//! replacements before it changed the length of the text.
use vstd::prelude::*;

use crate::rest_client::util::html_previewer;
use crate::rest_client::util::html_utils;
use crate::text::{
    chars_at, chars_of, extend_chars, find_chars_from, find_from, has_at, starts_with, string_of,
    sub_chars, trim, trim_chars,
};

verus! {

/// Where the browser serves this tool: the scheme, host and port that links
/// are redirected to.
#[derive(Debug)]
pub struct HostInfo {
    pub scheme: String,
    pub host: String,
    pub port: Option<u16>,
}

/// The scheme, host and port of a `HostInfo`.
pub type HostView = (Seq<char>, Seq<char>, Option<u16>);

impl View for HostInfo {
    type V = HostView;

    open spec fn view(&self) -> HostView {
        (self.scheme@, self.host@, self.port)
    }
}

/// The host, if known.
pub open spec fn host_view(h: Option<HostInfo>) -> Option<HostView> {
    match h {
        Some(h) => Some(h@),
        None => None,
    }
}

impl Clone for HostInfo {
    fn clone(&self) -> (r: Self)
        ensures
            r == *self,
    {
        HostInfo { scheme: self.scheme.clone(), host: self.host.clone(), port: self.port }
    }
}

/// Which conversion a pass applies to the links it finds.
pub enum Conversion {
    /// Absolute links are redirected to `HostInfo` with the link itself in
    /// the query parameter `rc_base_url`.
    Proxy(HostInfo),
    /// Absolute links are redirected (when the host is known) with the
    /// link itself in `rc_src_url`; relative links are resolved against the
    /// base URL and kept as path and query.
    Preview(String, Option<HostInfo>),
}

/// A conversion as the contracts see it.
pub enum ConversionView {
    Proxy(HostView),
    Preview(Seq<char>, Option<HostView>),
}

impl View for Conversion {
    type V = ConversionView;

    open spec fn view(&self) -> ConversionView {
        match self {
            Conversion::Proxy(h) => ConversionView::Proxy(h@),
            Conversion::Preview(b, h) => ConversionView::Preview(b@, host_view(*h)),
        }
    }
}

/// What the conversion makes of a link, or `None` when it stays.
pub open spec fn converted(conv: ConversionView, href: Seq<char>) -> Option<Seq<char>> {
    match conv {
        ConversionView::Proxy(host) => html_utils::proxied_link(href, host),
        ConversionView::Preview(base, host) => html_previewer::preview_link(href, base, host),
    }
}

/// What the conversion makes of a link, or `None` when it stays.
pub fn convert(conv: &Conversion, href: &str) -> (r: Option<String>)
    ensures
        (match r {
            Some(s) => Some(s@),
            None => None,
        }) == converted(conv@, href@),
{
    match conv {
        Conversion::Proxy(host) => {
            if html_utils::is_absolute_url(href) {
                html_utils::convert_absolute_url(href, host)
            } else {
                None
            }
        },
        Conversion::Preview(base, host) => html_previewer::convert_url(href, base.as_str(), host),
    }
}

/// `u` begins, after trimming, like an absolute URL: `http://`, `https://`
/// or `//`.
pub open spec fn is_absolute(u: Seq<char>) -> bool {
    let t = trim(u);
    starts_with(t, "http://"@) || starts_with(t, "https://"@) || starts_with(t, "//"@)
}

/// Whether the trimmed text begins like an absolute URL.
pub fn absolute_url(url_str: &str) -> (r: bool)
    ensures
        r == is_absolute(url_str@),
{
    let t = trim_chars(chars_of(url_str).as_slice());
    chars_at(t.as_slice(), 0, chars_of("http://").as_slice()) || chars_at(
        t.as_slice(),
        0,
        chars_of("https://").as_slice(),
    ) || chars_at(t.as_slice(), 0, chars_of("//").as_slice())
}

/// The positions of the occurrences of `p` in `s` from `start` on, left to
/// right, each search going on after the end of the occurrence before (what
/// `str::match_indices` yields).
pub open spec fn match_positions(s: Seq<char>, p: Seq<char>, start: int) -> Seq<int>
    decreases s.len() - start,
{
    if p.len() == 0 || start < 0 || start + p.len() > s.len() {
        Seq::empty()
    } else if has_at(s, start, p) {
        seq![start] + match_positions(s, p, start + p.len())
    } else {
        match_positions(s, p, start + 1)
    }
}

pub proof fn lemma_match_positions_find(s: Seq<char>, p: Seq<char>, start: int)
    requires
        p.len() > 0,
        0 <= start,
    ensures
        match find_from(s, start, p) {
            None => match_positions(s, p, start) == Seq::<int>::empty(),
            Some(i) => match_positions(s, p, start) == seq![i] + match_positions(s, p, i + p.len()),
        },
    decreases s.len() - start,
{
    if start + p.len() <= s.len() && !has_at(s, start, p) {
        lemma_match_positions_find(s, p, start + 1);
    }
}

pub proof fn lemma_match_positions_bounds(s: Seq<char>, p: Seq<char>, start: int)
    requires
        p.len() > 0,
        0 <= start,
    ensures
        forall|k: int|
            0 <= k < match_positions(s, p, start).len() ==> start <= #[trigger] match_positions(
                s,
                p,
                start,
            )[k] && match_positions(s, p, start)[k] + p.len() <= s.len(),
    decreases s.len() - start,
{
    if start + p.len() <= s.len() {
        if has_at(s, start, p) {
            lemma_match_positions_bounds(s, p, start + p.len());
            let rest = match_positions(s, p, start + p.len());
            assert forall|k: int| 0 <= k < match_positions(s, p, start).len() implies start
                <= #[trigger] match_positions(s, p, start)[k] && match_positions(s, p, start)[k]
                + p.len() <= s.len() by {
                if k > 0 {
                    assert(match_positions(s, p, start)[k] == rest[k - 1]);
                }
            }
        } else {
            lemma_match_positions_bounds(s, p, start + 1);
            assert(match_positions(s, p, start) == match_positions(s, p, start + 1));
        }
    }
}

/// The first found position is an occurrence.
pub proof fn lemma_match_positions_first(s: Seq<char>, p: Seq<char>, start: int)
    requires
        p.len() > 0,
        0 <= start,
        match_positions(s, p, start).len() > 0,
    ensures
        has_at(s, match_positions(s, p, start)[0], p),
    decreases s.len() - start,
{
    if start + p.len() <= s.len() && !has_at(s, start, p) {
        lemma_match_positions_first(s, p, start + 1);
    }
}

/// The positions of the occurrences of `p` in `s`, left to right, without
/// overlap.
pub fn match_indices(s: &[char], p: &[char]) -> (r: Vec<usize>)
    requires
        p@.len() > 0,
    ensures
        r@.map_values(|i: usize| i as int) == match_positions(s@, p@, 0),
        forall|k: int| 0 <= k < r@.len() ==> r@[k] + p@.len() <= s@.len(),
{
    let mut r: Vec<usize> = Vec::new();
    let mut pos: usize = 0;
    proof {
        lemma_match_positions_bounds(s@, p@, 0);
    }
    loop
        invariant
            p@.len() > 0,
            pos <= s@.len(),
            r@.map_values(|i: usize| i as int) + match_positions(s@, p@, pos as int)
                == match_positions(s@, p@, 0),
            forall|k: int| 0 <= k < r@.len() ==> r@[k] + p@.len() <= s@.len(),
        decreases s@.len() - pos,
    {
        proof {
            lemma_match_positions_find(s@, p@, pos as int);
        }
        match find_chars_from(s, pos, p) {
            None => {
                assert(r@.map_values(|i: usize| i as int) =~= match_positions(s@, p@, 0));
                return r;
            },
            Some(i) => {
                let ghost before = r@.map_values(|i: usize| i as int);
                r.push(i);
                assert(r@.map_values(|i: usize| i as int) =~= before.push(i as int));
                assert(before.push(i as int) + match_positions(s@, p@, i + p@.len()) =~= before + (
                seq![i as int] + match_positions(s@, p@, i + p@.len())));
                let n = s.len();
                assert(i + p@.len() <= n);
                pos = i + p.len();
            },
        }
    }
}

/// One link of a pass: the occurrence of the opening part at `i` in the
/// unchanged text, moved by the change in length so far, starts the link; the
/// next closing part ends it; the conversion's result, if any, takes its
/// place.
pub open spec fn rewrite_at(
    cur: Seq<char>,
    orig_len: int,
    i: int,
    start_len: int,
    end: Seq<char>,
    conv: ConversionView,
) -> Seq<char> {
    let s = i + start_len + cur.len() - orig_len;
    if s < 0 || s > cur.len() {
        cur
    } else {
        match find_from(cur, s, end) {
            None => cur,
            Some(e) => match converted(conv, cur.subrange(s, e)) {
                None => cur,
                Some(u) => cur.take(s) + u + cur.skip(e),
            },
        }
    }
}

/// The text after the first `n` links of a pass over `html`.
pub open spec fn rewrite_upto(
    html: Seq<char>,
    ps: Seq<int>,
    n: int,
    start_len: int,
    end: Seq<char>,
    conv: ConversionView,
) -> Seq<char>
    decreases n,
{
    if n <= 0 {
        html
    } else {
        rewrite_at(rewrite_upto(html, ps, n - 1, start_len, end, conv), html.len() as int, ps[n - 1], start_len, end, conv)
    }
}

/// One pass over `html` for the links that begin after `start` and end at
/// `end`.
pub open spec fn rewrite_part(html: Seq<char>, start: Seq<char>, end: Seq<char>, conv: ConversionView) -> Seq<char> {
    let ps = match_positions(html, start, 0);
    rewrite_upto(html, ps, ps.len() as int, start.len() as int, end, conv)
}

/// Passes over `html`, one per pair of opening and closing part, in order.
pub open spec fn rewrite_parts(html: Seq<char>, parts: Seq<(Seq<char>, Seq<char>)>, conv: ConversionView) -> Seq<char>
    decreases parts.len(),
{
    if parts.len() == 0 {
        html
    } else {
        rewrite_part(rewrite_parts(html, parts.drop_last(), conv), parts.last().0, parts.last().1, conv)
    }
}

/// One pass over `html` for the links between `start_attr_part` and
/// `end_attr_part`.
pub fn rewrite_links(html: &mut String, start_attr_part: &str, end_attr_part: &str, conv: &Conversion)
    requires
        start_attr_part@.len() > 0,
    ensures
        final(html)@ == rewrite_part(old(html)@, start_attr_part@, end_attr_part@, conv@),
{
    let orig = chars_of(html.as_str());
    let start = chars_of(start_attr_part);
    let end = chars_of(end_attr_part);
    let indexes = match_indices(orig.as_slice(), start.as_slice());
    let ghost ps = indexes@.map_values(|i: usize| i as int);
    let orig_len = orig.len();
    let mut cur: Vec<char> = chars_of(html.as_str());
    let mut j: usize = 0;
    while j < indexes.len()
        invariant
            ps == indexes@.map_values(|i: usize| i as int),
            ps == match_positions(orig@, start@, 0),
            forall|k: int| 0 <= k < indexes@.len() ==> indexes@[k] + start@.len() <= orig@.len(),
            orig_len == orig@.len(),
            start@ == start_attr_part@,
            end@ == end_attr_part@,
            j <= indexes@.len(),
            cur@ == rewrite_upto(orig@, ps, j as int, start@.len() as int, end@, conv@),
        decreases indexes@.len() - j,
    {
        let i = indexes[j];
        let base = i + start.len();
        let cur_len = cur.len();
        let ghost before = cur@;
        let s: Option<usize> = if cur_len >= orig_len {
            Some(base + (cur_len - orig_len))
        } else if base >= orig_len - cur_len {
            Some(base - (orig_len - cur_len))
        } else {
            None
        };
        if let Some(s) = s {
            if let Some(e) = find_chars_from(cur.as_slice(), s, end.as_slice()) {
                let href = string_of(sub_chars(cur.as_slice(), s, e).as_slice());
                if let Some(url) = convert(conv, href.as_str()) {
                    let mut next = sub_chars(cur.as_slice(), 0, s);
                    extend_chars(&mut next, chars_of(url.as_str()).as_slice());
                    let tail = sub_chars(cur.as_slice(), e, cur_len);
                    extend_chars(&mut next, tail.as_slice());
                    assert(next@ =~= before.take(s as int) + url@ + before.skip(e as int));
                    cur = next;
                }
            }
        }
        assert(cur@ == rewrite_at(before, orig_len as int, ps[j as int], start@.len() as int, end@, conv@));
        j = j + 1;
    }
    *html = string_of(cur.as_slice());
}

/// A character of the pattern is found at the same place in the text where
/// the pattern occurs.
pub proof fn lemma_has_at_char(s: Seq<char>, i: int, p: Seq<char>, m: int)
    requires
        has_at(s, i, p),
        0 <= m < p.len(),
    ensures
        s[i + m] == p[m],
{
    assert(s.subrange(i, i + p.len())[m] == s[i + m]);
}

/// Where the pattern occurs nowhere from `a` up to `b`, the positions found
/// from `a` are those found from `b`.
pub proof fn lemma_match_positions_skip(s: Seq<char>, p: Seq<char>, a: int, b: int)
    requires
        p.len() > 0,
        0 <= a <= b,
        forall|i: int| a <= i < b ==> !has_at(s, i, p),
    ensures
        match_positions(s, p, a) == match_positions(s, p, b),
    decreases b - a,
{
    if a < b {
        lemma_match_positions_skip(s, p, a + 1, b);
        if a + p.len() > s.len() {
            assert(match_positions(s, p, b) == Seq::<int>::empty());
        }
    }
}

/// A pass whose opening part occurs nowhere in the text leaves it as it is.
pub proof fn lemma_pass_without_match(html: Seq<char>, start: Seq<char>, end: Seq<char>, conv: ConversionView)
    requires
        start.len() > 0,
        forall|i: int| 0 <= i ==> !has_at(html, i, start),
    ensures
        rewrite_part(html, start, end, conv) == html,
{
    lemma_match_positions_skip(html, start, 0, html.len() as int + 1);
    assert(match_positions(html, start, html.len() as int + 1) == Seq::<int>::empty());
}

/// Passes whose opening parts each occur nowhere in the text leave it as it
/// is.
pub proof fn lemma_passes_without_match(html: Seq<char>, parts: Seq<(Seq<char>, Seq<char>)>, conv: ConversionView)
    requires
        forall|k: int| 0 <= k < parts.len() ==> (#[trigger] parts[k]).0.len() > 0,
        forall|k: int, i: int| 0 <= k < parts.len() && 0 <= i ==> !#[trigger] has_at(html, i, parts[k].0),
    ensures
        rewrite_parts(html, parts, conv) == html,
    decreases parts.len(),
{
    if parts.len() > 0 {
        let q = parts.drop_last();
        assert forall|k: int| 0 <= k < q.len() implies (#[trigger] q[k]).0.len() > 0 by {
            assert(q[k] == parts[k]);
        }
        assert forall|k: int, i: int| 0 <= k < q.len() && 0 <= i implies !#[trigger] has_at(html, i, q[k].0) by {
            assert(q[k] == parts[k]);
        }
        lemma_passes_without_match(html, q, conv);
        assert(parts[parts.len() - 1] == parts.last());
        lemma_pass_without_match(html, parts.last().0, parts.last().1, conv);
    }
}

/// Passes whose opening parts each hold a character that the text lacks
/// leave it as it is.
pub proof fn lemma_passes_without_char(html: Seq<char>, parts: Seq<(Seq<char>, Seq<char>)>, c: char, conv: ConversionView)
    requires
        forall|k: int| 0 <= k < parts.len() ==> (#[trigger] parts[k]).0.contains(c),
        forall|j: int| 0 <= j < html.len() ==> html[j] != c,
    ensures
        rewrite_parts(html, parts, conv) == html,
    decreases parts.len(),
{
    if parts.len() > 0 {
        let q = parts.drop_last();
        assert forall|k: int| 0 <= k < q.len() implies (#[trigger] q[k]).0.contains(c) by {
            assert(q[k] == parts[k]);
        }
        lemma_passes_without_char(html, q, c, conv);
        let last = parts.last();
        assert(parts[parts.len() - 1] == last);
        let m = choose|m: int| 0 <= m < last.0.len() && last.0[m] == c;
        assert forall|i: int| 0 <= i implies !has_at(html, i, last.0) by {
            if has_at(html, i, last.0) {
                lemma_has_at_char(html, i, last.0, m);
            }
        }
        lemma_pass_without_match(html, last.0, last.1, conv);
    }
}

/// Two passes, one after the other.
pub proof fn lemma_two_passes(html: Seq<char>, parts: Seq<(Seq<char>, Seq<char>)>, conv: ConversionView)
    requires
        parts.len() == 2,
    ensures
        rewrite_parts(html, parts, conv) == rewrite_part(
            rewrite_part(html, parts[0].0, parts[0].1, conv),
            parts[1].0,
            parts[1].1,
            conv,
        ),
{
    assert(parts.drop_last() =~= seq![parts[0]]);
    let first = seq![parts[0]];
    assert(first.drop_last() =~= Seq::<(Seq<char>, Seq<char>)>::empty());
    assert(rewrite_parts(html, Seq::<(Seq<char>, Seq<char>)>::empty(), conv) == html);
    assert(rewrite_parts(html, first, conv) == rewrite_part(html, parts[0].0, parts[0].1, conv));
    assert(parts.last() == parts[1]);
}

} // verus!
