//! Preparing a response's HTML for the preview frame: the request wrapper
//! script in its head, a `<base>` tag, and links redirected to this tool or
//! resolved against the page's URL.
use vstd::prelude::*;

use crate::rest_client::util::html_utils::{
    after_head, attr_parts, background_part_list, background_parts, base_url_of, insert_chars_after_head,
    is_kept_scheme, kept_scheme, lemma_absolute_link_start, lemma_single_head_found, lemma_rewrite_parts_concat, lemma_src_page_rewritten,
    link_parts, redirect_result, single_head,
    single_head_positions, with_base_tag, head_in_order,
};
use crate::rest_client::util::link_rewrite::{
    absolute_url, converted, host_view, is_absolute, lemma_has_at_char, rewrite_links, rewrite_part, rewrite_parts, Conversion,
    ConversionView, HostInfo, HostView,
};
use crate::rest_client::util::url_ops::{url_joined, url_joined_of, url_redirected, url_redirected_of};
use crate::text::{chars_at, chars_of, extend_str, has_at, starts_with, string_of, trim, trim_chars};

verus! {

/// `url` begins with a quote, or with one of `data:`, `javascript:`,
/// `mailto:`, `tel:` or `#`: a link that is not followed.
pub open spec fn is_special(url: Seq<char>) -> bool {
    starts_with(url, "'"@) || starts_with(url, "\""@) || is_kept_scheme(url)
}

/// What a link becomes when it is redirected for the preview: nothing for a
/// blank link; the trimmed link when it is not absolute or is special or the
/// host is unknown; otherwise the redirected URL with the link in
/// `rc_src_url`.
pub open spec fn preview_absolute(src: Seq<char>, host: Option<HostView>) -> Option<Seq<char>> {
    let t = trim(src);
    if t.len() == 0 {
        None
    } else if !is_absolute(t) {
        Some(t)
    } else if is_special(t) {
        Some(t)
    } else {
        match host {
            None => Some(t),
            Some(h) => redirect_result(
                url_redirected_of(t, h.0, h.1, h.2, "rc_src_url"@),
                t,
            ),
        }
    }
}

/// The path and query of a joined URL, as a link.
pub open spec fn path_and_query(p: Seq<char>, q: Option<Seq<char>>) -> Seq<char> {
    match q {
        Some(q) => p + "?"@ + q,
        None => p,
    }
}

/// A relative link that does not begin with `/`, resolved against the base
/// URL, as path and query.
pub open spec fn resolved_link(url: Seq<char>, base_url: Seq<char>) -> Option<Seq<char>> {
    if !starts_with(url, "/"@) {
        match url_joined_of(base_url, url) {
            Some((p, q)) => Some(path_and_query(p, q)),
            None => None,
        }
    } else {
        None
    }
}

/// What a link found in a preview pass becomes: an absolute link redirected
/// (or, when that gives nothing, resolved); a special link stays; another
/// link resolved against the base URL.
pub open spec fn preview_link(url: Seq<char>, base_url: Seq<char>, host: Option<HostView>) -> Option<Seq<char>> {
    if is_absolute(url) && preview_absolute(url, host) is Some {
        preview_absolute(url, host)
    } else if !is_absolute(url) && is_special(url) {
        None
    } else {
        resolved_link(url, base_url)
    }
}

/// The parts of the links of the preview, in the order of the passes.
pub open spec fn preview_parts() -> Seq<(Seq<char>, Seq<char>)> {
    seq![("href=\""@, "\""@), ("href='"@, "'"@), ("src=\""@, "\""@), ("src='"@, "'"@)] + background_parts()
}

/// The parts of the links of the preview, in the order of the passes.
pub fn preview_part_list() -> (r: Vec<(&'static str, &'static str)>)
    ensures
        r@.map_values(|p: (&'static str, &'static str)| (p.0@, p.1@)) == preview_parts(),
        forall|k: int| 0 <= k < r@.len() ==> (#[trigger] r@[k]).0@.len() > 0,
{
    let r: Vec<(&'static str, &'static str)> = vec![
        ("href=\"", "\""),
        ("href='", "'"),
        ("src=\"", "\""),
        ("src='", "'"),
        ("background:url(", ")"),
        ("background:url('", "'"),
        ("background:url(\"", "\""),
        ("background: url(", ")"),
        ("background: url('", "'"),
        ("background: url(\"", "\""),
        ("background-image:url(", ")"),
        ("background-image:url('", "'"),
        ("background-image:url(\"", "\""),
        ("background-image: url(", ")"),
        ("background-image: url('", "'"),
        ("background-image: url(\"", "\""),
    ];
    proof {
        reveal_strlit("href=\"");
        reveal_strlit("href='");
        reveal_strlit("src=\"");
        reveal_strlit("src='");
        reveal_strlit("background:url(");
        reveal_strlit("background:url('");
        reveal_strlit("background:url(\"");
        reveal_strlit("background: url(");
        reveal_strlit("background: url('");
        reveal_strlit("background: url(\"");
        reveal_strlit("background-image:url(");
        reveal_strlit("background-image:url('");
        reveal_strlit("background-image:url(\"");
        reveal_strlit("background-image: url(");
        reveal_strlit("background-image: url('");
        reveal_strlit("background-image: url(\"");
    }
    assert(r@.map_values(|p: (&'static str, &'static str)| (p.0@, p.1@)) =~= preview_parts());
    r
}

/// The script element that wraps the preview's requests.
pub open spec fn script_tag(script: Seq<char>) -> Seq<char> {
    "<script lang=\"javascript\">"@ + script + "</script>"@
}

/// Whether `url` begins with a quote, `data:`, `javascript:`, `mailto:`,
/// `tel:` or `#`.
pub fn is_special_url(url: &str) -> (r: bool)
    ensures
        r == is_special(url@),
{
    let cs = chars_of(url);
    chars_at(cs.as_slice(), 0, chars_of("'").as_slice()) || chars_at(
        cs.as_slice(),
        0,
        chars_of("\"").as_slice(),
    ) || kept_scheme(cs.as_slice())
}

/// Whether the trimmed text begins like an absolute URL.
pub fn is_absolute_url(url_str: &str) -> (r: bool)
    ensures
        r == is_absolute(url_str@),
{
    absolute_url(url_str)
}

/// What a link becomes when it is redirected for the preview.
pub fn convert_absolute_url(src_url: &str, host: &Option<HostInfo>) -> (r: Option<String>)
    ensures
        (match r {
            Some(s) => Some(s@),
            None => None,
        }) == preview_absolute(src_url@, host_view(*host)),
{
    let t = trim_chars(chars_of(src_url).as_slice());
    let ts = string_of(t.as_slice());
    if t.len() == 0 {
        return None;
    }
    if !absolute_url(ts.as_str()) {
        return Some(ts);
    }
    if is_special_url(ts.as_str()) {
        return Some(ts);
    }
    match host {
        None => Some(ts),
        Some(h) => match url_redirected(ts.as_str(), h.scheme.as_str(), h.host.as_str(), h.port, "rc_src_url") {
            None => Some(ts),
            Some(None) => None,
            Some(Some(u)) => Some(u),
        },
    }
}

/// What a link found in a preview pass becomes.
pub fn convert_url(url: &str, base_url: &str, host: &Option<HostInfo>) -> (r: Option<String>)
    ensures
        (match r {
            Some(s) => Some(s@),
            None => None,
        }) == preview_link(url@, base_url@, host_view(*host)),
        !is_absolute(url@) && !is_special(url@) && !starts_with(url@, "/"@) ==> match url_joined_of(
            base_url@,
            url@,
        ) {
            Some((p, Some(q))) => r matches Some(s) && s@ == p + "?"@ + q,
            Some((p, None)) => r matches Some(s) && s@ == p,
            None => r is None,
        },
        !is_absolute(url@) && starts_with(url@, "/"@) ==> r is None,
{
    if is_absolute_url(url) {
        if let Some(converted_url) = convert_absolute_url(url, host) {
            return Some(converted_url);
        }
    } else if is_special_url(url) {
        return None;
    }
    let cs = chars_of(url);
    if !chars_at(cs.as_slice(), 0, chars_of("/").as_slice()) {
        if let Some((path, query)) = url_joined(base_url, url) {
            let mut out: Vec<char> = chars_of(path.as_str());
            match query {
                Some(q) => {
                    extend_str(&mut out, "?");
                    extend_str(&mut out, q.as_str());
                },
                None => {},
            }
            return Some(string_of(out.as_slice()));
        }
    }
    None
}

/// A relative link that does not begin with `/` (nor with a quote or a kept
/// scheme) is resolved against the page's URL and becomes the joined URL's
/// path, followed by `?` and its query where it has one; where the two do not
/// join, the link stays. A link that begins with `/` stays as it is.
pub proof fn lemma_relative_link_resolved(url: Seq<char>, base_url: Seq<char>, host: Option<HostView>)
    ensures
        !is_absolute(url) && !is_special(url) && !starts_with(url, "/"@) ==> match url_joined_of(base_url, url) {
            Some((p, Some(q))) => preview_link(url, base_url, host) == Some(p + "?"@ + q),
            Some((p, None)) => preview_link(url, base_url, host) == Some(p),
            None => preview_link(url, base_url, host) is None,
        },
        !is_absolute(url) && starts_with(url, "/"@) ==> preview_link(url, base_url, host) is None,
{
}

/// The preview's passes look at the same kinds of links as the redirection
/// through this tool: `href` and `src` attributes, then CSS backgrounds.
proof fn lemma_preview_parts_are_link_parts()
    ensures
        preview_parts() == link_parts(),
{
    reveal_strlit("href=\"");
    reveal_strlit("href='");
    reveal_strlit("src=\"");
    reveal_strlit("src='");
    reveal_strlit("href");
    reveal_strlit("src");
    reveal_strlit("=\"");
    reveal_strlit("='");
    assert(attr_parts("href"@)[0].0 =~= "href=\""@);
    assert(attr_parts("href"@)[1].0 =~= "href='"@);
    assert(attr_parts("src"@)[0].0 =~= "src=\""@);
    assert(attr_parts("src"@)[1].0 =~= "src='"@);
    assert(preview_parts() =~= link_parts());
}

/// In the preview, an absolute link (without surrounding white space) is
/// redirected to the browser's host with the link in `rc_src_url`; it stays
/// as it is when the host is unknown or the link does not parse as a URL.
pub proof fn lemma_preview_absolute_link(link: Seq<char>, base_url: Seq<char>, host: Option<HostView>)
    requires
        is_absolute(link),
        trim(link) == link,
    ensures
        host is None ==> preview_link(link, base_url, host) == Some(link),
        host matches Some(h) ==> match url_redirected_of(link, h.0, h.1, h.2, "rc_src_url"@) {
            None => preview_link(link, base_url, host) == Some(link),
            Some(Some(u)) => preview_link(link, base_url, host) == Some(u),
            Some(None) => true,
        },
{
    reveal_strlit("'");
    reveal_strlit("\"");
    lemma_absolute_link_start(link);
    if starts_with(link, "'"@) {
        lemma_has_at_char(link, 0, "'"@, 0);
    }
    if starts_with(link, "\""@) {
        lemma_has_at_char(link, 0, "\""@, 0);
    }
}

/// In the preview, an absolute link in the `src` attribute of an element is
/// redirected to the browser's host, with the link in `rc_src_url`:
/// `<img src="LINK">` becomes `<img src="URL">`. This holds for every link
/// without quotes or surrounding white space that does not end in `=`, whose
/// redirected URL holds no `'` and no `(`.
pub proof fn lemma_preview_src_link_redirected(link: Seq<char>, base_url: Seq<char>, host: HostView, u: Seq<char>)
    requires
        is_absolute(link),
        trim(link) == link,
        forall|k: int| 0 <= k < link.len() ==> link[k] != '"' && link[k] != '\'',
        link.last() != '=',
        url_redirected_of(link, host.0, host.1, host.2, "rc_src_url"@) == Some(Some(u)),
        forall|k: int| 0 <= k < u.len() ==> u[k] != '\'' && u[k] != '(',
    ensures
        rewrite_parts("<img src=\""@ + link + "\">"@, preview_parts(), ConversionView::Preview(base_url, Some(host)))
            == "<img src=\""@ + u + "\">"@,
{
    reveal_strlit("'");
    reveal_strlit("\"");
    lemma_absolute_link_start(link);
    if starts_with(link, "'"@) {
        lemma_has_at_char(link, 0, "'"@, 0);
    }
    if starts_with(link, "\""@) {
        lemma_has_at_char(link, 0, "\""@, 0);
    }
    assert(!is_special(link));
    assert(converted(ConversionView::Preview(base_url, Some(host)), link) == Some(u));
    lemma_preview_parts_are_link_parts();
    lemma_src_page_rewritten(link, u, ConversionView::Preview(base_url, Some(host)));
}

/// In the preview, a relative link in the `src` attribute of an element that
/// does not begin with `/` is resolved against the page's URL, query
/// included: `<img src="LINK">` becomes `<img src="PATH?QUERY">`, PATH and
/// QUERY being those of the joined URL. This holds for every such link
/// without quotes that does not end in `=`, where PATH and QUERY hold no `'`
/// and no `(`.
pub proof fn lemma_preview_relative_src_resolved(
    link: Seq<char>,
    base_url: Seq<char>,
    host: Option<HostView>,
    path: Seq<char>,
    query: Seq<char>,
)
    requires
        link.len() > 0,
        !is_absolute(link),
        !is_special(link),
        !starts_with(link, "/"@),
        forall|k: int| 0 <= k < link.len() ==> link[k] != '"' && link[k] != '\'',
        link.last() != '=',
        url_joined_of(base_url, link) == Some((path, Some(query))),
        forall|k: int| 0 <= k < path.len() ==> path[k] != '\'' && path[k] != '(',
        forall|k: int| 0 <= k < query.len() ==> query[k] != '\'' && query[k] != '(',
    ensures
        rewrite_parts("<img src=\""@ + link + "\">"@, preview_parts(), ConversionView::Preview(base_url, host))
            == "<img src=\""@ + path + "?"@ + query + "\">"@,
{
    reveal_strlit("?");
    let u = path + "?"@ + query;
    assert forall|k: int| 0 <= k < u.len() implies u[k] != '\'' && u[k] != '(' by {
        if k < path.len() {
            assert(u[k] == path[k]);
        } else if k > path.len() {
            assert(u[k] == query[k - path.len() - 1]);
        }
    }
    assert(converted(ConversionView::Preview(base_url, host), link) == Some(u));
    lemma_preview_parts_are_link_parts();
    lemma_src_page_rewritten(link, u, ConversionView::Preview(base_url, host));
    assert("<img src=\""@ + u + "\">"@ =~= "<img src=\""@ + path + "?"@ + query + "\">"@);
}

/// Adds the request wrapper script after the head's `<head>`, when there is a
/// single `<head>` and `</head>`.
pub fn add_preview_scripts(html: &mut String, script_text: &str)
    ensures
        final(html)@ == after_head(old(html)@, script_tag(script_text@)),
{
    let mut tag: Vec<char> = Vec::new();
    extend_str(&mut tag, "<script lang=\"javascript\">");
    extend_str(&mut tag, script_text);
    extend_str(&mut tag, "</script>");
    assert(tag@ =~= script_tag(script_text@));
    insert_chars_after_head(html, tag.as_slice());
}

/// A page with one `<head>` (at `a`) and one `</head>` (at `b`) gets the
/// script `<script lang="javascript">SCRIPT</script>` right after its
/// `<head>`.
pub proof fn lemma_preview_script_inserted(html: Seq<char>, script: Seq<char>, a: int, b: int)
    requires
        has_at(html, a, "<head>"@),
        forall|i: int| i != a ==> !#[trigger] has_at(html, i, "<head>"@),
        has_at(html, b, "</head>"@),
        forall|j: int| j != b ==> !#[trigger] has_at(html, j, "</head>"@),
    ensures
        after_head(html, script_tag(script)) == html.take(a + 6) + "<script lang=\"javascript\">"@ + script
            + "</script>"@ + html.skip(a + 6),
{
    lemma_single_head_found(html, a, b);
}

/// Adds a `<base>` tag for `url` after the head's `<head>`, unless the head
/// has one.
pub fn add_head_base_tag(html: &mut String, url: &str)
    requires
        head_in_order(old(html)@),
    ensures
        final(html)@ == with_base_tag(old(html)@, url@),
{
    crate::rest_client::util::html_utils::add_head_base_tag(html, url)
}

/// The base URL of a page: the URL without its query, or the text as it is.
pub fn build_base_url(url: &str) -> (r: String)
    ensures
        r@ == base_url_of(url@),
{
    crate::rest_client::util::html_utils::build_base_url(url)
}

/// A cookie to create: name, value, and lifetime in days (`None`: for the
/// session).
#[derive(Clone, Debug)]
pub struct CookieSpec {
    pub name: String,
    pub value: String,
    pub days: Option<i32>,
}

/// The cookie that lets the preview's requests go through this tool, to
/// create when the preview opens: the base URL of the page under
/// `rc_base_url`, for the session, when proxying is allowed; none otherwise.
pub fn init_html_previewer(proxy_allow: bool, base_url: &str) -> (r: Option<CookieSpec>)
    ensures
        proxy_allow ==> (r matches Some(c) && c.name@ == "rc_base_url"@ && c.value@ == base_url_of(base_url@)
            && c.days is None),
        !proxy_allow ==> r is None,
{
    if proxy_allow {
        Some(CookieSpec { name: string_of(chars_of("rc_base_url").as_slice()), value: build_base_url(base_url), days: None })
    } else {
        None
    }
}

/// The cookie to remove when the preview closes: its name and path.
pub fn clear_html_previewer() -> (r: (String, String))
    ensures
        r.0@ == "rc_base_url"@,
        r.1@ == "/"@,
{
    (string_of(chars_of("rc_base_url").as_slice()), string_of(chars_of("/").as_slice()))
}

/// Rewrites the links of one pass: those after `start_attr_part` up to
/// `end_attr_part`.
pub fn replace_absolute_links_by_attr_part(
    html: &mut String,
    start_attr_part: &str,
    end_attr_part: &str,
    base_url: &str,
    host: &Option<HostInfo>,
)
    requires
        start_attr_part@.len() > 0,
    ensures
        final(html)@ == rewrite_part(
            old(html)@,
            start_attr_part@,
            end_attr_part@,
            ConversionView::Preview(base_url@, host_view(*host)),
        ),
{
    let conv = Conversion::Preview(base_url.to_owned(), host_copy(host));
    rewrite_links(html, start_attr_part, end_attr_part, &conv);
}

/// Rewrites the links of `href` and `src` attributes and of CSS background
/// images for the preview of a page at `base_url`.
pub fn replace_absolute_links(html: &mut String, base_url: &str, host: &Option<HostInfo>)
    ensures
        final(html)@ == rewrite_parts(
            old(html)@,
            preview_parts(),
            ConversionView::Preview(base_url@, host_view(*host)),
        ),
{
    let parts = preview_part_list();
    let ghost pv = parts@.map_values(|p: (&'static str, &'static str)| (p.0@, p.1@));
    let ghost h0 = html@;
    let conv = Conversion::Preview(base_url.to_owned(), host_copy(host));
    let mut k: usize = 0;
    while k < parts.len()
        invariant
            pv == parts@.map_values(|p: (&'static str, &'static str)| (p.0@, p.1@)),
            pv == preview_parts(),
            forall|j: int| 0 <= j < parts@.len() ==> (#[trigger] parts@[j]).0@.len() > 0,
            conv@ == ConversionView::Preview(base_url@, host_view(*host)),
            k <= parts@.len(),
            html@ == rewrite_parts(h0, pv.take(k as int), conv@),
        decreases parts@.len() - k,
    {
        rewrite_links(html, parts[k].0, parts[k].1, &conv);
        assert(pv.take(k + 1).drop_last() =~= pv.take(k as int));
        assert(pv.take(k + 1).last() == (parts@[k as int].0@, parts@[k as int].1@));
        k = k + 1;
    }
    assert(pv.take(parts@.len() as int) =~= pv);
}

fn host_copy(host: &Option<HostInfo>) -> (r: Option<HostInfo>)
    ensures
        r == *host,
{
    match host {
        Some(h) => Some(h.clone()),
        None => None,
    }
}

} // verus!
