//! What the result panel shows of a response: its status text, the body and
//! the code language it is shown in, an attachment or an image, the headers,
//! and how the HTML preview of the body is prepared.
use vstd::prelude::*;

use crate::decimal::{dec_nat, u16_digits};
use crate::model::restclient::rest_client_response::{RestClientResponse, RestClientResponseBody};
use crate::rest_client::model::request_result::RequestResult;
use crate::rest_client::util::html_previewer::{
    add_head_base_tag, build_base_url, preview_parts, replace_absolute_links, CookieSpec,
};
use crate::rest_client::util::html_utils::{base_url_of, head_in_order, with_base_tag};
use crate::rest_client::util::link_rewrite::{host_view, rewrite_parts, ConversionView, HostInfo};
use crate::split::{join, join_chars, views};
use crate::text::{
    chars_of, clone_pairs, contains, extend_str, lowercase_of, opt_text, owned, pair_views, same_text,
    str_contains, string_of, to_lowercase, to_uppercase, uppercase_of,
};

verus! {

/// The code language of the first media type in `table` whose name occurs,
/// ignoring case, in `upper` (an uppercased media type).
pub open spec fn media_code_in(upper: Seq<char>, table: Seq<(Seq<char>, Seq<char>)>) -> Option<Seq<char>>
    decreases table.len(),
{
    if table.len() == 0 {
        None
    } else if contains(upper, uppercase_of(table[0].0)) {
        Some(table[0].1)
    } else {
        media_code_in(upper, table.skip(1))
    }
}

/// The code language of a media type, by the first entry of `table` (media
/// type name, language) whose name occurs in it, ignoring case.
pub open spec fn media_type_code(media_type: Seq<char>, table: Seq<(Seq<char>, Seq<char>)>) -> Option<Seq<char>> {
    media_code_in(uppercase_of(media_type), table)
}

/// The language of the first `content-type` header (name compared in lower
/// case) whose value has a code language.
pub open spec fn headers_lang(headers: Seq<(Seq<char>, Seq<char>)>, table: Seq<(Seq<char>, Seq<char>)>) -> Option<Seq<char>>
    decreases headers.len(),
{
    if headers.len() == 0 {
        None
    } else if lowercase_of(headers[0].0) == "content-type"@ && media_type_code(headers[0].1, table) is Some {
        media_type_code(headers[0].1, table)
    } else {
        headers_lang(headers.skip(1), table)
    }
}

/// The language a text body is shown in: that of its content type, else
/// `html`.
pub open spec fn response_lang_of(headers: Seq<(Seq<char>, Seq<char>)>, table: Seq<(Seq<char>, Seq<char>)>) -> Seq<char> {
    match headers_lang(headers, table) {
        Some(l) => l,
        None => "html"@,
    }
}

/// The code language of `media_type`: the language of the first entry of
/// `media_types` (media type name, language) whose name occurs in it,
/// ignoring case.
pub fn get_media_type_code(media_type: &str, media_types: &[(String, String)]) -> (r: Option<String>)
    ensures
        opt_text(r) == media_type_code(media_type@, pair_views(media_types@)),
{
    let upper = to_uppercase(media_type);
    let ghost table = pair_views(media_types@);
    assert(table.skip(0) =~= table);
    let mut i: usize = 0;
    while i < media_types.len()
        invariant
            table == pair_views(media_types@),
            upper@ == uppercase_of(media_type@),
            i <= media_types@.len(),
            media_code_in(upper@, table) == media_code_in(upper@, table.skip(i as int)),
        decreases media_types@.len() - i,
    {
        let name_upper = to_uppercase(media_types[i].0.as_str());
        assert(table.skip(i as int)[0] == table[i as int]);
        if str_contains(upper.as_str(), name_upper.as_str()) {
            return Some(media_types[i].1.clone());
        }
        assert(table.skip(i as int).skip(1) =~= table.skip(i + 1));
        i = i + 1;
    }
    assert(table.skip(i as int).len() == 0);
    None
}

/// The language a text body is shown in: the code language of the first
/// `content-type` header that has one, else `html`.
pub fn response_lang(headers: &Vec<(String, String)>, media_types: &[(String, String)]) -> (r: String)
    ensures
        r@ == response_lang_of(pair_views(headers@), pair_views(media_types@)),
{
    let ghost hs = pair_views(headers@);
    let ghost table = pair_views(media_types@);
    assert(hs.skip(0) =~= hs);
    let mut i: usize = 0;
    while i < headers.len()
        invariant
            hs == pair_views(headers@),
            table == pair_views(media_types@),
            i <= headers@.len(),
            headers_lang(hs, table) == headers_lang(hs.skip(i as int), table),
        decreases headers@.len() - i,
    {
        assert(hs.skip(i as int)[0] == hs[i as int]);
        let name = to_lowercase(headers[i].0.as_str());
        if same_text(name.as_str(), "content-type") {
            if let Some(code) = get_media_type_code(headers[i].1.as_str(), media_types) {
                return code;
            }
        }
        assert(hs.skip(i as int).skip(1) =~= hs.skip(i + 1));
        i = i + 1;
    }
    assert(hs.skip(i as int).len() == 0);
    owned("html")
}

/// What the result panel shows of a response: nothing without one; else its
/// status, its text body in the language of its content type, its attachment
/// (with the request's URL) or image (the request's URL), its headers and the
/// raw request.
pub fn result_of_response(response: &Option<RestClientResponse>, url: &str, media_types: &[(String, String)]) -> (r: RequestResult)
    ensures
        response is None ==> r.is_cleared(),
        response matches Some(x) ==> {
            &&& r.status_code@ == dec_nat(x.status_code as nat)
            &&& r.size is None
            &&& r.body@ == (match x.body {
                RestClientResponseBody::Text(b) => b@,
                _ => Seq::empty(),
            })
            &&& r.lang@ == (match x.body {
                RestClientResponseBody::Text(_) => response_lang_of(pair_views(x.headers@), pair_views(media_types@)),
                _ => Seq::empty(),
            })
            &&& r.attachment.0@ == (match x.body {
                RestClientResponseBody::Attachment(_) => url@,
                _ => Seq::empty(),
            })
            &&& r.attachment.1@ == (match x.body {
                RestClientResponseBody::Attachment(f) => f@,
                _ => Seq::empty(),
            })
            &&& r.image@ == (match x.body {
                RestClientResponseBody::Image => url@,
                _ => Seq::empty(),
            })
            &&& pair_views(r.headers@) == pair_views(x.headers@)
            &&& r.request_raw@ == x.request_raw@
        },
{
    let mut result = RequestResult::new();
    match response {
        None => {},
        Some(x) => {
            result.status_code = string_of(u16_digits(x.status_code).as_slice());
            match &x.body {
                RestClientResponseBody::Text(b) => {
                    result.lang = response_lang(&x.headers, media_types);
                    result.body = b.clone();
                },
                RestClientResponseBody::Attachment(f) => {
                    result.attachment = (owned(url), f.clone());
                },
                RestClientResponseBody::Image => {
                    result.image = owned(url);
                },
                RestClientResponseBody::Empty => {},
            }
            result.headers = clone_pairs(&x.headers);
            result.request_raw = x.request_raw.clone();
            assert(pair_views(result.headers@) == pair_views(x.headers@));
        },
    }
    result
}

/// How a shown body is reformatted before display.
#[derive(Clone, Copy, Debug, PartialEq, Eq, Structural)]
pub enum BodyFormat {
    AsIs,
    Xml,
    Json,
}

/// How a body in language `lang` is reformatted: XML and JSON bodies are
/// pretty-printed when formatting is on; all else is shown as it is.
pub fn body_format(formatting: bool, lang: &str) -> (r: BodyFormat)
    ensures
        r == (if formatting && lang@ == "xml"@ {
            BodyFormat::Xml
        } else if formatting && lang@ == "json"@ {
            BodyFormat::Json
        } else {
            BodyFormat::AsIs
        }),
{
    if formatting && same_text(lang, "xml") {
        BodyFormat::Xml
    } else if formatting && same_text(lang, "json") {
        BodyFormat::Json
    } else {
        BodyFormat::AsIs
    }
}

/// The row that shows one header.
pub open spec fn header_row(h: (Seq<char>, Seq<char>)) -> Seq<char> {
    "<div class=\"flex flex-row gap-4\"><div class=\"w-1/3\">"@ + h.0 + "</div><div class=\"w-full\">"@ + h.1
        + "</div></div>"@
}

/// The headers as HTML, one row per header, rows separated by newlines.
pub open spec fn rendered_headers(headers: Seq<(Seq<char>, Seq<char>)>) -> Seq<char> {
    join(headers.map_values(|h: (Seq<char>, Seq<char>)| header_row(h)), seq!['\n'])
}

/// The headers as HTML, one row per header, rows separated by newlines.
pub fn render_headers(headers: &Vec<(String, String)>) -> (r: String)
    ensures
        r@ == rendered_headers(pair_views(headers@)),
{
    let ghost hs = pair_views(headers@);
    let mut rows: Vec<Vec<char>> = Vec::new();
    let mut i: usize = 0;
    while i < headers.len()
        invariant
            hs == pair_views(headers@),
            i <= headers@.len(),
            views(rows@) == hs.take(i as int).map_values(|h: (Seq<char>, Seq<char>)| header_row(h)),
        decreases headers@.len() - i,
    {
        let mut row: Vec<char> = Vec::new();
        extend_str(&mut row, "<div class=\"flex flex-row gap-4\"><div class=\"w-1/3\">");
        extend_str(&mut row, headers[i].0.as_str());
        extend_str(&mut row, "</div><div class=\"w-full\">");
        extend_str(&mut row, headers[i].1.as_str());
        extend_str(&mut row, "</div></div>");
        assert(row@ =~= header_row(hs[i as int]));
        let ghost before = views(rows@);
        rows.push(row);
        assert(views(rows@) =~= before.push(header_row(hs[i as int])));
        assert(hs.take(i + 1).map_values(|h: (Seq<char>, Seq<char>)| header_row(h)) =~= hs.take(
            i as int,
        ).map_values(|h: (Seq<char>, Seq<char>)| header_row(h)).push(header_row(hs[i as int])));
        i = i + 1;
    }
    assert(hs.take(headers@.len() as int) =~= hs);
    let sep: Vec<char> = vec!['\n'];
    assert(sep@ =~= seq!['\n']);
    let out = join_chars(&rows, sep.as_slice());
    string_of(out.as_slice())
}

/// The sandbox of the preview frame: same-origin access only when the
/// preview goes through the proxy.
pub fn preview_sandbox(proxy_allow: bool) -> (r: &'static str)
    ensures
        r@ == (if proxy_allow {
            "allow-scripts allow-popups allow-same-origin"@
        } else {
            "allow-scripts allow-popups"@
        }),
{
    if proxy_allow {
        "allow-scripts allow-popups allow-same-origin"
    } else {
        "allow-scripts allow-popups"
    }
}

/// The document the preview frame shows of an HTML body, with the cookie to
/// create first: through the proxy, its links rewritten to the proxy and a
/// cookie with the request's base URL, kept 30 days; else the body with a
/// `<base>` tag for the request's URL.
pub fn result_preview_doc(body: &str, url: &str, proxy_allow: bool, host: &Option<HostInfo>) -> (r: (String, Option<CookieSpec>))
    requires
        !proxy_allow ==> head_in_order(body@),
    ensures
        proxy_allow ==> r.0@ == rewrite_parts(body@, preview_parts(), ConversionView::Preview(url@, host_view(*host))),
        proxy_allow ==> (r.1 matches Some(c) && c.name@ == "rc_base_url"@ && c.value@ == base_url_of(url@) && c.days
            == Some(30i32)),
        !proxy_allow ==> r.0@ == with_base_tag(body@, url@) && r.1 is None,
{
    let mut html = owned(body);
    if proxy_allow {
        replace_absolute_links(&mut html, url, host);
        let cookie = CookieSpec { name: owned("rc_base_url"), value: build_base_url(url), days: Some(30) };
        (html, Some(cookie))
    } else {
        add_head_base_tag(&mut html, url);
        (html, None)
    }
}

} // verus!
