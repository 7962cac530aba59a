//! The HTML preview of a response: either the body shown directly with a
//! `<base>` tag, or, through the proxy, the request's URL moved to this
//! tool's host, with the request to replay and its cookies.
use vstd::prelude::*;

use crate::model::restclient::rest_client_request::RestClientRequest;
use crate::rest_client::model::request_header::{pairs_of, RequestHeaders};
use crate::rest_client::model::request_params::{sent_body, RequestParams};
use crate::rest_client::util::cookie_parse::{cookie_parsed_of, parse_encoded_cookie};
use crate::rest_client::util::html_previewer::{add_head_base_tag, init_html_previewer, CookieSpec};
use crate::rest_client::util::html_utils::{base_url_of, head_in_order, with_base_tag};
use crate::rest_client::util::link_rewrite::{HostInfo, HostView, host_view};
use crate::rest_client::util::url_ops::{
    url_appended_pair, url_appended_pair_of, url_redirected, url_redirected_of, url_rehosted, url_rehosted_of,
};
use crate::split::{split_chars, split_on, views};
use crate::text::{chars_of, lowercase_of, owned, pair_views, same_text, string_of, to_lowercase};

verus! {

/// The document the preview frame shows directly: none through the proxy
/// (the frame loads the proxied URL instead); else the body with a `<base>`
/// tag for the request's URL.
pub fn previewer_src_doc(body: &str, url: &str, proxy_allow: bool) -> (r: Option<String>)
    requires
        !proxy_allow ==> head_in_order(body@),
    ensures
        proxy_allow ==> r is None,
        !proxy_allow ==> (r matches Some(s) && s@ == with_base_tag(body@, url@)),
{
    if proxy_allow {
        None
    } else {
        let mut html = owned(body);
        add_head_base_tag(&mut html, url);
        Some(html)
    }
}

/// The name/value pairs of the headers, in order.
pub fn header_pairs(headers: &RequestHeaders) -> (r: Vec<(String, String)>)
    ensures
        pair_views(r@) == pairs_of(headers@),
{
    let hs = headers.iter();
    let mut r: Vec<(String, String)> = Vec::new();
    let mut i: usize = 0;
    while i < hs.len()
        invariant
            hs@.map_values(|h: crate::rest_client::model::request_header::RequestHeader| h@) == headers@,
            i <= hs@.len(),
            pair_views(r@) == pairs_of(headers@).take(i as int),
        decreases hs@.len() - i,
    {
        let ghost before = r@;
        let n = hs[i].name.clone();
        let v = hs[i].value.clone();
        r.push((n, v));
        proof {
            assert(headers@[i as int] == hs@[i as int]@);
            assert(pair_views(r@) =~= pair_views(before).push((n@, v@)));
            assert(pairs_of(headers@).take(i + 1) =~= pairs_of(headers@).take(i as int).push(pairs_of(headers@)[i as int]));
        }
        i = i + 1;
    }
    assert(pairs_of(headers@).take(hs@.len() as int) =~= pairs_of(headers@));
    r
}

/// The request the preview replays through the proxy: the given method, no
/// URL (the URL travels as a query parameter), the request's headers and its
/// body; the body's encoding error when it has none.
pub fn preview_request(params: &RequestParams, method: &str) -> (r: Result<RestClientRequest, String>)
    ensures
        sent_body(*params) matches Ok(b) ==> (r matches Ok(q) && q.method@ == method@ && q.url@.len() == 0
            && pair_views(q.headers@) == pairs_of(params.headers@) && q.body@ == b),
        sent_body(*params) matches Err(m) ==> (r matches Err(e) && e@ == m),
{
    match params.get_body() {
        Ok(body) => {
            let headers = header_pairs(&params.headers);
            Ok(RestClientRequest { method: owned(method), url: String::new(), headers, body })
        },
        Err(e) => Err(e),
    }
}

/// The cookies that the cookie texts of `pieces` read as, in order; a piece
/// that does not read as a cookie is left out.
pub open spec fn parsed_cookies(pieces: Seq<Seq<char>>) -> Seq<(Seq<char>, Seq<char>)>
    decreases pieces.len(),
{
    if pieces.len() == 0 {
        Seq::empty()
    } else {
        let rest = parsed_cookies(pieces.drop_last());
        match cookie_parsed_of(pieces.last()) {
            Some(c) => rest.push(c),
            None => rest,
        }
    }
}

/// The cookies of the `cookie` headers (name compared in lower case), each
/// header's value split at `;`, in order.
pub open spec fn header_cookies(headers: Seq<(Seq<char>, Seq<char>)>) -> Seq<(Seq<char>, Seq<char>)>
    decreases headers.len(),
{
    if headers.len() == 0 {
        Seq::empty()
    } else {
        let h = headers.last();
        header_cookies(headers.drop_last()) + if lowercase_of(h.0) == "cookie"@ {
            parsed_cookies(split_on(h.1, ';'))
        } else {
            Seq::empty()
        }
    }
}

/// The cookies that one header value holds, in order.
fn value_cookies(value: &str) -> (r: Vec<(String, String)>)
    ensures
        pair_views(r@) == parsed_cookies(split_on(value@, ';')),
{
    let cs = chars_of(value);
    let pieces = split_chars(cs.as_slice(), ';');
    let ghost ps = views(pieces@);
    let mut r: Vec<(String, String)> = Vec::new();
    let mut i: usize = 0;
    while i < pieces.len()
        invariant
            ps == views(pieces@),
            ps == split_on(value@, ';'),
            i <= pieces@.len(),
            pair_views(r@) == parsed_cookies(ps.take(i as int)),
        decreases pieces@.len() - i,
    {
        let text = string_of(pieces[i].as_slice());
        let ghost before = r@;
        assert(ps.take(i + 1).drop_last() =~= ps.take(i as int));
        assert(ps.take(i + 1).last() == ps[i as int]);
        match parse_encoded_cookie(text.as_str()) {
            Some((n, v)) => {
                r.push((n, v));
                assert(pair_views(r@) =~= pair_views(before).push((n@, v@)));
            },
            None => {},
        }
        i = i + 1;
    }
    assert(ps.take(pieces@.len() as int) =~= ps);
    r
}

/// The cookies the preview creates before it loads: those of the request's
/// `cookie` headers, each value split at `;` and read percent-decoded; pieces
/// that do not read as a cookie are left out.
pub fn preview_cookies(headers: &RequestHeaders) -> (r: Vec<(String, String)>)
    ensures
        pair_views(r@) == header_cookies(pairs_of(headers@)),
{
    let pairs = header_pairs(headers);
    let ghost hs = pair_views(pairs@);
    let mut r: Vec<(String, String)> = Vec::new();
    let mut i: usize = 0;
    while i < pairs.len()
        invariant
            hs == pair_views(pairs@),
            hs == pairs_of(headers@),
            i <= pairs@.len(),
            pair_views(r@) == header_cookies(hs.take(i as int)),
        decreases pairs@.len() - i,
    {
        assert(hs.take(i + 1).drop_last() =~= hs.take(i as int));
        assert(hs.take(i + 1).last() == hs[i as int]);
        let name = to_lowercase(pairs[i].0.as_str());
        if same_text(name.as_str(), "cookie") {
            let found = value_cookies(pairs[i].1.as_str());
            let mut j: usize = 0;
            let ghost before = pair_views(r@);
            while j < found.len()
                invariant
                    j <= found@.len(),
                    pair_views(r@) == before + pair_views(found@).take(j as int),
                decreases found@.len() - j,
            {
                let ghost b2 = r@;
                let n = found[j].0.clone();
                let v = found[j].1.clone();
                r.push((n, v));
                assert(pair_views(r@) =~= pair_views(b2).push((n@, v@)));
                assert(pair_views(found@).take(j + 1) =~= pair_views(found@).take(j as int).push(pair_views(found@)[j as int]));
                assert(pair_views(r@) =~= before + pair_views(found@).take(j + 1));
                j = j + 1;
            }
            assert(pair_views(found@).take(found@.len() as int) =~= pair_views(found@));
        } else {
            assert(pair_views(r@) =~= header_cookies(hs.take(i as int)) + Seq::<(Seq<char>, Seq<char>)>::empty());
        }
        i = i + 1;
    }
    assert(hs.take(pairs@.len() as int) =~= hs);
    r
}

/// The proxied URL of a preview: the request's URL moved to this tool's host
/// with its own text as the parameter `src_param`, then the request data pair
/// appended where there is one; `None` without a host, when the URL does not
/// parse or a setter refuses it.
pub open spec fn previewer_src_of(
    url: Seq<char>,
    host: Option<HostView>,
    src_param: Seq<char>,
    data: Option<(Seq<char>, Seq<char>)>,
) -> Option<Seq<char>> {
    match host {
        None => None,
        Some(h) => match url_redirected_of(url, h.0, h.1, h.2, src_param) {
            Some(Some(u)) => match data {
                None => Some(u),
                Some(d) => url_appended_pair_of(u, d.0, d.1),
            },
            _ => None,
        },
    }
}

/// The URL the preview frame loads through the proxy: the request's URL on
/// this tool's host, carrying the request's own URL as `src_param` and, where
/// given, the request data pair.
pub fn previewer_src(url: &str, host: &Option<HostInfo>, src_param: &str, data: &Option<(String, String)>) -> (r: Option<String>)
    ensures
        (match r {
            Some(s) => Some(s@),
            None => None,
        }) == previewer_src_of(
            url@,
            host_view(*host),
            src_param@,
            match data {
                Some(d) => Some((d.0@, d.1@)),
                None => None,
            },
        ),
{
    match host {
        None => None,
        Some(h) => {
            let moved = url_redirected(url, h.scheme.as_str(), h.host.as_str(), h.port, src_param);
            match moved {
                Some(Some(u)) => match data {
                    None => Some(u),
                    Some((n, j)) => url_appended_pair(u.as_str(), n.as_str(), j.as_str()),
                },
                _ => None,
            }
        },
    }
}

/// The cookie to create once the proxied page has loaded at `href`: the base
/// URL of `href` moved to the request's scheme and host; none when that move
/// fails.
pub fn previewer_reload_cookie(href: &str, request_url: &str) -> (r: Option<CookieSpec>)
    ensures
        url_rehosted_of(href@, request_url@) is None ==> r is None,
        url_rehosted_of(href@, request_url@) matches Some(u) ==> (r matches Some(c) && c.name@ == "rc_base_url"@
            && c.value@ == base_url_of(u) && c.days is None),
{
    match url_rehosted(href, request_url) {
        Some(u) => init_html_previewer(true, u.as_str()),
        None => None,
    }
}

} // verus!
