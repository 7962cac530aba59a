//! The request page's single request: the values it starts from, read from
//! the store, and the request it sends.
use vstd::prelude::*;

use crate::local_store::{value_or, LocalStore};
use crate::model::restclient::rest_client_request::RestClientRequest;
use crate::rest_client::req_params_headers_panel::{custom_pairs, custom_views, CustomHeader};
use crate::text::{owned, pair_views};

verus! {

/// What the request page edits: url, method, body and the standard headers.
#[derive(Debug)]
pub struct ReqPanelState {
    pub url: String,
    pub method: String,
    pub body: String,
    pub content_type: String,
    pub accept: String,
    pub user_agent: String,
    pub accept_lang: String,
}

/// The values the request page starts from: what the store keeps for each,
/// else no url, `GET`, no body, no content type or accept, this tool as
/// user agent, and the browser's language.
pub fn load_req_panel_state(store: &LocalStore, accept_language: &str) -> (r: ReqPanelState)
    requires
        store.wf(),
    ensures
        r.url@ == value_or(store@, "rc_url"@, Seq::empty()),
        r.method@ == value_or(store@, "rc_method"@, "GET"@),
        r.body@ == value_or(store@, "rc_body"@, Seq::empty()),
        r.content_type@ == value_or(store@, "rc_content_type"@, Seq::empty()),
        r.accept@ == value_or(store@, "rc_accept"@, Seq::empty()),
        r.user_agent@ == value_or(store@, "rc_user_agent"@, "WebDevUsefulTools Client"@),
        r.accept_lang@ == value_or(store@, "rc_accept_lang"@, accept_language@),
{
    ReqPanelState {
        url: store.get_value("rc_url", String::new()),
        method: store.get_value("rc_method", owned("GET")),
        body: store.get_value("rc_body", String::new()),
        content_type: store.get_value("rc_content_type", String::new()),
        accept: store.get_value("rc_accept", String::new()),
        user_agent: store.get_value("rc_user_agent", owned("WebDevUsefulTools Client")),
        accept_lang: store.get_value("rc_accept_lang", owned(accept_language)),
    }
}

/// The headers the request page sends: each standard header that is not
/// empty, in the order content type, accept, language, user agent, then the
/// custom headers in order.
pub open spec fn panel_headers(s: ReqPanelState, custom: Seq<(Seq<char>, Seq<char>)>) -> Seq<(Seq<char>, Seq<char>)> {
    (if s.content_type@.len() > 0 {
        seq![("content-type"@, s.content_type@)]
    } else {
        Seq::empty()
    }) + (if s.accept@.len() > 0 {
        seq![("accept"@, s.accept@)]
    } else {
        Seq::empty()
    }) + (if s.accept_lang@.len() > 0 {
        seq![("accept_language"@, s.accept_lang@)]
    } else {
        Seq::empty()
    }) + (if s.user_agent@.len() > 0 {
        seq![("user-agent"@, s.user_agent@)]
    } else {
        Seq::empty()
    }) + custom
}

/// Appends a header when its value is not empty.
fn push_if_set(headers: &mut Vec<(String, String)>, name: &str, value: &String)
    ensures
        pair_views(final(headers)@) == pair_views(old(headers)@) + (if value@.len() > 0 {
            seq![(name@, value@)]
        } else {
            Seq::empty()
        }),
{
    if !value.as_str().is_empty() {
        let ghost before = headers@;
        headers.push((owned(name), value.clone()));
        assert(pair_views(headers@) =~= pair_views(before) + seq![(name@, value@)]);
    } else {
        assert(pair_views(headers@) =~= pair_views(headers@) + Seq::<(Seq<char>, Seq<char>)>::empty());
    }
}

/// The request the page sends: its method, url and body, with its headers.
pub fn build_panel_request(state: &ReqPanelState, custom_headers: &Vec<CustomHeader>) -> (r: RestClientRequest)
    ensures
        r.method@ == state.method@,
        r.url@ == state.url@,
        r.body@ == state.body@,
        pair_views(r.headers@) == panel_headers(*state, custom_pairs(custom_views(custom_headers@))),
{
    let mut headers: Vec<(String, String)> = Vec::new();
    push_if_set(&mut headers, "content-type", &state.content_type);
    push_if_set(&mut headers, "accept", &state.accept);
    push_if_set(&mut headers, "accept_language", &state.accept_lang);
    push_if_set(&mut headers, "user-agent", &state.user_agent);
    let ghost pre = pair_views(headers@);
    let ghost cs = custom_pairs(custom_views(custom_headers@));
    let mut i: usize = 0;
    while i < custom_headers.len()
        invariant
            cs == custom_pairs(custom_views(custom_headers@)),
            i <= custom_headers@.len(),
            pair_views(headers@) == pre + cs.take(i as int),
        decreases custom_headers@.len() - i,
    {
        let ghost before = headers@;
        let n = custom_headers[i].name.clone();
        let v = custom_headers[i].value.clone();
        headers.push((n, v));
        assert(pair_views(headers@) =~= pair_views(before).push((n@, v@)));
        assert(cs.take(i + 1) =~= cs.take(i as int).push(cs[i as int]));
        i = i + 1;
    }
    assert(cs.take(custom_headers@.len() as int) =~= cs);
    assert(pair_views(headers@) =~= panel_headers(*state, cs));
    RestClientRequest {
        method: state.method.clone(),
        url: state.url.clone(),
        headers,
        body: state.body.clone(),
    }
}

} // verus!
