//! Everything the request panel edits about a request, as plain values, and
//! what is sent for it: its headers and its body.
use vstd::prelude::*;

use crate::decimal::{parse_usize, parse_usize_spec};
use crate::rest_client::model::request_body_form::{pairs_of as form_pairs, RequestBodyFormValues};
use crate::rest_client::model::request_body_kind::{content_type_of, kind_named, RequestBodyKind};
use crate::rest_client::model::request_header::{content_type_value, pairs_of, RequestHeaders};
use crate::rest_client::util::rest_client_utils::{collected, urlencoded_of};
use crate::local_store::{value_or, LocalStore};
use crate::rest_client::model::request_body_form::stored_form_pairs;
use crate::rest_client::model::request_header::stored_headers;
use crate::rest_client::util::request_store::{field_key, field_name, get_stored_value, request_stored_key, RequestFieldKind};
use crate::text::{chars_of, owned, same_text, string_of};

pub use crate::rest_client::model::request_info::{RequestCommand, RequestInfo};
pub use crate::rest_client::ui::request_params::RestClientProject;

verus! {

/// The editable state of a request.
#[derive(Debug)]
pub struct RequestParams {
    pub url: String,
    pub method: String,
    pub params_tab_selected: usize,
    pub body: String,
    pub body_type: RequestBodyKind,
    pub body_formencoded: RequestBodyFormValues,
    pub headers: RequestHeaders,
    pub save_response: bool,
    pub formatting: bool,
}

/// The method sends a body when it is `POST` or `PUT`.
pub open spec fn sends_body(method: Seq<char>) -> bool {
    method == "POST"@ || method == "PUT"@
}

/// A `Content-Type` header is added for the body's kind when the method sends
/// a body, the body is not empty and no header gives a content type.
pub open spec fn adds_content_type(p: RequestParams) -> bool {
    sends_body(p.method@) && p.body@.len() > 0 && content_type_value(pairs_of(p.headers@)) is None
}

/// The headers sent with a request: the added `Content-Type`, if any, then the
/// request's own headers in order.
pub open spec fn sent_headers(p: RequestParams) -> Seq<(Seq<char>, Seq<char>)> {
    let own = pairs_of(p.headers@);
    if adds_content_type(p) {
        seq![("Content-Type"@, content_type_of(p.body_type))] + own
    } else {
        own
    }
}

/// The body sent with a request: the form values urlencoded for a form body
/// (or the encoder's error), the body text otherwise.
pub open spec fn sent_body(p: RequestParams) -> Result<Seq<char>, Seq<char>> {
    match p.body_type {
        RequestBodyKind::Formencoded => urlencoded_of(collected(form_pairs(p.body_formencoded@))),
        _ => Ok(p.body@),
    }
}

/// What `str::parse::<bool>` accepts as `true`.
pub open spec fn flag_of(s: Seq<char>) -> bool {
    s == "true"@
}

impl RequestParams {
    /// An empty request: no url, method, body, form values or headers; a text
    /// body; the first tab; responses neither saved nor formatted.
    pub fn new() -> (r: Self)
        ensures
            r.url@ == Seq::<char>::empty(),
            r.method@ == Seq::<char>::empty(),
            r.params_tab_selected == 0,
            r.body@ == Seq::<char>::empty(),
            r.body_type == RequestBodyKind::Text,
            r.body_formencoded@.len() == 0,
            r.headers@.len() == 0,
            !r.save_response,
            !r.formatting,
    {
        Self {
            url: String::new(),
            method: String::new(),
            params_tab_selected: 0,
            body: String::new(),
            body_type: RequestBodyKind::Text,
            body_formencoded: RequestBodyFormValues::new(),
            headers: RequestHeaders::new(),
            save_response: false,
            formatting: false,
        }
    }

    /// The value of the first header named `content-type` (any case).
    pub fn content_type(&self) -> (r: Option<String>)
        ensures
            (match r {
                Some(v) => Some(v@),
                None => None,
            }) == content_type_value(pairs_of(self.headers@)),
    {
        self.headers.content_type()
    }

    /// Whether a `Content-Type` header is added for the body's kind.
    pub fn adds_content_type(&self) -> (r: bool)
        ensures
            r == adds_content_type(*self),
    {
        (same_text(self.method.as_str(), "POST") || same_text(self.method.as_str(), "PUT"))
            && !self.body.as_str().is_empty() && self.content_type().is_none()
    }

    /// The headers sent with the request.
    pub fn request_headers(&self) -> (r: Vec<(String, String)>)
        ensures
            r@.map_values(|p: (String, String)| (p.0@, p.1@)) == sent_headers(*self),
    {
        let mut headers: Vec<(String, String)> = Vec::new();
        let add = self.adds_content_type();
        if add {
            let name = string_of(chars_of("Content-Type").as_slice());
            let value = string_of(chars_of(self.body_type.content_type()).as_slice());
            headers.push((name, value));
        }
        let ghost pre = headers@.map_values(|p: (String, String)| (p.0@, p.1@));
        let own = self.headers.iter();
        let ghost ov = own@.map_values(|h: crate::rest_client::model::request_header::RequestHeader| h@);
        let mut i: usize = 0;
        while i < own.len()
            invariant
                ov == own@.map_values(|h: crate::rest_client::model::request_header::RequestHeader| h@),
                ov == self.headers@,
                i <= own@.len(),
                headers@.map_values(|p: (String, String)| (p.0@, p.1@)) == pre + pairs_of(
                    ov,
                ).take(i as int),
            decreases own@.len() - i,
        {
            let ghost before = headers@.map_values(|p: (String, String)| (p.0@, p.1@));
            let n = own[i].name.clone();
            let v = own[i].value.clone();
            headers.push((n, v));
            assert(ov[i as int] == own@[i as int]@);
            assert(headers@.map_values(|p: (String, String)| (p.0@, p.1@)) =~= before.push(
                (n@, v@),
            ));
            assert(pairs_of(ov).take(i + 1) =~= pairs_of(ov).take(i as int).push((n@, v@)));
            i = i + 1;
        }
        assert(pairs_of(ov).take(own@.len() as int) =~= pairs_of(ov));
        proof {
            if add {
                assert(pre =~= seq![("Content-Type"@, content_type_of(self.body_type))]);
            } else {
                assert(pre =~= Seq::<(Seq<char>, Seq<char>)>::empty());
            }
        }
        assert(headers@.map_values(|p: (String, String)| (p.0@, p.1@)) =~= sent_headers(*self));
        headers
    }

    /// The body sent with the request; a form body that cannot be encoded
    /// gives the encoder's error.
    pub fn get_body(&self) -> (r: Result<String, String>)
        ensures
            (match r {
                Ok(s) => Ok(s@),
                Err(m) => Err(m@),
            }) == sent_body(*self),
    {
        match self.body_type {
            RequestBodyKind::Formencoded => self.body_formencoded.to_urlencoded_string(),
            _ => Ok(self.body.clone()),
        }
    }

    /// Sets the fields that are read back from the store from their stored
    /// texts: the tab (0 when it does not read as a number), the body, its kind
    /// (text when unrecognised) and the two flags (set only when `true`).
    pub fn set_stored_fields(
        &mut self,
        params_tab: &str,
        body: String,
        body_type: &str,
        save_response: &str,
        formatting: &str,
    )
        ensures
            final(self).params_tab_selected == (match parse_usize_spec(params_tab@) {
                Some(v) => v as usize,
                None => 0,
            }),
            final(self).body@ == body@,
            final(self).body_type == kind_named(body_type@),
            final(self).save_response == flag_of(save_response@),
            final(self).formatting == flag_of(formatting@),
            final(self).url == old(self).url,
            final(self).method == old(self).method,
            final(self).body_formencoded@ == old(self).body_formencoded@,
            final(self).headers@ == old(self).headers@,
    {
        self.params_tab_selected = match parse_usize(params_tab) {
            Some(v) => v,
            None => 0,
        };
        self.body = body;
        self.body_type = RequestBodyKind::from_name(body_type);
        self.save_response = same_text(save_response, "true");
        self.formatting = same_text(formatting, "true");
    }
}

/// The stored text of a field of a request, or `default`.
pub open spec fn stored_or(m: Map<Seq<char>, Seq<char>>, project: Seq<char>, id: i32, field: RequestFieldKind, default: Seq<char>) -> Seq<char> {
    value_or(m, request_stored_key(project, id as int, field_name(field)), default)
}

impl RequestParams {
    /// Reads the request `request_id` of `project_id` back from the store:
    /// its headers, form values, body, body kind (text when unrecognised) and
    /// formatting flag (off unless `true`; `true` when nothing is stored); the
    /// tab and the saving flag are read for the selected request
    /// `selected_id`. The url and method stay.
    pub fn read_from_store(&mut self, store: &LocalStore, project_id: &str, selected_id: i32, request_id: i32)
        requires
            store.wf(),
        ensures
            pairs_of(final(self).headers@) == stored_headers(stored_or(store@, project_id@, request_id, RequestFieldKind::Headers, Seq::empty())),
            form_pairs(final(self).body_formencoded@) == stored_form_pairs(
                stored_or(store@, project_id@, request_id, RequestFieldKind::BodyFormencoded, Seq::empty()),
            ),
            final(self).params_tab_selected == (match parse_usize_spec(stored_or(store@, project_id@, selected_id, RequestFieldKind::ParamsTab, "0"@)) {
                Some(v) => v as usize,
                None => 0,
            }),
            final(self).body@ == stored_or(store@, project_id@, request_id, RequestFieldKind::Body, Seq::empty()),
            final(self).body_type == kind_named(stored_or(store@, project_id@, request_id, RequestFieldKind::BodyType, Seq::empty())),
            final(self).save_response == flag_of(stored_or(store@, project_id@, selected_id, RequestFieldKind::SaveResponse, "false"@)),
            final(self).formatting == flag_of(stored_or(store@, project_id@, request_id, RequestFieldKind::Formatting, "true"@)),
            final(self).url == old(self).url,
            final(self).method == old(self).method,
    {
        self.headers = RequestHeaders::read_from_store(store, project_id, request_id);
        self.body_formencoded = RequestBodyFormValues::read_from_store(store, project_id, request_id);
        let tab = get_stored_value(store, RequestFieldKind::ParamsTab, owned("0"), project_id, selected_id);
        let body = get_stored_value(store, RequestFieldKind::Body, String::new(), project_id, request_id);
        let body_type = get_stored_value(store, RequestFieldKind::BodyType, String::new(), project_id, request_id);
        let save_response = get_stored_value(store, RequestFieldKind::SaveResponse, owned("false"), project_id, selected_id);
        let formatting = get_stored_value(store, RequestFieldKind::Formatting, owned("true"), project_id, request_id);
        self.set_stored_fields(tab.as_str(), body, body_type.as_str(), save_response.as_str(), formatting.as_str());
    }
}

} // verus!
