//! The response shown for the selected request, and how it is kept in the
//! store when the request asks for its response to be saved.
use vstd::prelude::*;

use crate::local_store::{value_or, LocalStore};
use crate::model::restclient::rest_client_response::RestClientResponse;
use crate::rest_client::util::request_store::{
    delete_stored_value, field_name, get_stored_value, request_stored_key, set_stored_value, RequestFieldKind,
};

verus! {

/// The response of the selected request, if there is one.
#[derive(Debug)]
pub struct RequestResponse {
    pub inner: Option<RestClientResponse>,
}

impl RequestResponse {
    /// No response.
    pub fn new() -> (r: Self)
        ensures
            r.inner is None,
    {
        RequestResponse { inner: None }
    }

    /// Forgets the response.
    pub fn clear(&mut self)
        ensures
            final(self).inner is None,
    {
        self.inner = None;
    }
}

/// Keeps or drops the saved response after the response changed: with saving
/// on and a response (as its JSON text), it is stored for the selected
/// request; otherwise the stored one is removed.
pub fn update_saved_response(
    store: &mut LocalStore,
    project_id: &str,
    request_id: i32,
    save_response: bool,
    response_json: Option<String>,
)
    requires
        old(store).wf(),
    ensures
        final(store).wf(),
        save_response && response_json is Some && request_id != 0 ==> final(store)@ == old(store)@.insert(
            request_stored_key(project_id@, request_id as int, field_name(RequestFieldKind::SaveResponseData)),
            response_json->0@,
        ),
        save_response && response_json is Some && request_id == 0 ==> final(store)@ == old(store)@,
        !(save_response && response_json is Some) ==> final(store)@ == old(store)@.remove(
            request_stored_key(project_id@, request_id as int, field_name(RequestFieldKind::SaveResponseData)),
        ),
{
    match response_json {
        Some(json) if save_response => set_stored_value(store, project_id, request_id, RequestFieldKind::SaveResponseData, json),
        _ => delete_stored_value(store, project_id, request_id, RequestFieldKind::SaveResponseData),
    }
}

/// The saved response text of a request, when one is stored and not empty.
pub fn saved_response_text(store: &LocalStore, project_id: &str, request_id: i32) -> (r: Option<String>)
    requires
        store.wf(),
    ensures
        ({
            let v = value_or(
                store@,
                request_stored_key(project_id@, request_id as int, field_name(RequestFieldKind::SaveResponseData)),
                Seq::empty(),
            );
            &&& v.len() == 0 ==> r is None
            &&& v.len() > 0 ==> (r matches Some(t) && t@ == v)
        }),
{
    let text = get_stored_value(store, RequestFieldKind::SaveResponseData, String::new(), project_id, request_id);
    if text.as_str().is_empty() {
        None
    } else {
        Some(text)
    }
}

} // verus!
