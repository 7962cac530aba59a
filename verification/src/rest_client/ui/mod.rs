//! Helpers of the request explorer and panels: store keys of requests and
//! projects (without a default project), and the keys a request owns.
pub mod request_helper;
pub mod request_params;
pub mod request_result_panel;
pub mod request_result_previewer;
pub mod rest_client_explorer;
pub mod rest_client_explorer_row;
pub mod rest_client_project_selector;
pub mod request_params_url;
pub mod request_params_panel;
pub mod request_cookies_panel;
pub mod request_query_panel;
pub mod request_panel;
pub mod request_raw_panel;
pub mod request_result_attachment;
pub mod request_headers_panel;
pub mod request_body_form_panel;

use vstd::prelude::*;

use crate::local_store::{key_set, LocalStore};
use crate::rest_client::util::request_store::{
    build_project_stored_key, get_stored_requests_ids, ids_below_max, ids_text, join_ids, lemma_ids_round_trip,
    next_id, next_request_id, project_stored_key, request_key, request_key_with, requests_ids_key, stored_ids,
};

verus! {

/// The store key of the value `name` of request `request_id`; the project
/// goes in front unless it is empty.
pub fn build_rc_req_store_key(project_id: &str, request_id: i32, name: &str) -> (r: String)
    ensures
        r@ == request_key_with(project_id@.len() > 0, project_id@, request_id as int, name@),
{
    request_key(!project_id.is_empty(), project_id, request_id, name)
}

/// The store key of the project-wide value `name`.
pub fn build_rc_store_key(project_id: &str, name: &str) -> (r: String)
    ensures
        r@ == project_stored_key(project_id@, name@),
{
    build_project_stored_key(project_id, name)
}

/// The names of the values that a request owns in the store, in the order in
/// which they are removed.
pub open spec fn request_value_names() -> Seq<Seq<char>> {
    seq![
        "url"@,
        "name"@,
        "method"@,
        "body"@,
        "headers"@,
        "insecure"@,
        "save_response"@,
        "body_type"@,
        "body_formencoded"@,
        "formencoded"@,
        "save_response_data"@,
        "headers_height"@,
    ]
}

/// The names of the values that a request owns in the store.
pub fn request_value_name_list() -> (r: Vec<&'static str>)
    ensures
        r@.len() == request_value_names().len(),
        forall|i: int| 0 <= i < r@.len() ==> (#[trigger] r@[i])@ == request_value_names()[i],
{
    let r = vec![
        "url",
        "name",
        "method",
        "body",
        "headers",
        "insecure",
        "save_response",
        "body_type",
        "body_formencoded",
        "formencoded",
        "save_response_data",
        "headers_height",
    ];
    r
}

/// The keys that deleting a request removes, one per owned value, built with
/// `key_of`'s layout: `with_zero_default` chooses whether project `0` counts
/// as "no project".
pub fn request_keys(project_id: &str, request_id: i32, with_zero_default: bool) -> (r: Vec<String>)
    ensures
        r@.len() == request_value_names().len(),
        forall|i: int|
            0 <= i < r@.len() ==> (#[trigger] r@[i])@ == request_key_with(
                if with_zero_default {
                    !crate::rest_client::util::request_store::is_default_project(project_id@)
                } else {
                    project_id@.len() > 0
                },
                project_id@,
                request_id as int,
                request_value_names()[i],
            ),
{
    let with_project = if with_zero_default {
        !crate::rest_client::util::request_store::default_project(project_id)
    } else {
        !project_id.is_empty()
    };
    let names = request_value_name_list();
    let mut r: Vec<String> = Vec::new();
    let mut i: usize = 0;
    while i < names.len()
        invariant
            names@.len() == request_value_names().len(),
            forall|j: int| 0 <= j < names@.len() ==> (#[trigger] names@[j])@ == request_value_names()[j],
            i <= names@.len(),
            r@.len() == i,
            forall|j: int|
                0 <= j < i ==> (#[trigger] r@[j])@ == request_key_with(
                    with_project,
                    project_id@,
                    request_id as int,
                    request_value_names()[j],
                ),
        decreases names@.len() - i,
    {
        r.push(request_key(with_project, project_id, request_id, names[i]));
        i = i + 1;
    }
    r
}

/// The keys that `delete_request` removes for a request.
pub fn delete_request_keys(project_id: &str, request_id: i32) -> (r: Vec<String>)
    ensures
        r@.len() == request_value_names().len(),
        forall|i: int|
            0 <= i < r@.len() ==> (#[trigger] r@[i])@ == request_key_with(
                project_id@.len() > 0,
                project_id@,
                request_id as int,
                request_value_names()[i],
            ),
{
    request_keys(project_id, request_id, false)
}


/// The keys of the values that request `id` owns, with or without the
/// project in front.
pub open spec fn owned_key_set(with_project: bool, project: Seq<char>, id: int) -> Set<Seq<char>> {
    Set::new(
        |k: Seq<char>|
            exists|i: int|
                0 <= i < request_value_names().len() && k == request_key_with(
                    with_project,
                    project,
                    id,
                    #[trigger] request_value_names()[i],
                ),
    )
}

/// Removing the keys `request_keys` lists removes the owned key set.
pub proof fn lemma_request_keys_set(keys: Seq<String>, with_project: bool, project: Seq<char>, id: int)
    requires
        keys.len() == request_value_names().len(),
        forall|i: int|
            0 <= i < keys.len() ==> (#[trigger] keys[i])@ == request_key_with(with_project, project, id, request_value_names()[i]),
    ensures
        key_set(keys) == owned_key_set(with_project, project, id),
{
    assert forall|k: Seq<char>| key_set(keys).contains(k) <==> owned_key_set(with_project, project, id).contains(k) by {
        if key_set(keys).contains(k) {
            let i = choose|i: int| 0 <= i < keys.len() && (#[trigger] keys[i])@ == k;
            assert(k == request_key_with(with_project, project, id, request_value_names()[i]));
        }
        if owned_key_set(with_project, project, id).contains(k) {
            let i = choose|i: int|
                0 <= i < request_value_names().len() && k == request_key_with(
                    with_project,
                    project,
                    id,
                    #[trigger] request_value_names()[i],
                );
            assert(keys[i]@ == k);
        }
    }
    assert(key_set(keys) =~= owned_key_set(with_project, project, id));
}

/// Writes the list of request ids of `project_id` (an empty list as empty
/// text).
pub fn save_requests_ids(store: &mut LocalStore, project_id: &str, ids: &[i32])
    requires
        old(store).wf(),
    ensures
        final(store).wf(),
        final(store)@ == old(store)@.insert(requests_ids_key(project_id@), ids_text(ids@)),
        stored_ids(final(store)@, project_id@) == Some(ids@),
{
    let key = build_rc_store_key(project_id, "requests_ids");
    proof {
        reveal_strlit("requests_ids");
        lemma_ids_round_trip(ids@);
    }
    store.set_value(key.as_str(), join_ids(ids));
}

/// Removes the values that request `request_id` of `project_id` owns.
pub fn delete_request(store: &mut LocalStore, project_id: &str, request_id: i32)
    requires
        old(store).wf(),
    ensures
        final(store).wf(),
        final(store)@ == old(store)@.remove_keys(owned_key_set(project_id@.len() > 0, project_id@, request_id as int)),
{
    let keys = delete_request_keys(project_id, request_id);
    proof {
        lemma_request_keys_set(keys@, project_id@.len() > 0, project_id@, request_id as int);
    }
    store.delete_values(keys.as_slice());
}

/// The ids of the requests of `project_id`, as the store lists them.
pub fn load_requests_ids(store: &LocalStore, project_id: &str) -> (r: Vec<i32>)
    requires
        store.wf(),
        stored_ids(store@, project_id@) is Some,
    ensures
        Some(r@) == stored_ids(store@, project_id@),
{
    get_stored_requests_ids(store, project_id)
}

/// The id for a new request of `project_id`: one more than the largest listed
/// id, or 1.
pub fn generate_request_id(store: &LocalStore, project_id: &str) -> (r: i32)
    requires
        store.wf(),
        stored_ids(store@, project_id@) matches Some(ids) && ids_below_max(ids),
    ensures
        r == next_id(stored_ids(store@, project_id@)->0),
        forall|k: int| 0 <= k < stored_ids(store@, project_id@)->0.len() ==> stored_ids(store@, project_id@)->0[k] < r,
{
    let ids = load_requests_ids(store, project_id);
    next_request_id(ids.as_slice())
}

} // verus!
