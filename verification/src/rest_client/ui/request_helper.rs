//! Store keys of requests and projects, where project `0` counts as "no
//! project", and reading stored flags.
use vstd::prelude::*;

use crate::rest_client::util::request_store::{
    build_project_stored_key, build_request_stored_key, project_stored_key, request_key_with,
    request_stored_key, is_default_project,
};
use crate::local_store::{value_or, LocalStore};
use crate::rest_client::ui::{lemma_request_keys_set, owned_key_set, request_keys, request_value_names};
use crate::rest_client::util::request_store::{
    get_stored_requests_ids, ids_below_max, next_id, next_request_id, requests_ids_key, set_stored_requests_ids,
    ids_text, stored_ids,
};

verus! {

/// The store key of the value `name` of request `request_id` in `project_id`.
pub fn build_rc_req_store_key(project_id: &str, request_id: i32, name: &str) -> (r: String)
    ensures
        r@ == request_stored_key(project_id@, request_id as int, name@),
{
    build_request_stored_key(project_id, request_id, name)
}

/// The store key of the project-wide value `name`.
pub fn build_rc_store_key(project_id: &str, name: &str) -> (r: String)
    ensures
        r@ == project_stored_key(project_id@, name@),
{
    build_project_stored_key(project_id, name)
}

/// The keys that `delete_request` removes for a request.
pub fn delete_request_keys(project_id: &str, request_id: i32) -> (r: Vec<String>)
    ensures
        r@.len() == request_value_names().len(),
        forall|i: int|
            0 <= i < r@.len() ==> (#[trigger] r@[i])@ == request_stored_key(
                project_id@,
                request_id as int,
                request_value_names()[i],
            ),
{
    request_keys(project_id, request_id, true)
}

/// A stored flag reads as set only when it is exactly `true` (what
/// `str::parse::<bool>` accepts as `true`; anything it rejects counts as unset).
pub fn stored_flag(value: &str) -> (r: bool)
    ensures
        r == (value@ == "true"@),
{
    crate::text::same_text(value, "true")
}

/// The text a flag is stored as, as `bool`'s `Display` writes it.
pub fn flag_text(flag: bool) -> (r: &'static str)
    ensures
        r@ == (if flag {
            "true"@
        } else {
            "false"@
        }),
{
    if flag {
        "true"
    } else {
        "false"
    }
}


/// Writes the list of request ids of `project_id`; an empty list removes the
/// stored value.
pub fn save_requests_ids(store: &mut LocalStore, project_id: &str, ids: &[i32])
    requires
        old(store).wf(),
    ensures
        final(store).wf(),
        ids@.len() > 0 ==> final(store)@ == old(store)@.insert(requests_ids_key(project_id@), ids_text(ids@)),
        ids@.len() == 0 ==> final(store)@ == old(store)@.remove(requests_ids_key(project_id@)),
        stored_ids(final(store)@, project_id@) == Some(ids@),
{
    set_stored_requests_ids(store, project_id, ids)
}

/// Removes the values that request `request_id` of `project_id` owns.
pub fn delete_request(store: &mut LocalStore, project_id: &str, request_id: i32)
    requires
        old(store).wf(),
    ensures
        final(store).wf(),
        final(store)@ == old(store)@.remove_keys(
            owned_key_set(!is_default_project(project_id@), project_id@, request_id as int),
        ),
{
    let keys = delete_request_keys(project_id, request_id);
    proof {
        lemma_request_keys_set(keys@, !is_default_project(project_id@), project_id@, request_id as int);
    }
    store.delete_values(keys.as_slice());
}

/// The ids of the requests of `project_id`, as the store lists them.
pub fn load_requests_ids(store: &LocalStore, project_id: &str) -> (r: Vec<i32>)
    requires
        store.wf(),
        stored_ids(store@, project_id@) is Some,
    ensures
        Some(r@) == stored_ids(store@, project_id@),
{
    get_stored_requests_ids(store, project_id)
}

/// The id for a new request of `project_id`: one more than the largest listed
/// id, or 1.
pub fn generate_request_id(store: &LocalStore, project_id: &str) -> (r: i32)
    requires
        store.wf(),
        stored_ids(store@, project_id@) matches Some(ids) && ids_below_max(ids),
    ensures
        r == next_id(stored_ids(store@, project_id@)->0),
        forall|k: int| 0 <= k < stored_ids(store@, project_id@)->0.len() ==> stored_ids(store@, project_id@)->0[k] < r,
{
    let ids = load_requests_ids(store, project_id);
    next_request_id(ids.as_slice())
}

/// The stored value `name` of request `request_id` of `project_id`, or
/// `default`.
pub fn get_stored_value(store: &LocalStore, name: &str, default: String, project_id: &str, request_id: i32) -> (r: String)
    requires
        store.wf(),
    ensures
        r@ == value_or(store@, request_stored_key(project_id@, request_id as int, name@), default@),
{
    let key = build_rc_req_store_key(project_id, request_id, name);
    store.get_value(key.as_str(), default)
}

/// The stored flag `name` of request `request_id` of `project_id`: set only
/// when the stored text (or, with nothing stored, `default` written out) is
/// exactly `true`.
pub fn get_stored_value_as_bool(store: &LocalStore, name: &str, default: bool, project_id: &str, request_id: i32) -> (r: bool)
    requires
        store.wf(),
    ensures
        r == (value_or(
            store@,
            request_stored_key(project_id@, request_id as int, name@),
            if default {
                "true"@
            } else {
                "false"@
            },
        ) == "true"@),
{
    let key = build_rc_req_store_key(project_id, request_id, name);
    let default_text = crate::text::string_of(crate::text::chars_of(flag_text(default)).as_slice());
    let value = store.get_value(key.as_str(), default_text);
    stored_flag(value.as_str())
}

/// Stores `value` as `name` of request `request_id` of `project_id`; request
/// `0` stands for "no request" and leaves the store as it is.
pub fn set_stored_value(store: &mut LocalStore, project_id: &str, request_id: i32, name: &str, value: String)
    requires
        old(store).wf(),
    ensures
        final(store).wf(),
        request_id == 0 ==> final(store)@ == old(store)@,
        request_id != 0 ==> final(store)@ == old(store)@.insert(
            request_stored_key(project_id@, request_id as int, name@),
            value@,
        ),
{
    if request_id == 0 {
        return;
    }
    let key = build_rc_req_store_key(project_id, request_id, name);
    store.set_value(key.as_str(), value)
}

/// Removes `name` of request `request_id` of `project_id` from the store.
pub fn delete_stored_value(store: &mut LocalStore, project_id: &str, request_id: i32, name: &str)
    requires
        old(store).wf(),
    ensures
        final(store).wf(),
        final(store)@ == old(store)@.remove(request_stored_key(project_id@, request_id as int, name@)),
{
    let key = build_rc_req_store_key(project_id, request_id, name);
    store.delete_value(key.as_str())
}

} // verus!
