//! The request explorer of a project: the list of requests it shows, read
//! from the store, and what creating, renaming, duplicating and deleting a
//! request do to that list and to the store.
use vstd::prelude::*;

use crate::decimal::{parse_i32, parse_i32_spec};
use crate::local_store::{copied, value_or, LocalStore};
use crate::rest_client::model::request_info::{RequestCommand, RequestInfo};
use crate::rest_client::util::request_store::{
    copy_stored_request, delete_stored_request, field_name, generate_request_id, get_stored_requests_ids,
    get_stored_value, ids_below_max, ids_text, next_id, request_copy_pairs, request_field_key_set,
    request_stored_key, requests_ids_key, set_stored_requests_ids, set_stored_value, stored_ids, RequestFieldKind,
    all_fields, lemma_ids_key_not_field_key,
};
use crate::text::{extend_str, lowercase_of, owned, same_text, string_of, to_lowercase, trim, trim_chars, chars_of};

verus! {

/// The number a project text stands for: its value as an `i32`, or 0.
pub open spec fn project_number(project: Seq<char>) -> int {
    match parse_i32_spec(project) {
        Some(v) => v,
        None => 0,
    }
}

/// The number a project text stands for: its value as an `i32`, or 0.
pub fn project_number_of(project: &str) -> (r: i32)
    ensures
        r == project_number(project@),
{
    match parse_i32(project) {
        Some(v) => v,
        None => 0,
    }
}

/// The ids of a list of requests, in order.
pub open spec fn request_ids(rs: Seq<RequestInfo>) -> Seq<i32> {
    rs.map_values(|r: RequestInfo| r.id)
}

/// The ids of a list of requests, in order.
pub fn ids_of(requests: &Vec<RequestInfo>) -> (r: Vec<i32>)
    ensures
        r@ == request_ids(requests@),
{
    let mut r: Vec<i32> = Vec::new();
    let mut i: usize = 0;
    while i < requests.len()
        invariant
            i <= requests@.len(),
            r@ == request_ids(requests@).take(i as int),
        decreases requests@.len() - i,
    {
        r.push(requests[i].id);
        assert(r@ =~= request_ids(requests@).take(i + 1));
        i = i + 1;
    }
    assert(request_ids(requests@).take(requests@.len() as int) =~= request_ids(requests@));
    r
}

/// The stored text of a field of a request, or empty text.
pub open spec fn stored_field(m: Map<Seq<char>, Seq<char>>, project: Seq<char>, id: int, field: RequestFieldKind) -> Seq<char> {
    value_or(m, request_stored_key(project, id, field_name(field)), Seq::empty())
}

/// The requests of `project_id` as the explorer lists them: one per stored
/// id, in order, with its stored url, name and method.
pub fn load_requests(store: &LocalStore, project_id: &str) -> (r: Vec<RequestInfo>)
    requires
        store.wf(),
        stored_ids(store@, project_id@) is Some,
    ensures
        request_ids(r@) == stored_ids(store@, project_id@)->0,
        forall|i: int|
            0 <= i < r@.len() ==> {
                &&& (#[trigger] r@[i]).project_id == project_number(project_id@)
                &&& r@[i].url@ == stored_field(store@, project_id@, r@[i].id as int, RequestFieldKind::Url)
                &&& r@[i].name@ == stored_field(store@, project_id@, r@[i].id as int, RequestFieldKind::Name)
                &&& r@[i].method@ == stored_field(store@, project_id@, r@[i].id as int, RequestFieldKind::Method)
                &&& r@[i].command == RequestCommand::Idle
            },
{
    let ids = get_stored_requests_ids(store, project_id);
    let number = project_number_of(project_id);
    let mut r: Vec<RequestInfo> = Vec::new();
    let mut i: usize = 0;
    while i < ids.len()
        invariant
            store.wf(),
            number == project_number(project_id@),
            i <= ids@.len(),
            request_ids(r@) == ids@.take(i as int),
            forall|k: int|
                0 <= k < r@.len() ==> {
                    &&& (#[trigger] r@[k]).project_id == project_number(project_id@)
                    &&& r@[k].url@ == stored_field(store@, project_id@, r@[k].id as int, RequestFieldKind::Url)
                    &&& r@[k].name@ == stored_field(store@, project_id@, r@[k].id as int, RequestFieldKind::Name)
                    &&& r@[k].method@ == stored_field(store@, project_id@, r@[k].id as int, RequestFieldKind::Method)
                    &&& r@[k].command == RequestCommand::Idle
                },
        decreases ids@.len() - i,
    {
        let id = ids[i];
        let url = get_stored_value(store, RequestFieldKind::Url, String::new(), project_id, id);
        let name = get_stored_value(store, RequestFieldKind::Name, String::new(), project_id, id);
        let method = get_stored_value(store, RequestFieldKind::Method, String::new(), project_id, id);
        let ghost before = r@;
        r.push(RequestInfo::new(id, number, url, name, method));
        assert(request_ids(r@) =~= request_ids(before).push(id));
        assert(ids@.take(i + 1) =~= ids@.take(i as int).push(id));
        i = i + 1;
    }
    assert(ids@.take(ids@.len() as int) =~= ids@);
    r
}

/// The headers a new request starts with, as stored: JSON accepted, the
/// browser's language, and this tool as user agent.
pub open spec fn new_request_headers(accept_language: Seq<char>) -> Seq<char> {
    "Accept:application/json\nAccept-Language:"@ + accept_language + "\nUser-Agent:WebDevUsefulTools Client"@
}

/// The URL a new request starts with: the test endpoint of this tool's host.
pub open spec fn new_request_url(host: Seq<char>) -> Seq<char> {
    "http://"@ + host + "/test_json"@
}

/// The store after the list of request ids of a project is written (an empty
/// list removes it).
pub open spec fn with_ids(m: Map<Seq<char>, Seq<char>>, project: Seq<char>, ids: Seq<i32>) -> Map<Seq<char>, Seq<char>> {
    if ids.len() > 0 {
        m.insert(requests_ids_key(project), ids_text(ids))
    } else {
        m.remove(requests_ids_key(project))
    }
}

/// The list of ids written for a project reads back as that list.
pub proof fn lemma_with_ids_read_back(m: Map<Seq<char>, Seq<char>>, project: Seq<char>, ids: Seq<i32>)
    ensures
        stored_ids(with_ids(m, project, ids), project) == Some(ids),
{
    crate::rest_client::util::request_store::lemma_ids_round_trip(ids);
    if ids.len() == 0 {
        assert(ids =~= Seq::<i32>::empty());
    }
}

/// Writing a field of a request leaves the project's list of ids as it was.
pub proof fn lemma_field_write_keeps_ids(m: Map<Seq<char>, Seq<char>>, project: Seq<char>, id: i32, f: RequestFieldKind, v: Seq<char>)
    ensures
        stored_ids(m.insert(request_stored_key(project, id as int, field_name(f)), v), project) == stored_ids(m, project),
{
    lemma_ids_key_not_field_key(project, id, f);
}

/// Writes the ids of the listed requests to the store.
fn store_ids(store: &mut LocalStore, project_id: &str, requests: &Vec<RequestInfo>)
    requires
        old(store).wf(),
    ensures
        final(store).wf(),
        final(store)@ == with_ids(old(store)@, project_id@, request_ids(requests@)),
{
    let ids = ids_of(requests);
    set_stored_requests_ids(store, project_id, ids.as_slice());
}

/// Creates a request in the explorer: the next free id by the stored list,
/// a `GET` of the test endpoint of `host`, no name. It is appended to the
/// list, the list's ids are stored, and so are its url, method and the
/// starting headers.
pub fn create_request(
    requests: &mut Vec<RequestInfo>,
    store: &mut LocalStore,
    project_id: &str,
    host: &str,
    accept_language: &str,
) -> (r: RequestInfo)
    requires
        old(store).wf(),
        stored_ids(old(store)@, project_id@) matches Some(ids) && ids_below_max(ids),
    ensures
        r.id == next_id(stored_ids(old(store)@, project_id@)->0),
        r.project_id == project_number(project_id@),
        r.url@ == new_request_url(host@),
        r.name@.len() == 0,
        r.method@ == "GET"@,
        r.command == RequestCommand::Idle,
        final(requests)@ == old(requests)@.push(r),
        final(store).wf(),
        r.id != 0 ==> final(store)@ == with_ids(old(store)@, project_id@, request_ids(final(requests)@)).insert(
            request_stored_key(project_id@, r.id as int, field_name(RequestFieldKind::Url)),
            new_request_url(host@),
        ).insert(request_stored_key(project_id@, r.id as int, field_name(RequestFieldKind::Method)), "GET"@).insert(
            request_stored_key(project_id@, r.id as int, field_name(RequestFieldKind::Headers)),
            new_request_headers(accept_language@),
        ),
        r.id == 0 ==> final(store)@ == with_ids(old(store)@, project_id@, request_ids(final(requests)@)),
        stored_ids(final(store)@, project_id@) == Some(request_ids(final(requests)@)),
{
    let id = generate_request_id(store, project_id);
    let mut url_chars: Vec<char> = Vec::new();
    extend_str(&mut url_chars, "http://");
    extend_str(&mut url_chars, host);
    extend_str(&mut url_chars, "/test_json");
    let url = string_of(url_chars.as_slice());
    assert(url@ =~= new_request_url(host@));
    let request = RequestInfo::new(id, project_number_of(project_id), url, String::new(), owned("GET"));
    requests.push(request.clone());
    store_ids(store, project_id, requests);
    set_stored_value(store, project_id, request.id, RequestFieldKind::Url, request.url.clone());
    set_stored_value(store, project_id, request.id, RequestFieldKind::Method, request.method.clone());
    let mut headers: Vec<char> = Vec::new();
    extend_str(&mut headers, "Accept:application/json\nAccept-Language:");
    extend_str(&mut headers, accept_language);
    extend_str(&mut headers, "\nUser-Agent:WebDevUsefulTools Client");
    assert(headers@ =~= new_request_headers(accept_language@));
    set_stored_value(store, project_id, request.id, RequestFieldKind::Headers, string_of(headers.as_slice()));
    proof {
        let ids = request_ids(requests@);
        let m0 = with_ids(old(store)@, project_id@, ids);
        lemma_with_ids_read_back(old(store)@, project_id@, ids);
        if request.id != 0 {
            let m1 = m0.insert(request_stored_key(project_id@, request.id as int, field_name(RequestFieldKind::Url)), new_request_url(host@));
            let m2 = m1.insert(request_stored_key(project_id@, request.id as int, field_name(RequestFieldKind::Method)), "GET"@);
            lemma_field_write_keeps_ids(m0, project_id@, request.id, RequestFieldKind::Url, new_request_url(host@));
            lemma_field_write_keeps_ids(m1, project_id@, request.id, RequestFieldKind::Method, "GET"@);
            lemma_field_write_keeps_ids(m2, project_id@, request.id, RequestFieldKind::Headers, new_request_headers(accept_language@));
        }
    }
    request
}

/// Deletes a request from the explorer: it leaves the list, the remaining
/// ids are stored, and its fields are removed from the store.
pub fn delete_request_entry(requests: &mut Vec<RequestInfo>, store: &mut LocalStore, project_id: &str, request_id: i32)
    requires
        old(store).wf(),
    ensures
        final(requests)@ == old(requests)@.filter(|x: RequestInfo| x.id != request_id),
        final(store).wf(),
        final(store)@ == with_ids(old(store)@, project_id@, request_ids(final(requests)@)).remove_keys(
            request_field_key_set(project_id@, request_id as int),
        ),
        stored_ids(final(store)@, project_id@) == Some(request_ids(final(requests)@)),
{
    let ghost start = requests@;
    let mut kept: Vec<RequestInfo> = Vec::new();
    assert(start.take(0).filter(|x: RequestInfo| x.id != request_id) =~= Seq::<RequestInfo>::empty()) by {
        reveal(Seq::filter);
    }
    let mut i: usize = 0;
    while i < requests.len()
        invariant
            start == requests@,
            i <= requests@.len(),
            kept@ == start.take(i as int).filter(|x: RequestInfo| x.id != request_id),
        decreases requests@.len() - i,
    {
        assert(start.take(i + 1).drop_last() =~= start.take(i as int));
        assert(start.take(i + 1).last() == start[i as int]);
        let ghost before = kept@;
        if requests[i].id != request_id {
            kept.push(requests[i].clone());
            assert(kept@ == before.push(start[i as int]));
        }
        reveal(Seq::filter);
        assert(start.take(i + 1).filter(|x: RequestInfo| x.id != request_id) == if start[i as int].id != request_id {
            start.take(i as int).filter(|x: RequestInfo| x.id != request_id).push(start[i as int])
        } else {
            start.take(i as int).filter(|x: RequestInfo| x.id != request_id)
        });
        i = i + 1;
    }
    assert(start.take(start.len() as int) =~= start);
    *requests = kept;
    store_ids(store, project_id, requests);
    delete_stored_request(store, project_id, request_id);
    proof {
        let key = requests_ids_key(project_id@);
        lemma_with_ids_read_back(old(store)@, project_id@, request_ids(requests@));
        if request_field_key_set(project_id@, request_id as int).contains(key) {
            let t = choose|t: int|
                0 <= t < all_fields().len() && key == request_stored_key(project_id@, request_id as int, field_name(#[trigger] all_fields()[t]));
            lemma_ids_key_not_field_key(project_id@, request_id, all_fields()[t]);
        }
    }
}

/// Deletes the fields of every listed request from the store; before each,
/// the list's ids are written again (so the list itself stays stored).
pub fn delete_project_requests(requests: &Vec<RequestInfo>, store: &mut LocalStore, project_id: &str)
    requires
        old(store).wf(),
    ensures
        final(store).wf(),
        requests@.len() == 0 ==> final(store)@ == old(store)@,
        requests@.len() > 0 ==> final(store)@ == with_ids(old(store)@, project_id@, request_ids(requests@)).remove_keys(
            Set::new(
                |k: Seq<char>|
                    exists|j: int| 0 <= j < requests@.len() && #[trigger] request_field_key_set(project_id@, requests@[j].id as int).contains(k),
            ),
        ),
{
    let ghost start = store@;
    let ghost ids = request_ids(requests@);
    let mut i: usize = 0;
    while i < requests.len()
        invariant
            store.wf(),
            ids == request_ids(requests@),
            i <= requests@.len(),
            i == 0 ==> store@ == start,
            i > 0 ==> store@ == with_ids(start, project_id@, ids).remove_keys(
                Set::new(
                    |k: Seq<char>|
                        exists|j: int| 0 <= j < i && #[trigger] request_field_key_set(project_id@, requests@[j].id as int).contains(k),
                ),
            ),
        decreases requests@.len() - i,
    {
        let ghost before = store@;
        store_ids(store, project_id, requests);
        delete_stored_request(store, project_id, requests[i].id);
        proof {
            let key = requests_ids_key(project_id@);
            let del_prev = Set::new(
                |k: Seq<char>|
                    exists|j: int| 0 <= j < i && #[trigger] request_field_key_set(project_id@, requests@[j].id as int).contains(k),
            );
            let del_next = Set::new(
                |k: Seq<char>|
                    exists|j: int| 0 <= j < i + 1 && #[trigger] request_field_key_set(project_id@, requests@[j].id as int).contains(k),
            );
            assert(ids.len() > 0);
            assert forall|j: int| 0 <= j < requests@.len() implies !(#[trigger] request_field_key_set(project_id@, requests@[j].id as int)).contains(key) by {
                if request_field_key_set(project_id@, requests@[j].id as int).contains(key) {
                    let t = choose|t: int|
                        0 <= t < all_fields().len() && key == request_stored_key(project_id@, requests@[j].id as int, field_name(#[trigger] all_fields()[t]));
                    lemma_ids_key_not_field_key(project_id@, requests@[j].id, all_fields()[t]);
                }
            }
            assert(!del_prev.contains(key));
            assert(!del_next.contains(key));
            assert forall|k: Seq<char>| del_next.contains(k) <==> (del_prev.contains(k) || request_field_key_set(project_id@, requests@[i as int].id as int).contains(k)) by {
                if del_next.contains(k) {
                    let j = choose|j: int| 0 <= j < i + 1 && #[trigger] request_field_key_set(project_id@, requests@[j].id as int).contains(k);
                    if j < i {
                        assert(del_prev.contains(k));
                    }
                }
            }
            if i > 0 {
                // the ids key is never a field key of a request, so it survives the deletes
                assert(store@ =~= with_ids(start, project_id@, ids).remove_keys(del_next));
            } else {
                assert(store@ =~= with_ids(start, project_id@, ids).remove_keys(del_next));
            }
        }
        i = i + 1;
    }
}

/// No id occurs twice.
pub open spec fn ids_distinct(ids: Seq<i32>) -> bool {
    forall|a: int, b: int| 0 <= a < b < ids.len() ==> ids[a] != ids[b]
}

/// A request created (or duplicated) in an explorer whose list agrees with
/// the stored list keeps the listed ids distinct: the new id is above every
/// listed one.
pub proof fn lemma_new_id_keeps_ids_distinct(ids: Seq<i32>)
    requires
        ids_distinct(ids),
        ids_below_max(ids),
    ensures
        next_id(ids) <= i32::MAX,
        ids_distinct(ids.push(next_id(ids) as i32)),
{
    if ids.len() > 0 {
        crate::rest_client::util::request_store::lemma_max_id_bounds(ids);
        let w = choose|k: int| 0 <= k < ids.len() && ids[k] == crate::rest_client::util::request_store::max_id(ids);
        assert(ids[w] < i32::MAX);
    }
    let n = ids.push(next_id(ids) as i32);
    assert forall|a: int, b: int| 0 <= a < b < n.len() implies n[a] != n[b] by {
        if b == ids.len() {
            assert(n[a] == ids[a]);
        } else {
            assert(n[a] == ids[a] && n[b] == ids[b]);
        }
    }
}

} // verus!
