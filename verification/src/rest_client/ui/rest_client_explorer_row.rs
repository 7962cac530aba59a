//! A row of the request explorer: its method badge, the commands of its menu,
//! and renaming and duplicating the request it shows.
use vstd::prelude::*;

use crate::local_store::{copied, LocalStore};
use crate::rest_client::model::request_info::{RequestCommand, RequestInfo};
use crate::rest_client::ui::rest_client_explorer::{request_ids, with_ids};
use crate::rest_client::util::request_store::{
    copy_stored_request, field_name, generate_request_id, ids_below_max, next_id, request_copy_pairs,
    request_stored_key, set_stored_requests_ids, set_stored_value, stored_ids, RequestFieldKind,
};
use crate::text::{chars_of, lowercase_of, owned, same_text, string_of, to_lowercase, trim, trim_chars};

verus! {

/// Why a new name is refused.
#[derive(Clone, Copy, Debug, PartialEq, Eq, Structural)]
pub enum NameError {
    /// The name is blank.
    Empty,
    /// Another entry has this name, ignoring case.
    AlreadyExists,
}

/// The badge colour of an HTTP method.
pub fn get_method_color(method: &str) -> (r: &'static str)
    ensures
        r@ == (if method@ == "GET"@ {
            "bg-sky-500/50"@
        } else if method@ == "POST"@ {
            "bg-green-500/50"@
        } else if method@ == "PUT"@ || method@ == "PATCH"@ {
            "bg-green-400/50"@
        } else if method@ == "DELETE"@ {
            "bg-red-500/50"@
        } else if method@ == "HEAD"@ || method@ == "OPTIONS"@ {
            "bg-gray-500/50"@
        } else {
            "bg-sky-500"@
        }),
{
    if same_text(method, "GET") {
        "bg-sky-500/50"
    } else if same_text(method, "POST") {
        "bg-green-500/50"
    } else if same_text(method, "PUT") || same_text(method, "PATCH") {
        "bg-green-400/50"
    } else if same_text(method, "DELETE") {
        "bg-red-500/50"
    } else if same_text(method, "HEAD") || same_text(method, "OPTIONS") {
        "bg-gray-500/50"
    } else {
        "bg-sky-500"
    }
}

/// What a menu item of a row asks for.
#[derive(Clone, Copy, Debug, PartialEq, Eq, Structural)]
pub enum RowAction {
    Command(RequestCommand),
    Rename,
    Duplicate,
    Delete,
    Nothing,
}

/// What the menu item with key `item` asks for.
pub fn row_action(item: &str) -> (r: RowAction)
    ensures
        r == (if item@ == "run"@ {
            RowAction::Command(RequestCommand::Run)
        } else if item@ == "copyCUrl"@ {
            RowAction::Command(RequestCommand::CopyCUrl)
        } else if item@ == "copyCUrlWin"@ {
            RowAction::Command(RequestCommand::CopyCUrlWin)
        } else if item@ == "rename"@ {
            RowAction::Rename
        } else if item@ == "dublicate"@ {
            RowAction::Duplicate
        } else if item@ == "delete"@ {
            RowAction::Delete
        } else {
            RowAction::Nothing
        }),
{
    if same_text(item, "run") {
        RowAction::Command(RequestCommand::Run)
    } else if same_text(item, "copyCUrl") {
        RowAction::Command(RequestCommand::CopyCUrl)
    } else if same_text(item, "copyCUrlWin") {
        RowAction::Command(RequestCommand::CopyCUrlWin)
    } else if same_text(item, "rename") {
        RowAction::Rename
    } else if same_text(item, "dublicate") {
        RowAction::Duplicate
    } else if same_text(item, "delete") {
        RowAction::Delete
    } else {
        RowAction::Nothing
    }
}

/// A name as it is compared: trimmed, then lower-cased.
pub open spec fn compared_name(value: Seq<char>) -> Seq<char> {
    lowercase_of(trim(value))
}

/// A name as it is compared: trimmed, then lower-cased.
pub fn compare_form(value: &str) -> (r: String)
    ensures
        r@ == compared_name(value@),
        r@.len() == 0 <==> trim(value@).len() == 0,
{
    let t = string_of(trim_chars(chars_of(value).as_slice()).as_slice());
    to_lowercase(t.as_str())
}

/// Some request other than `id` has the name `val` (compared in lower case).
pub open spec fn name_taken(rs: Seq<RequestInfo>, id: i32, val: Seq<char>) -> bool {
    exists|j: int| 0 <= j < rs.len() && (#[trigger] rs[j]).id != id && lowercase_of(rs[j].name@) == val
}

/// Some request has the id `id`.
pub open spec fn has_id(rs: Seq<RequestInfo>, id: i32) -> bool {
    exists|j: int| 0 <= j < rs.len() && (#[trigger] rs[j]).id == id
}

/// Renames request `request_id`: refused when the name is blank or another
/// request has it (ignoring case); otherwise every listed request with that id
/// takes the trimmed name, and the name as typed is stored for it.
pub fn rename_request(
    requests: &mut Vec<RequestInfo>,
    store: &mut LocalStore,
    project_id: &str,
    request_id: i32,
    value: &str,
) -> (r: Result<(), NameError>)
    requires
        old(store).wf(),
    ensures
        final(store).wf(),
        r == (if trim(value@).len() == 0 {
            Err(NameError::Empty)
        } else if name_taken(old(requests)@, request_id, compared_name(value@)) {
            Err(NameError::AlreadyExists)
        } else {
            Ok(())
        }),
        r is Err ==> final(requests)@ == old(requests)@ && final(store)@ == old(store)@,
        r is Ok ==> final(requests)@.len() == old(requests)@.len(),
        r is Ok ==> forall|j: int|
            0 <= j < old(requests)@.len() ==> (#[trigger] final(requests)@[j]) == (if old(requests)@[j].id == request_id {
                RequestInfo { name: final(requests)@[j].name, ..old(requests)@[j] }
            } else {
                old(requests)@[j]
            }),
        r is Ok ==> forall|j: int|
            0 <= j < old(requests)@.len() && old(requests)@[j].id == request_id ==> (#[trigger] final(requests)@[j]).name@
                == trim(value@),
        r is Ok && has_id(old(requests)@, request_id) && request_id != 0 ==> final(store)@ == old(store)@.insert(
            request_stored_key(project_id@, request_id as int, field_name(RequestFieldKind::Name)),
            value@,
        ),
        r is Ok && !(has_id(old(requests)@, request_id) && request_id != 0) ==> final(store)@ == old(store)@,
{
    let val = compare_form(value);
    if val.as_str().is_empty() {
        return Err(NameError::Empty);
    }
    let ghost first = requests@;
    let mut i: usize = 0;
    while i < requests.len()
        invariant
            store.wf(),
            requests@ == first,
            val@ == compared_name(value@),
            val@.len() > 0,
            trim(value@).len() > 0,
            i <= requests@.len(),
            forall|j: int| 0 <= j < i ==> !((#[trigger] requests@[j]).id != request_id && lowercase_of(requests@[j].name@) == val@),
        decreases requests@.len() - i,
    {
        if requests[i].id != request_id {
            let lower = to_lowercase(requests[i].name.as_str());
            if same_text(lower.as_str(), val.as_str()) {
                assert(requests@[i as int].id != request_id && lowercase_of(requests@[i as int].name@) == val@);
                return Err(NameError::AlreadyExists);
            }
        }
        i = i + 1;
    }
    let trimmed = string_of(trim_chars(chars_of(value).as_slice()).as_slice());
    let ghost start = requests@;
    let ghost store_start = store@;
    let mut found = false;
    let mut k: usize = 0;
    while k < requests.len()
        invariant
            store.wf(),
            requests@.len() == start.len(),
            k <= start.len(),
            trimmed@ == trim(value@),
            found == has_id(start.take(k as int), request_id),
            forall|j: int|
                0 <= j < start.len() ==> (#[trigger] requests@[j]) == (if j < k && start[j].id == request_id {
                    RequestInfo { name: requests@[j].name, ..start[j] }
                } else {
                    start[j]
                }),
            forall|j: int| 0 <= j < k && start[j].id == request_id ==> (#[trigger] requests@[j]).name@ == trimmed@,
            found && request_id != 0 ==> store@ == store_start.insert(
                request_stored_key(project_id@, request_id as int, field_name(RequestFieldKind::Name)),
                value@,
            ),
            !(found && request_id != 0) ==> store@ == store_start,
        decreases start.len() - k,
    {
        if requests[k].id == request_id {
            let mut item = requests[k].clone();
            item.name = trimmed.clone();
            requests.set(k, item);
            set_stored_value(store, project_id, request_id, RequestFieldKind::Name, owned(value));
            found = true;
        }
        proof {
            if has_id(start.take(k + 1), request_id) && !has_id(start.take(k as int), request_id) {
                let j = choose|j: int| 0 <= j < start.take(k + 1).len() && (#[trigger] start.take(k + 1)[j]).id == request_id;
                if j < k {
                    assert(start.take(k as int)[j] == start[j]);
                }
            }
            if has_id(start.take(k as int), request_id) {
                let j = choose|j: int| 0 <= j < start.take(k as int).len() && (#[trigger] start.take(k as int)[j]).id == request_id;
                assert(start.take(k + 1)[j] == start[j]);
            }
            if start[k as int].id == request_id {
                assert(start.take(k + 1)[k as int] == start[k as int]);
            }
        }
        k = k + 1;
    }
    assert(start.take(start.len() as int) =~= start);
    Ok(())
}

/// The first position of a request with id `id`, if any.
pub open spec fn first_with_id(rs: Seq<RequestInfo>, id: i32) -> Option<int> {
    if has_id(rs, id) {
        Some(choose|k: int| 0 <= k < rs.len() && rs[k].id == id && forall|j: int| 0 <= j < k ==> (#[trigger] rs[j]).id != id)
    } else {
        None
    }
}

/// Where the first request with id `id` is listed, if anywhere.
pub fn find_request(requests: &Vec<RequestInfo>, id: i32) -> (r: Option<usize>)
    ensures
        (match r {
            Some(k) => Some(k as int),
            None => None,
        }) == first_with_id(requests@, id),
        r matches Some(k) ==> k < requests@.len() && requests@[k as int].id == id,
{
    let mut i: usize = 0;
    while i < requests.len()
        invariant
            i <= requests@.len(),
            forall|j: int| 0 <= j < i ==> (#[trigger] requests@[j]).id != id,
        decreases requests@.len() - i,
    {
        if requests[i].id == id {
            proof {
                let k = choose|k: int|
                    0 <= k < requests@.len() && requests@[k].id == id && forall|j: int| 0 <= j < k ==> (#[trigger] requests@[j]).id != id;
                if k < i {
                } else if k > i {
                    assert(requests@[i as int].id == id);
                }
            }
            return Some(i);
        }
        i = i + 1;
    }
    None
}

/// Duplicates request `request_id`: a copy under the next free id by the
/// stored list, with the same project, url, name and method, is appended to
/// the list; every stored field of the copied request is copied to it, and the
/// list's ids are stored. `None`, and nothing changes, when no listed request
/// has that id.
pub fn duplicate_request(
    requests: &mut Vec<RequestInfo>,
    store: &mut LocalStore,
    project_id: &str,
    request_id: i32,
) -> (r: Option<RequestInfo>)
    requires
        old(store).wf(),
        has_id(old(requests)@, request_id) ==> (stored_ids(old(store)@, project_id@) matches Some(ids) && ids_below_max(ids)),
    ensures
        final(store).wf(),
        !has_id(old(requests)@, request_id) ==> r is None && final(requests)@ == old(requests)@ && final(store)@ == old(store)@,
        has_id(old(requests)@, request_id) ==> (r matches Some(n) && {
            let orig = old(requests)@[first_with_id(old(requests)@, request_id)->0];
            &&& n.id == next_id(stored_ids(old(store)@, project_id@)->0)
            &&& n.project_id == orig.project_id
            &&& n.url == orig.url
            &&& n.name == orig.name
            &&& n.method == orig.method
            &&& n.command == RequestCommand::Idle
            &&& final(requests)@ == old(requests)@.push(n)
            &&& final(store)@ == with_ids(
                copied(old(store)@, request_copy_pairs(project_id@, request_id as int, project_id@, n.id as int)),
                project_id@,
                request_ids(final(requests)@),
            )
        }),
        stored_ids(final(store)@, project_id@) == Some(request_ids(final(requests)@)) || !has_id(old(requests)@, request_id),
{
    match find_request(requests, request_id) {
        None => None,
        Some(k) => {
            let id = generate_request_id(store, project_id);
            let orig = requests[k].clone();
            let request = RequestInfo::new(id, orig.project_id, orig.url, orig.name, orig.method);
            requests.push(request.clone());
            copy_stored_request(store, project_id, request_id, project_id, request.id);
            let ids = crate::rest_client::ui::rest_client_explorer::ids_of(requests);
            set_stored_requests_ids(store, project_id, ids.as_slice());
            proof {
                crate::rest_client::ui::rest_client_explorer::lemma_with_ids_read_back(
                    copied(old(store)@, request_copy_pairs(project_id@, request_id as int, project_id@, request.id as int)),
                    project_id@,
                    request_ids(requests@),
                );
            }
            Some(request)
        },
    }
}

/// Whether a click on a row selects another request.
pub fn selects_other(current: &RequestInfo, clicked: &RequestInfo) -> (r: bool)
    ensures
        r == (current.id != clicked.id),
{
    current.id != clicked.id
}

} // verus!
