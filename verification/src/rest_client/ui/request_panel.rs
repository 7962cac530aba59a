//! The request panel: when a newly selected request is read again from the
//! store.
use vstd::prelude::*;

use crate::rest_client::model::request_info::RequestInfo;
use crate::rest_client::ui::rest_client_explorer::{project_number, project_number_of};

verus! {

/// A change of the selected request reloads the panel from the store when
/// there was none before, the id changed, or the open project is not the
/// previous request's project.
pub fn reloads_request(prev: &Option<RequestInfo>, value: &RequestInfo, project: &str) -> (r: bool)
    ensures
        r == (match prev {
            None => true,
            Some(p) => value.id != p.id || project_number(project@) != p.project_id,
        }),
{
    match prev {
        None => true,
        Some(p) => value.id != p.id || project_number_of(project) != p.project_id,
    }
}

/// The panel shows the request editor only while a request is selected.
pub fn shows_editor(selected: &RequestInfo) -> (r: bool)
    ensures
        r == (selected.id > 0),
{
    selected.id > 0
}

} // verus!
