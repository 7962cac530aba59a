//! What the pages of the REST client share: the open project and the
//! selected request.
use vstd::prelude::*;

use crate::rest_client::model::request_info::RequestInfo;
use crate::rest_client::ui::rest_client_explorer::{project_number, project_number_of};

verus! {

/// The open project (as its id text) and the selected request.
#[derive(Debug)]
pub struct RestClientContext {
    pub project: String,
    pub request: RequestInfo,
}

impl RestClientContext {
    /// The id of the open project: its text read as a number, or 0.
    pub fn project_id(&self) -> (r: i32)
        ensures
            r == project_number(self.project@),
    {
        project_number_of(self.project.as_str())
    }
}

} // verus!
