//! A request and a project as the explorer lists them.
use vstd::prelude::*;

use crate::rest_client::model::request_info::shown_name;

verus! {

/// A project that groups requests.
#[derive(Debug)]
pub struct RestClientProject {
    pub id: i32,
    pub name: String,
}

impl Clone for RestClientProject {
    fn clone(&self) -> (r: Self)
        ensures
            r == *self,
    {
        RestClientProject { id: self.id, name: self.name.clone() }
    }
}

/// A request of a project, with a flag that asks for it to be sent at once.
#[derive(Debug)]
pub struct RequestInfo {
    pub id: i32,
    pub project_id: i32,
    pub url: String,
    pub name: String,
    pub method: String,
    pub autorun: bool,
}

impl RequestInfo {
    /// A request with the given fields, not to be sent at once.
    pub fn new(id: i32, project_id: i32, url: String, name: String, method: String) -> (r: Self)
        ensures
            r.id == id,
            r.project_id == project_id,
            r.url == url,
            r.name == name,
            r.method == method,
            !r.autorun,
    {
        Self { id, project_id, url, method, name, autorun: false }
    }

    /// The same request, to be sent at once.
    pub fn clone_and_run(&self) -> (r: Self)
        ensures
            r.id == self.id,
            r.project_id == self.project_id,
            r.url == self.url,
            r.name == self.name,
            r.method == self.method,
            r.autorun,
    {
        let mut info = self.clone();
        info.autorun = true;
        info
    }

    /// The request that stands for "no request selected".
    pub fn new_empty() -> (r: Self)
        ensures
            r.id == 0,
            r.project_id == 0,
            r.url@ == Seq::<char>::empty(),
            r.name@ == Seq::<char>::empty(),
            r.method@ == Seq::<char>::empty(),
            !r.autorun,
    {
        Self {
            id: 0,
            project_id: 0,
            url: String::new(),
            method: String::new(),
            name: String::new(),
            autorun: false,
        }
    }

    /// The name under which the request is listed.
    pub fn display_name(&self) -> (r: String)
        ensures
            r@ == shown_name(self.name@, self.url@),
    {
        if !self.name.as_str().is_empty() {
            self.name.clone()
        } else {
            self.url.clone()
        }
    }
}

impl Clone for RequestInfo {
    fn clone(&self) -> (r: Self)
        ensures
            r == *self,
    {
        RequestInfo {
            id: self.id,
            project_id: self.project_id,
            url: self.url.clone(),
            name: self.name.clone(),
            method: self.method.clone(),
            autorun: self.autorun,
        }
    }
}

} // verus!
