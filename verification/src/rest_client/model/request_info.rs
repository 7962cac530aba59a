//! A stored request as the explorer lists it.
use vstd::prelude::*;

verus! {

/// A command that the explorer asks the request panel to carry out.
#[derive(Clone, Copy, Debug, PartialEq, Eq, Structural)]
pub enum RequestCommand {
    Idle,
    Run,
    CopyCUrl,
    CopyCUrlWin,
}

/// A request of a project: its id, url, name and method.
#[derive(Debug)]
pub struct RequestInfo {
    pub id: i32,
    pub project_id: i32,
    pub url: String,
    pub name: String,
    pub method: String,
    pub command: RequestCommand,
}

/// The name under which a request is listed: its own name, or its url when
/// it has none.
pub open spec fn shown_name(name: Seq<char>, url: Seq<char>) -> Seq<char> {
    if name.len() > 0 {
        name
    } else {
        url
    }
}

impl RequestInfo {
    /// A request with the given fields and no pending command.
    pub fn new(id: i32, project_id: i32, url: String, name: String, method: String) -> (r: Self)
        ensures
            r.id == id,
            r.project_id == project_id,
            r.url == url,
            r.name == name,
            r.method == method,
            r.command == RequestCommand::Idle,
    {
        Self { id, project_id, url, method, name, command: RequestCommand::Idle }
    }

    /// The request that stands for "no request selected".
    pub fn new_empty() -> (r: Self)
        ensures
            r.id == 0,
            r.project_id == 0,
            r.url@ == Seq::<char>::empty(),
            r.name@ == Seq::<char>::empty(),
            r.method@ == Seq::<char>::empty(),
            r.command == RequestCommand::Idle,
    {
        Self {
            id: 0,
            project_id: 0,
            url: String::new(),
            method: String::new(),
            name: String::new(),
            command: RequestCommand::Idle,
        }
    }

    /// The name under which the request is listed.
    pub fn display_name(&self) -> (r: String)
        ensures
            r@ == shown_name(self.name@, self.url@),
    {
        if !self.name.as_str().is_empty() {
            self.name.clone()
        } else {
            self.url.clone()
        }
    }
}

impl Clone for RequestInfo {
    fn clone(&self) -> (r: Self)
        ensures
            r == *self,
    {
        RequestInfo {
            id: self.id,
            project_id: self.project_id,
            url: self.url.clone(),
            name: self.name.clone(),
            method: self.method.clone(),
            command: self.command,
        }
    }
}

} // verus!
