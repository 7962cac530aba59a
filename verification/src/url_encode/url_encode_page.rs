//! The URL encoding page: the URL it keeps in the store, the service each
//! button calls, and which button shows progress.
use vstd::prelude::*;

use crate::local_store::{value_or, LocalStore};

verus! {

/// What the page is waiting for.
#[derive(Clone, Copy, Debug, PartialEq, Eq, Structural)]
pub enum InProgressType {
    Idle,
    Encode,
    Decode,
}

impl InProgressType {
    /// A request is under way.
    pub fn is_active(self) -> (r: bool)
        ensures
            r == (self != InProgressType::Idle),
    {
        self != InProgressType::Idle
    }
}

/// The URL the page starts with: the one it kept, or none.
pub fn stored_src_url(store: &LocalStore) -> (r: String)
    requires
        store.wf(),
    ensures
        r@ == value_or(store@, "src_url"@, Seq::empty()),
{
    store.get_value("src_url", String::new())
}

/// Keeps the URL being edited.
pub fn remember_src_url(store: &mut LocalStore, url: String)
    requires
        old(store).wf(),
    ensures
        final(store).wf(),
        final(store)@ == old(store)@.insert("src_url"@, url@),
{
    store.set_value("src_url", url)
}

/// The service a button calls: encoding or decoding.
pub fn service_of(kind: InProgressType) -> (r: Option<&'static str>)
    ensures
        kind == InProgressType::Encode ==> (r matches Some(s) && s@ == "/encode_url"@),
        kind == InProgressType::Decode ==> (r matches Some(s) && s@ == "/decode_url"@),
        kind == InProgressType::Idle ==> r is None,
{
    match kind {
        InProgressType::Encode => Some("/encode_url"),
        InProgressType::Decode => Some("/decode_url"),
        InProgressType::Idle => None,
    }
}

} // verus!
