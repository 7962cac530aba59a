//! A request as the REST client hands it to the server to send.
use vstd::prelude::*;

verus! {

/// A request to send: method, URL, headers in order, and body text.
pub struct RestClientRequest {
    pub method: String,
    pub url: String,
    pub headers: Vec<(String, String)>,
    pub body: String,
}

} // verus!
