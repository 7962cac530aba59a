//! The answer to a request, as the server reports it.
use vstd::prelude::*;

verus! {

/// What the body of a response is.
#[derive(Clone, Debug, PartialEq, Eq)]
pub enum RestClientResponseBody {
    /// No body.
    Empty,
    /// A text body.
    Text(String),
    /// A file to download, by name.
    Attachment(String),
    /// An image, shown from the request's URL.
    Image,
}

impl Default for RestClientResponseBody {
    fn default() -> (r: Self)
        ensures
            r == RestClientResponseBody::Empty,
    {
        RestClientResponseBody::Empty
    }
}

/// A response: status, headers in order, body, the raw request that was sent,
/// and an error message where sending failed.
#[derive(Clone, Debug)]
pub struct RestClientResponse {
    pub status_code: u16,
    pub headers: Vec<(String, String)>,
    pub body: RestClientResponseBody,
    pub request_raw: String,
    pub error: Option<String>,
}

impl Default for RestClientResponse {
    fn default() -> (r: Self)
        ensures
            r.status_code == 0,
            r.headers@.len() == 0,
            r.body == RestClientResponseBody::Empty,
            r.request_raw@.len() == 0,
            r.error is None,
    {
        RestClientResponse {
            status_code: 0,
            headers: Vec::new(),
            body: RestClientResponseBody::Empty,
            request_raw: String::new(),
            error: None,
        }
    }
}

} // verus!
