//! What the result panel shows of a response.
use vstd::prelude::*;

verus! {

/// The shown parts of a response: status, size, text body, attachment
/// (URL and file name), image URL, code language of the body, headers and
/// the raw request.
#[derive(Debug)]
pub struct RequestResult {
    pub status_code: String,
    pub size: Option<u64>,
    pub body: String,
    pub attachment: (String, String),
    pub image: String,
    pub lang: String,
    pub headers: Vec<(String, String)>,
    pub request_raw: String,
}

impl RequestResult {
    /// Nothing is shown.
    pub open spec fn is_cleared(&self) -> bool {
        &&& self.status_code@.len() == 0
        &&& self.size is None
        &&& self.body@.len() == 0
        &&& self.attachment.0@.len() == 0
        &&& self.attachment.1@.len() == 0
        &&& self.image@.len() == 0
        &&& self.lang@.len() == 0
        &&& self.headers@.len() == 0
        &&& self.request_raw@.len() == 0
    }

    /// A result that shows nothing.
    pub fn new() -> (r: Self)
        ensures
            r.is_cleared(),
    {
        RequestResult {
            status_code: String::new(),
            size: None,
            body: String::new(),
            attachment: (String::new(), String::new()),
            image: String::new(),
            lang: String::new(),
            headers: Vec::new(),
            request_raw: String::new(),
        }
    }
}

} // verus!
