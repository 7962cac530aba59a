//! Sending a request from the URL bar: the request handed to the server,
//! what a change of the selected request does, and how a failure is told
//! apart from a cancellation.
use vstd::prelude::*;

use crate::model::restclient::rest_client_request::RestClientRequest;
use crate::rest_client::model::request_info::RequestCommand;
use crate::rest_client::model::request_params::{sent_body, sent_headers, RequestParams};
use crate::text::{contains, extend_str, owned, pair_views, str_contains, string_of};

verus! {

/// The request sent for the edited request: its method and url, the headers
/// sent with it (an added `Content-Type` first, where one is added), and its
/// body; when a form body cannot be encoded, the message to show instead.
pub fn build_send_request(params: &RequestParams) -> (r: Result<RestClientRequest, String>)
    ensures
        sent_body(*params) matches Ok(b) ==> (r matches Ok(q) && q.method == params.method && q.url == params.url
            && pair_views(q.headers@) == sent_headers(*params) && q.body@ == b),
        sent_body(*params) matches Err(m) ==> (r matches Err(e) && e@ == "Error: "@ + m),
{
    let headers = params.request_headers();
    assert(pair_views(headers@) == sent_headers(*params));
    match params.get_body() {
        Ok(body) => Ok(RestClientRequest { method: params.method.clone(), url: params.url.clone(), headers, body }),
        Err(e) => {
            let mut msg: Vec<char> = Vec::new();
            extend_str(&mut msg, "Error: ");
            extend_str(&mut msg, e.as_str());
            Err(string_of(msg.as_slice()))
        },
    }
}

/// What a change of the selected request asks of the URL bar.
#[derive(Clone, Copy, Debug, PartialEq, Eq, Structural)]
pub enum SelectionReaction {
    /// Cancel the request in flight.
    Abort,
    /// Clear the command and send the request.
    Send,
    /// Nothing.
    Keep,
}

/// What a change of the selected request asks for: a request in flight is
/// cancelled; otherwise a pending run command sends the new one.
pub fn selection_reaction(in_flight: bool, command: RequestCommand) -> (r: SelectionReaction)
    ensures
        r == (if in_flight {
            SelectionReaction::Abort
        } else if command == RequestCommand::Run {
            SelectionReaction::Send
        } else {
            SelectionReaction::Keep
        }),
{
    if in_flight {
        SelectionReaction::Abort
    } else if command == RequestCommand::Run {
        SelectionReaction::Send
    } else {
        SelectionReaction::Keep
    }
}

/// A send failure is a cancellation when its message names `AbortError`.
pub fn is_cancelled(error_text: &str) -> (r: bool)
    ensures
        r == contains(error_text@, "AbortError"@),
{
    str_contains(error_text, "AbortError")
}

/// The methods offered, in order.
pub fn method_options() -> (r: Vec<&'static str>)
    ensures
        r@.len() == 7,
        r@[0]@ == "GET"@,
        r@[1]@ == "POST"@,
        r@[2]@ == "PUT"@,
        r@[3]@ == "DELETE"@,
        r@[4]@ == "PATCH"@,
        r@[5]@ == "HEAD"@,
        r@[6]@ == "OPTIONS"@,
{
    vec!["GET", "POST", "PUT", "DELETE", "PATCH", "HEAD", "OPTIONS"]
}

} // verus!
