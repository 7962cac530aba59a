//! Downloading the attachment of a response.
use vstd::prelude::*;

use crate::model::restclient::rest_client_request::RestClientRequest;
use crate::rest_client::model::request_header::pairs_of;
use crate::rest_client::model::request_params::RequestParams;
use crate::rest_client::ui::request_result_previewer::header_pairs;
use crate::text::{owned, pair_views};

verus! {

/// The request that downloads an attachment: a `GET` of its URL with the
/// request's headers and no body.
pub fn attachment_request(params: &RequestParams, attachment: &(String, String)) -> (r: RestClientRequest)
    ensures
        r.method@ == "GET"@,
        r.url@ == attachment.0@,
        pair_views(r.headers@) == pairs_of(params.headers@),
        r.body@.len() == 0,
{
    RestClientRequest {
        method: owned("GET"),
        url: attachment.0.clone(),
        headers: header_pairs(&params.headers),
        body: String::new(),
    }
}

} // verus!
