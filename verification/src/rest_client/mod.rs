//! The REST client: requests, their storage, and the views of responses.
pub mod model;
pub mod req_params_headers_panel;
pub mod req_params_panel;
pub mod rest_client_response_panel;
pub mod ui;
pub mod util;
