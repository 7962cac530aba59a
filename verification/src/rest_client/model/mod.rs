//! Plain data of a REST client request.
pub mod request_body_kind;
pub mod request_info;
pub mod request_header;
pub mod request_body_form;
pub mod request_params;
pub mod request_result;
pub mod request_response;
pub mod rest_client_context;
