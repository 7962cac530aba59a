//! Requests the REST client asks the server to send, and what comes back.
pub mod rest_client_request;
pub mod rest_client_response;
