//! Store layout, request building and HTML preview helpers.
pub mod request_store;
pub mod rest_client_utils;
pub mod curl_builder;
pub mod url_ops;
pub mod cookie_parse;
pub mod dom_helper;
pub mod html_previewer;
pub mod html_utils;
pub mod link_rewrite;
