//! Verified core of a browser developer-tools suite: a REST client (request
//! storage keys, header and form bodies, cURL command building, response
//! views, HTML preview link rewriting), a file-sharing page and a URL
//! encoding page.
pub mod text;
pub mod decimal;
pub mod split;
pub mod local_store;
pub mod model;
pub mod rest_client;
pub mod share_file;
pub mod url_encode;
