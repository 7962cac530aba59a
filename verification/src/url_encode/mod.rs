//! The URL encoding page.
pub mod url_encode_page;
