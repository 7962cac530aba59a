//! Showing a shared file: where it is downloaded from, and whether and in
//! which code language its text is shown.
use vstd::prelude::*;

use crate::text::{contains, extend_str, same_text, str_contains, string_of};

verus! {

/// The code language a shared file's text is shown in, by its media type.
pub open spec fn mime_lang(mime_type: Seq<char>) -> Option<Seq<char>> {
    if mime_type == "text/plain"@ {
        Some("text"@)
    } else if contains(mime_type, "json"@) {
        Some("json"@)
    } else if contains(mime_type, "xml"@) {
        Some("xml"@)
    } else if contains(mime_type, "html"@) {
        Some("html"@)
    } else {
        None
    }
}

/// The code language a shared file's text is shown in, by its media type.
pub fn get_mime_code_lang(mime_type: &str) -> (r: Option<&'static str>)
    ensures
        (match r {
            Some(s) => Some(s@),
            None => None,
        }) == mime_lang(mime_type@),
        mime_type@ == "text/plain"@ ==> r == Some("text"),
        mime_type@ != "text/plain"@ && contains(mime_type@, "json"@) ==> r == Some("json"),
        mime_type@ != "text/plain"@ && !contains(mime_type@, "json"@) && contains(mime_type@, "xml"@) ==> r == Some("xml"),
        mime_type@ != "text/plain"@ && !contains(mime_type@, "json"@) && !contains(mime_type@, "xml"@) && contains(
            mime_type@,
            "html"@,
        ) ==> r == Some("html"),
        mime_type@ != "text/plain"@ && !contains(mime_type@, "json"@) && !contains(mime_type@, "xml"@) && !contains(
            mime_type@,
            "html"@,
        ) ==> r is None,
{
    if same_text(mime_type, "text/plain") {
        Some("text")
    } else if str_contains(mime_type, "json") {
        Some("json")
    } else if str_contains(mime_type, "xml") {
        Some("xml")
    } else if str_contains(mime_type, "html") {
        Some("html")
    } else {
        None
    }
}

/// The code language of a shared file's text: `text` for exactly
/// `text/plain`; otherwise `json` for a media type that names JSON, then `xml`
/// for one that names XML, then `html` for one that names HTML; none for any
/// other.
pub proof fn lemma_mime_code_lang(mime_type: Seq<char>)
    ensures
        mime_type == "text/plain"@ ==> mime_lang(mime_type) == Some("text"@),
        mime_type != "text/plain"@ && contains(mime_type, "json"@) ==> mime_lang(mime_type) == Some("json"@),
        mime_type != "text/plain"@ && !contains(mime_type, "json"@) && contains(mime_type, "xml"@) ==> mime_lang(
            mime_type,
        ) == Some("xml"@),
        mime_type != "text/plain"@ && !contains(mime_type, "json"@) && !contains(mime_type, "xml"@) && contains(
            mime_type,
            "html"@,
        ) ==> mime_lang(mime_type) == Some("html"@),
        mime_type != "text/plain"@ && !contains(mime_type, "json"@) && !contains(mime_type, "xml"@) && !contains(
            mime_type,
            "html"@,
        ) ==> mime_lang(mime_type) is None,
{
}

/// The `local` query flag: set only when it is exactly `true`.
pub fn local_flag(param: &Option<String>) -> (r: bool)
    ensures
        r == (param matches Some(p) && p@ == "true"@),
{
    match param {
        Some(p) => same_text(p.as_str(), "true"),
        None => false,
    }
}

/// Where a shared file is downloaded from: the local or the shared service,
/// with its id.
pub fn download_url(id: &str, local: bool) -> (r: String)
    ensures
        r@ == "/"@ + (if local {
            "share_local_file_download"@
        } else {
            "share_file_download"@
        }) + "?id="@ + id@,
{
    let mut out: Vec<char> = Vec::new();
    extend_str(&mut out, "/");
    if local {
        extend_str(&mut out, "share_local_file_download");
    } else {
        extend_str(&mut out, "share_file_download");
    }
    extend_str(&mut out, "?id=");
    extend_str(&mut out, id);
    string_of(out.as_slice())
}

/// The language a shared file's text is shown in: only for files under
/// 100 KiB whose media type has one.
pub fn shown_text_lang(file_size: u64, mime_type: &str) -> (r: Option<&'static str>)
    ensures
        file_size >= 102400 ==> r is None,
        file_size < 102400 ==> (match r {
            Some(s) => Some(s@),
            None => None,
        }) == mime_lang(mime_type@),
{
    if file_size < 102400 {
        get_mime_code_lang(mime_type)
    } else {
        None
    }
}

} // verus!
