//! Uploading a file or a text to share: the service and size limit, the
//! request's content type and file name, the link to the shared file, and
//! the QR code of that link.
use vstd::prelude::*;

use crate::model::share_file::share_file_server::ShareFileServerDto;
use crate::text::{extend_str, opt_text, owned, same_text, string_of};
use fast_qr::convert::Builder;

verus! {

/// The largest file the shared service takes: 5 MiB.
pub const MAX_FILE_SIZE: usize = 5242880;

/// How an upload ended.
#[derive(Debug)]
pub enum UploadResult {
    Success,
    Error(String),
    ExceedSize,
}

/// The service a file is uploaded to and the largest size it takes: a custom
/// server takes any size through the local service; otherwise the shared
/// service takes up to `MAX_FILE_SIZE`.
pub fn upload_target(custom_server_url: &str) -> (r: (&'static str, usize))
    ensures
        custom_server_url@.len() > 0 ==> r.0@ == "/share_local_file_upload"@ && r.1 == usize::MAX,
        custom_server_url@.len() == 0 ==> r.0@ == "/share_file_upload"@ && r.1 == MAX_FILE_SIZE,
{
    if !custom_server_url.is_empty() {
        ("/share_local_file_upload", usize::MAX)
    } else {
        ("/share_file_upload", MAX_FILE_SIZE)
    }
}

/// A file may be uploaded when its size is within the limit.
pub fn file_fits(size: u64, max_size: usize) -> (r: bool)
    ensures
        r == (size <= max_size),
{
    size as u128 <= max_size as u128
}

/// The content type a text of a mode is uploaded with.
pub fn get_media_content_type(media_type: &str) -> (r: &'static str)
    ensures
        r@ == (if media_type@ == "xml"@ {
            "application/xml"@
        } else if media_type@ == "json"@ {
            "application/json"@
        } else {
            "text/plain"@
        }),
{
    if same_text(media_type, "xml") {
        "application/xml"
    } else if same_text(media_type, "json") {
        "application/json"
    } else {
        "text/plain"
    }
}

/// The file name a text of a mode is uploaded under: `data.` and the mode.
pub fn text_upload_file_name(media_type: &str) -> (r: String)
    ensures
        r@ == "data."@ + media_type@,
{
    let mut out: Vec<char> = Vec::new();
    extend_str(&mut out, "data.");
    extend_str(&mut out, media_type);
    string_of(out.as_slice())
}

/// The link to a shared file: on the custom server, marked local, when one
/// was chosen; else on the server that answered.
pub open spec fn shared_link(custom_server_url: Seq<char>, server_url: Seq<char>, id: Seq<char>) -> Seq<char> {
    if custom_server_url.len() > 0 {
        custom_server_url + "/share_file/view?id="@ + id + "&local=true"@
    } else {
        server_url + "/share_file/view?id="@ + id
    }
}

/// The link to a shared file.
pub fn shared_file_url(custom_server_url: &str, server_url: &str, id: &str) -> (r: String)
    ensures
        r@ == shared_link(custom_server_url@, server_url@, id@),
{
    let mut out: Vec<char> = Vec::new();
    if !custom_server_url.is_empty() {
        extend_str(&mut out, custom_server_url);
        extend_str(&mut out, "/share_file/view?id=");
        extend_str(&mut out, id);
        extend_str(&mut out, "&local=true");
    } else {
        extend_str(&mut out, server_url);
        extend_str(&mut out, "/share_file/view?id=");
        extend_str(&mut out, id);
    }
    string_of(out.as_slice())
}

/// What the server's answer to an upload means: with status 200, the link to
/// the file whose id the body holds (or the error reading the body); any
/// other status is an error with its status text.
pub fn upload_outcome(
    status: u16,
    status_text: &str,
    body: Result<String, String>,
    custom_server_url: &str,
    server_url: &str,
) -> (r: (UploadResult, Option<String>))
    ensures
        status == 200 && body is Ok ==> (r.0 matches UploadResult::Success) && (r.1 matches Some(u) && u@ == shared_link(
            custom_server_url@,
            server_url@,
            body->Ok_0@,
        )),
        status == 200 && body is Err ==> (r.0 matches UploadResult::Error(e) && e@ == body->Err_0@) && r.1 is None,
        status != 200 ==> (r.0 matches UploadResult::Error(e) && e@ == status_text@) && r.1 is None,
{
    if status == 200 {
        match body {
            Ok(text) => (UploadResult::Success, Some(shared_file_url(custom_server_url, server_url, text.as_str()))),
            Err(e) => (UploadResult::Error(e), None),
        }
    } else {
        (UploadResult::Error(owned(status_text)), None)
    }
}

/// The server options of the upload page: each server's address, shown by
/// its description.
pub fn server_options(servers: &Vec<ShareFileServerDto>) -> (r: Vec<(Option<String>, String)>)
    ensures
        r@.len() == servers@.len(),
        forall|i: int|
            0 <= i < r@.len() ==> ((#[trigger] r@[i]).0 matches Some(u) && u@ == servers@[i].url@ && r@[i].1@
                == servers@[i].description@),
{
    let mut r: Vec<(Option<String>, String)> = Vec::new();
    let mut i: usize = 0;
    while i < servers.len()
        invariant
            i <= servers@.len(),
            r@.len() == i,
            forall|k: int|
                0 <= k < i ==> ((#[trigger] r@[k]).0 matches Some(u) && u@ == servers@[k].url@ && r@[k].1@
                    == servers@[k].description@),
        decreases servers@.len() - i,
    {
        r.push((Some(servers[i].url.clone()), servers[i].description.clone()));
        i = i + 1;
    }
    r
}

/// The upload mode asked for by the page's query, `file` by default.
pub fn upload_mode(mode_param: Option<String>) -> (r: String)
    ensures
        r@ == (match mode_param {
            Some(m) => m@,
            None => "file"@,
        }),
{
    match mode_param {
        Some(m) => m,
        None => owned("file"),
    }
}

/// The server choice is hidden when there are no custom servers or a link is
/// already shown.
pub fn servers_hidden(server_count: usize, shared_url: &str) -> (r: bool)
    ensures
        r == (server_count == 0 || shared_url@.len() > 0),
{
    server_count == 0 || !shared_url.is_empty()
}

/// The SVG of the QR code that fast_qr draws for a text (medium error
/// correction, square modules), or `None` when the text is too long to
/// encode.
pub uninterp spec fn qr_svg_of(value: Seq<char>) -> Option<Seq<char>>;

/// `QRBuilder::new(value).ecl(ECL::M).build()` and
/// `SvgBuilder::default().shape(Shape::Square).to_str` of fast_qr: the SVG of
/// the QR code, `None` when the builder refuses the text. The result is named,
/// not stated.
#[verifier::external_body]
fn qr_code_svg(value: &str) -> (r: Option<String>)
    ensures
        (match r {
            Some(s) => Some(s@),
            None => None,
        }) == qr_svg_of(value@),
{
    let qrcode = fast_qr::QRBuilder::new(value.to_owned()).ecl(fast_qr::ECL::M).build().ok()?;
    Some(fast_qr::convert::svg::SvgBuilder::default().shape(fast_qr::convert::Shape::Square).to_str(&qrcode))
}

/// The QR code shown for the link to a shared file.
pub fn share_qr_code(shared_url: &str) -> (r: Option<String>)
    ensures
        (match r {
            Some(s) => Some(s@),
            None => None,
        }) == qr_svg_of(shared_url@),
{
    qr_code_svg(shared_url)
}

/// The message the page shows once an upload has ended.
#[derive(Debug)]
pub enum UploadMessage {
    /// The upload succeeded (an information message).
    Uploaded,
    /// The upload failed with this error.
    Failed(String),
    /// The file exceeds the size limit (an error message).
    TooLarge,
}

/// The message for an upload result: success for `Success`, the error text
/// for `Error`, the size error for `ExceedSize`.
pub open spec fn message_for(m: UploadMessage, r: UploadResult) -> bool {
    match r {
        UploadResult::Success => m is Uploaded,
        UploadResult::Error(e) => m matches UploadMessage::Failed(x) && x@ == e@,
        UploadResult::ExceedSize => m is TooLarge,
    }
}

/// What the page does once an upload has ended: whether it clears the
/// selected file and the file input, and the one message it shows.
#[derive(Debug)]
pub struct UploadReaction {
    pub clear_selection: bool,
    pub message: UploadMessage,
}

/// What the page does once an upload has ended: a success clears the
/// selection and shows the success message; an error shows its text; a file
/// over the limit shows the size error.
pub fn upload_reaction(r: &UploadResult) -> (a: UploadReaction)
    ensures
        a.clear_selection == (r is Success),
        message_for(a.message, *r),
{
    match r {
        UploadResult::Success => UploadReaction { clear_selection: true, message: UploadMessage::Uploaded },
        UploadResult::Error(e) => UploadReaction { clear_selection: false, message: UploadMessage::Failed(e.clone()) },
        UploadResult::ExceedSize => UploadReaction { clear_selection: false, message: UploadMessage::TooLarge },
    }
}

/// The upload page: whether a file is selected, whether an upload is under
/// way, the link to the last shared file and the QR code shown for it.
#[derive(Debug)]
pub struct UploadPageState {
    pub has_selected_file: bool,
    pub in_progress: bool,
    pub shared_url: String,
    pub qr_code: Option<String>,
}

impl UploadPageState {
    /// The QR code shown is that of the shared link.
    pub open spec fn qr_current(&self) -> bool {
        opt_text(self.qr_code) == qr_svg_of(self.shared_url@)
    }

    /// The page as it opens: no file, no upload, no link, no QR code.
    pub fn new() -> (r: Self)
        ensures
            !r.has_selected_file,
            !r.in_progress,
            r.shared_url@.len() == 0,
            r.qr_code is None,
    {
        UploadPageState { has_selected_file: false, in_progress: false, shared_url: String::new(), qr_code: None }
    }

    /// A file was chosen, dropped or pasted.
    pub fn select_file(&mut self)
        ensures
            final(self).has_selected_file,
            final(self).in_progress == old(self).in_progress,
            final(self).shared_url == old(self).shared_url,
            final(self).qr_code == old(self).qr_code,
    {
        self.has_selected_file = true;
    }

    /// An upload starts.
    pub fn start_upload(&mut self)
        ensures
            final(self).in_progress,
            final(self).has_selected_file == old(self).has_selected_file,
            final(self).shared_url == old(self).shared_url,
            final(self).qr_code == old(self).qr_code,
    {
        self.in_progress = true;
    }

    /// An upload ended with `result` and, where the server answered, the link
    /// to the shared file. The upload is no longer under way; a success
    /// clears the selected file; the link (and with it the QR code) changes
    /// only on a success that brought a link; the page's one message for this
    /// upload is returned.
    pub fn finish_upload(&mut self, result: UploadResult, url: Option<String>) -> (a: UploadReaction)
        ensures
            !final(self).in_progress,
            a.clear_selection == (result is Success),
            message_for(a.message, result),
            result is Success ==> !final(self).has_selected_file,
            !(result is Success) ==> final(self).has_selected_file == old(self).has_selected_file,
            (result is Success && url is Some) ==> final(self).shared_url@ == url->0@ && final(self).qr_current(),
            !(result is Success && url is Some) ==> final(self).shared_url == old(self).shared_url && final(self).qr_code
                == old(self).qr_code,
            old(self).qr_current() ==> final(self).qr_current(),
    {
        self.in_progress = false;
        let reaction = upload_reaction(&result);
        if reaction.clear_selection {
            self.has_selected_file = false;
            if let Some(u) = url {
                self.qr_code = share_qr_code(u.as_str());
                self.shared_url = u;
            }
        }
        reaction
    }
}

} // verus!
