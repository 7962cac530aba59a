//! Sharing a file or a text: where it is uploaded, what the upload answers
//! mean, and how a shared file is shown.
pub mod share_file_upload_page;
pub mod share_file_view_page;

use vstd::prelude::*;

verus! {

/// The text waiting to be shared, handed over from another page.
#[derive(Clone, Debug)]
pub struct ShareStorage {
    pub text: String,
}

impl ShareStorage {
    /// No text waiting.
    pub fn new() -> (r: Self)
        ensures
            r.text@.len() == 0,
    {
        ShareStorage { text: String::new() }
    }

    /// Hands over `text` to share.
    pub fn set_text(&mut self, text: &str)
        ensures
            final(self).text@ == text@,
    {
        self.text = crate::text::owned(text);
    }
}

} // verus!
