//! What the server tells about a shared file.
use vstd::prelude::*;

verus! {

/// A shared file: its name, its media type, and whether it is an image.
#[derive(Clone, Debug)]
pub struct ShareFileInfoDto {
    pub file_name: String,
    pub mime_type: String,
    pub is_image: bool,
}

} // verus!
