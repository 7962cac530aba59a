//! A server that can keep shared files.
use vstd::prelude::*;

verus! {

/// A file server: its address and a description to show.
#[derive(Clone, Debug)]
pub struct ShareFileServerDto {
    pub url: String,
    pub description: String,
}

} // verus!
