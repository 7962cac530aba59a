//! The raw request tab: copying the request as a cURL command, on a button
//! or on a command from the explorer.
use vstd::prelude::*;

use crate::rest_client::model::request_info::RequestCommand;
use crate::rest_client::model::request_params::RequestParams;
use crate::rest_client::util::curl_builder::{bash_command, build_curl_bash_cmd, build_curl_win_cmd, win_command};

verus! {

/// The cURL command a command from the explorer asks to copy: the POSIX one
/// for `CopyCUrl`, the Windows one for `CopyCUrlWin`, none otherwise. The
/// command is cleared either way.
pub fn curl_for_command(command: &mut RequestCommand, params: &RequestParams) -> (r: Option<String>)
    ensures
        *final(command) == RequestCommand::Idle,
        *old(command) == RequestCommand::CopyCUrl ==> (r matches Some(c) && c@ == bash_command(*params)),
        *old(command) == RequestCommand::CopyCUrlWin ==> (r matches Some(c) && c@ == win_command(*params)),
        !(*old(command) == RequestCommand::CopyCUrl || *old(command) == RequestCommand::CopyCUrlWin) ==> r is None,
{
    let r = match *command {
        RequestCommand::CopyCUrl => Some(build_curl_bash_cmd(params)),
        RequestCommand::CopyCUrlWin => Some(build_curl_win_cmd(params)),
        _ => None,
    };
    *command = RequestCommand::Idle;
    r
}

} // verus!
