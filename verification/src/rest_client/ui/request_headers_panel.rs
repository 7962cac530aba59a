//! The headers tab: renaming a header or changing its value, each only when
//! the http crate accepts the new text.
use vstd::prelude::*;

use crate::rest_client::model::request_header::{
    header_name_accepted, header_name_error, header_value_accepted, header_value_error, RequestHeaders,
};

verus! {

/// Renames the headers with id `id`, when the http crate accepts the name;
/// its refusal otherwise, and nothing changes.
pub fn rename_header(headers: &mut RequestHeaders, id: &str, name: &str) -> (r: Result<(), String>)
    ensures
        header_name_accepted(name@) ==> r is Ok && final(headers)@.len() == old(headers)@.len() && forall|k: int|
            0 <= k < old(headers)@.len() ==> (#[trigger] final(headers)@[k]) == (if old(headers)@[k].0 == id@ {
                (old(headers)@[k].0, name@, old(headers)@[k].2)
            } else {
                old(headers)@[k]
            }),
        !header_name_accepted(name@) ==> (r matches Err(m) && m@ == "invalid HTTP header name"@) && final(headers)@
            == old(headers)@,
{
    match header_name_error(name) {
        Some(e) => Err(e),
        None => {
            headers.set_name(id, name);
            Ok(())
        },
    }
}

/// Changes the value of the headers with id `id`, when the http crate
/// accepts the value; its refusal otherwise, and nothing changes.
pub fn revalue_header(headers: &mut RequestHeaders, id: &str, value: &str) -> (r: Result<(), String>)
    ensures
        header_value_accepted(value@) ==> r is Ok && final(headers)@.len() == old(headers)@.len() && forall|k: int|
            0 <= k < old(headers)@.len() ==> (#[trigger] final(headers)@[k]) == (if old(headers)@[k].0 == id@ {
                (old(headers)@[k].0, old(headers)@[k].1, value@)
            } else {
                old(headers)@[k]
            }),
        !header_value_accepted(value@) ==> (r matches Err(m) && m@ == "failed to parse header value"@) && final(headers)@
            == old(headers)@,
{
    match header_value_error(value) {
        Some(e) => Err(e),
        None => {
            headers.set_value(id, value);
            Ok(())
        },
    }
}

} // verus!
