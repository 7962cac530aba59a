//! The form body tab: adding a form value under a name no other value has,
//! ignoring case.
use vstd::prelude::*;

use crate::rest_client::model::request_body_form::{pairs_of, RequestBodyFormValue, RequestBodyFormValues};
use crate::text::{lowercase_of, same_text, to_lowercase};

verus! {

/// Some form value's name, lower-cased, is `lowered`.
pub open spec fn form_name_taken(ps: Seq<(Seq<char>, Seq<char>)>, lowered: Seq<char>) -> bool {
    exists|k: int| 0 <= k < ps.len() && lowercase_of((#[trigger] ps[k]).0) == lowered
}

/// Adds a form value with a fresh id when its name, lower-cased, is not empty
/// and no value has that name (compared lower-cased). Whether it was added.
pub fn add_form_value(values: &mut RequestBodyFormValues, name: String, value: String) -> (r: bool)
    ensures
        r == (name@.len() > 0 && !form_name_taken(pairs_of(old(values)@), lowercase_of(name@))),
        r ==> pairs_of(final(values)@) == pairs_of(old(values)@).push((name@, value@)),
        !r ==> final(values)@ == old(values)@,
{
    let lowered = to_lowercase(name.as_str());
    if lowered.as_str().is_empty() {
        return false;
    }
    let list = values.iter();
    let ghost ps = pairs_of(values@);
    let mut i: usize = 0;
    while i < list.len()
        invariant
            list@.map_values(|h: RequestBodyFormValue| h@) == values@,
            ps == pairs_of(values@),
            lowered@ == lowercase_of(name@),
            i <= list@.len(),
            forall|k: int| 0 <= k < i ==> lowercase_of((#[trigger] ps[k]).0) != lowered@,
        decreases list@.len() - i,
    {
        assert(ps[i as int].0 == list@[i as int].name@) by {
            assert(values@[i as int] == list@[i as int]@);
        }
        let other = to_lowercase(list[i].name.as_str());
        if same_text(other.as_str(), lowered.as_str()) {
            return false;
        }
        i = i + 1;
    }
    let ghost before = values@;
    let v = RequestBodyFormValue::new(name, value);
    values.push(v);
    assert(pairs_of(values@) =~= pairs_of(before).push((v.name@, v.value@)));
    true
}

} // verus!
