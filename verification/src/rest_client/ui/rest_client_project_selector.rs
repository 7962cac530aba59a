//! The project selector: the options it lists, and what creating, renaming
//! and deleting a project do to the list of projects and to the selection.
use vstd::prelude::*;

use crate::decimal::{dec_int, i32_digits, parse_i32, parse_i32_spec};
use crate::rest_client::ui::request_params::RestClientProject;
use crate::rest_client::ui::rest_client_explorer_row::{compare_form, compared_name, NameError};
use crate::rest_client::util::request_store::max_id;
use crate::text::{chars_of, lowercase_of, owned, same_text, string_of, to_lowercase, trim, trim_chars};

verus! {

/// The select options of the projects: each project's id as text, with its
/// name shown.
pub fn get_projects_options(projects: &Vec<RestClientProject>) -> (r: Vec<(Option<String>, String)>)
    ensures
        r@.len() == projects@.len(),
        forall|i: int|
            0 <= i < r@.len() ==> ((#[trigger] r@[i]).0 matches Some(v) && v@ == dec_int(projects@[i].id as int)
                && r@[i].1@ == projects@[i].name@),
{
    let mut r: Vec<(Option<String>, String)> = Vec::new();
    let mut i: usize = 0;
    while i < projects.len()
        invariant
            i <= projects@.len(),
            r@.len() == i,
            forall|k: int|
                0 <= k < i ==> ((#[trigger] r@[k]).0 matches Some(v) && v@ == dec_int(projects@[k].id as int)
                    && r@[k].1@ == projects@[k].name@),
        decreases projects@.len() - i,
    {
        let id_text = string_of(i32_digits(projects[i].id).as_slice());
        r.push((Some(id_text), projects[i].name.clone()));
        i = i + 1;
    }
    r
}

/// The ids of a list of projects, in order.
pub open spec fn project_ids(ps: Seq<RestClientProject>) -> Seq<i32> {
    ps.map_values(|p: RestClientProject| p.id)
}

/// The id for a new project: one more than the largest id, or 1.
pub open spec fn next_project_id(ps: Seq<RestClientProject>) -> int {
    if ps.len() == 0 {
        1
    } else {
        max_id(project_ids(ps)) + 1
    }
}

/// The id for a new project: one more than the largest id in use, or 1.
pub fn generate_project_id(projects: &Vec<RestClientProject>) -> (r: i32)
    requires
        forall|k: int| 0 <= k < projects@.len() ==> (#[trigger] projects@[k]).id < i32::MAX,
    ensures
        r == next_project_id(projects@),
        forall|k: int| 0 <= k < projects@.len() ==> (#[trigger] projects@[k]).id < r,
{
    let mut ids: Vec<i32> = Vec::new();
    let mut i: usize = 0;
    while i < projects.len()
        invariant
            i <= projects@.len(),
            ids@ == project_ids(projects@).take(i as int),
        decreases projects@.len() - i,
    {
        ids.push(projects[i].id);
        assert(ids@ =~= project_ids(projects@).take(i + 1));
        i = i + 1;
    }
    assert(ids@ =~= project_ids(projects@));
    assert forall|k: int| 0 <= k < ids@.len() implies ids@[k] < i32::MAX by {
        assert(ids@[k] == projects@[k].id);
    }
    let r = crate::rest_client::util::request_store::next_request_id(ids.as_slice());
    assert forall|k: int| 0 <= k < projects@.len() implies (#[trigger] projects@[k]).id < r by {
        assert(ids@[k] == projects@[k].id);
    }
    r
}

/// The name of the last project whose id the selection reads as, if any.
pub open spec fn selected_project_name(ps: Seq<RestClientProject>, project: Seq<char>) -> Option<Seq<char>>
    decreases ps.len(),
{
    if ps.len() == 0 {
        None
    } else {
        match parse_i32_spec(project) {
            None => None,
            Some(id) => if ps.last().id == id {
                Some(ps.last().name@)
            } else {
                selected_project_name(ps.drop_last(), project)
            },
        }
    }
}

/// The name to edit when renaming the selected project: that of the last
/// project with the selected id; none when the selection is no number or no
/// project has it.
pub fn project_name_for_rename(projects: &Vec<RestClientProject>, project: &str) -> (r: Option<String>)
    ensures
        (match r {
            Some(s) => Some(s@),
            None => None,
        }) == selected_project_name(projects@, project@),
{
    match parse_i32(project) {
        None => {
            if projects.len() > 0 {
                assert(selected_project_name(projects@, project@) is None);
            }
            None
        },
        Some(id) => {
            let mut i: usize = projects.len();
            assert(projects@.take(i as int) =~= projects@);
            while i > 0
                invariant
                    i <= projects@.len(),
                    parse_i32_spec(project@) == Some(id as int),
                    selected_project_name(projects@, project@) == selected_project_name(projects@.take(i as int), project@),
                decreases i,
            {
                assert(projects@.take(i as int).drop_last() =~= projects@.take(i - 1));
                assert(projects@.take(i as int).last() == projects@[i - 1]);
                if projects[i - 1].id == id {
                    return Some(projects[i - 1].name.clone());
                }
                i = i - 1;
            }
            None
        },
    }
}

/// Deletes the selected project from the list: every project with the
/// selected id leaves it, and the first remaining project (or none, as empty
/// text) becomes selected. `None`, and nothing changes, when the selection is
/// no number.
pub fn delete_project(projects: &mut Vec<RestClientProject>, project: &str) -> (r: Option<String>)
    ensures
        parse_i32_spec(project@) is None ==> r is None && final(projects)@ == old(projects)@,
        parse_i32_spec(project@) matches Some(id) ==> {
            &&& final(projects)@ == old(projects)@.filter(|p: RestClientProject| p.id != id)
            &&& r matches Some(sel) && sel@ == (if final(projects)@.len() > 0 {
                dec_int(final(projects)@[0].id as int)
            } else {
                Seq::empty()
            })
        },
{
    match parse_i32(project) {
        None => None,
        Some(id) => {
            let ghost start = projects@;
            let mut kept: Vec<RestClientProject> = Vec::new();
            assert(start.take(0).filter(|p: RestClientProject| p.id != id) =~= Seq::<RestClientProject>::empty()) by {
                reveal(Seq::filter);
            }
            let mut i: usize = 0;
            while i < projects.len()
                invariant
                    start == projects@,
                    i <= projects@.len(),
                    kept@ == start.take(i as int).filter(|p: RestClientProject| p.id != id),
                decreases projects@.len() - i,
            {
                assert(start.take(i + 1).drop_last() =~= start.take(i as int));
                assert(start.take(i + 1).last() == start[i as int]);
                let ghost before = kept@;
                if projects[i].id != id {
                    kept.push(projects[i].clone());
                }
                reveal(Seq::filter);
                assert(start.take(i + 1).filter(|p: RestClientProject| p.id != id) == if start[i as int].id != id {
                    start.take(i as int).filter(|p: RestClientProject| p.id != id).push(start[i as int])
                } else {
                    start.take(i as int).filter(|p: RestClientProject| p.id != id)
                });
                i = i + 1;
            }
            assert(start.take(start.len() as int) =~= start);
            *projects = kept;
            if projects.len() > 0 {
                Some(string_of(i32_digits(projects[0].id).as_slice()))
            } else {
                Some(String::new())
            }
        },
    }
}

/// Some project other than `id` has the name `val` (compared in lower case).
pub open spec fn project_name_taken(ps: Seq<RestClientProject>, id: int, val: Seq<char>) -> bool {
    exists|j: int| 0 <= j < ps.len() && (#[trigger] ps[j]).id != id && lowercase_of(ps[j].name@) == val
}

/// What entering a project name does.
#[derive(Debug)]
pub enum ProjectNameOutcome {
    /// A project was created with this id, which becomes selected.
    Created(i32),
    /// The selected project was renamed.
    Renamed,
}

/// Applies a project name typed for the selected project (`project`, read as
/// a number, 0 when it is none): refused when blank or taken by another
/// project (ignoring case); with no project selected, a project with the next
/// id and the trimmed name is appended; otherwise every project with the
/// selected id takes the name as typed.
pub fn apply_project_name(projects: &mut Vec<RestClientProject>, project: &str, value: &str) -> (r: Result<ProjectNameOutcome, NameError>)
    requires
        parse_i32_spec(project@) is None || parse_i32_spec(project@) == Some(0int) ==> forall|k: int|
            0 <= k < old(projects)@.len() ==> (#[trigger] old(projects)@[k]).id < i32::MAX,
    ensures
        ({
            let id = match parse_i32_spec(project@) {
                Some(v) => v,
                None => 0,
            };
            &&& trim(value@).len() == 0 ==> r == Err::<ProjectNameOutcome, NameError>(NameError::Empty)
            &&& trim(value@).len() > 0 && project_name_taken(old(projects)@, id, compared_name(value@)) ==> r
                == Err::<ProjectNameOutcome, NameError>(NameError::AlreadyExists)
            &&& r is Err ==> final(projects)@ == old(projects)@
            &&& trim(value@).len() > 0 && !project_name_taken(old(projects)@, id, compared_name(value@)) && id
                == 0 ==> (r matches Ok(ProjectNameOutcome::Created(new_id)) && new_id == next_project_id(old(projects)@)
                && final(projects)@ == old(projects)@.push(RestClientProject { id: new_id, name: final(projects)@.last().name })
                && final(projects)@.last().name@ == trim(value@))
            &&& trim(value@).len() > 0 && !project_name_taken(old(projects)@, id, compared_name(value@)) && id
                != 0 ==> (r matches Ok(ProjectNameOutcome::Renamed) && final(projects)@.len() == old(projects)@.len()
                && forall|j: int|
                0 <= j < old(projects)@.len() ==> (#[trigger] final(projects)@[j]).id == old(projects)@[j].id && final(projects)@[j].name@ == (if old(projects)@[j].id == id {
                    value@
                } else {
                    old(projects)@[j].name@
                }))
        }),
{
    let val = compare_form(value);
    let id: i32 = match parse_i32(project) {
        Some(v) => v,
        None => 0,
    };
    if val.as_str().is_empty() {
        return Err(NameError::Empty);
    }
    let ghost first = projects@;
    let mut i: usize = 0;
    while i < projects.len()
        invariant
            projects@ == first,
            id == (match parse_i32_spec(project@) {
                Some(v) => v,
                None => 0,
            }),
            val@ == compared_name(value@),
            val@.len() > 0,
            trim(value@).len() > 0,
            i <= projects@.len(),
            forall|j: int| 0 <= j < i ==> !((#[trigger] projects@[j]).id != id && lowercase_of(projects@[j].name@) == val@),
        decreases projects@.len() - i,
    {
        if projects[i].id != id {
            let lower = to_lowercase(projects[i].name.as_str());
            if same_text(lower.as_str(), val.as_str()) {
                assert(projects@[i as int].id != id && lowercase_of(projects@[i as int].name@) == val@);
                return Err(NameError::AlreadyExists);
            }
        }
        i = i + 1;
    }
    if id == 0 {
        let new_id = generate_project_id(projects);
        let name = string_of(trim_chars(chars_of(value).as_slice()).as_slice());
        projects.push(RestClientProject { id: new_id, name });
        Ok(ProjectNameOutcome::Created(new_id))
    } else {
        let ghost start = projects@;
        let mut k: usize = 0;
        while k < projects.len()
            invariant
                projects@.len() == start.len(),
                k <= start.len(),
                forall|j: int|
                    0 <= j < start.len() ==> (#[trigger] projects@[j]).id == start[j].id && projects@[j].name@ == (if j < k
                        && start[j].id == id {
                        value@
                    } else {
                        start[j].name@
                    }),
            decreases start.len() - k,
        {
            if projects[k].id == id {
                let p = RestClientProject { id: projects[k].id, name: owned(value) };
                projects.set(k, p);
            }
            k = k + 1;
        }
        Ok(ProjectNameOutcome::Renamed)
    }
}

} // verus!
