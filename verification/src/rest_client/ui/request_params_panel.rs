//! The body tabs of the request panel: which tab shows which kind of body,
//! the editor language, and which bodies can be reformatted.
use vstd::prelude::*;

use crate::rest_client::model::request_body_kind::{name_of, RequestBodyKind};
use crate::rest_client::ui::request_result_panel::BodyFormat;

verus! {

/// The tab that shows a body kind: JSON, XML, text, form.
pub open spec fn tab_of(kind: RequestBodyKind) -> usize {
    match kind {
        RequestBodyKind::Json => 0,
        RequestBodyKind::Xml => 1,
        RequestBodyKind::Text => 2,
        RequestBodyKind::Formencoded => 3,
    }
}

/// The body kind of a tab; any tab past the form tab counts as JSON.
pub open spec fn kind_of_tab(tab: usize) -> RequestBodyKind {
    if tab == 1 {
        RequestBodyKind::Xml
    } else if tab == 2 {
        RequestBodyKind::Text
    } else if tab == 3 {
        RequestBodyKind::Formencoded
    } else {
        RequestBodyKind::Json
    }
}

/// The tab that shows a body kind.
pub fn body_tab_of(kind: RequestBodyKind) -> (r: usize)
    ensures
        r == tab_of(kind),
{
    match kind {
        RequestBodyKind::Json => 0,
        RequestBodyKind::Xml => 1,
        RequestBodyKind::Text => 2,
        RequestBodyKind::Formencoded => 3,
    }
}

/// The body kind of a tab.
pub fn body_kind_of_tab(tab: usize) -> (r: RequestBodyKind)
    ensures
        r == kind_of_tab(tab),
{
    if tab == 1 {
        RequestBodyKind::Xml
    } else if tab == 2 {
        RequestBodyKind::Text
    } else if tab == 3 {
        RequestBodyKind::Formencoded
    } else {
        RequestBodyKind::Json
    }
}

/// The editor language of a body kind: its name.
pub fn body_lang(kind: RequestBodyKind) -> (r: &'static str)
    ensures
        r@ == name_of(kind),
{
    kind.as_str()
}

/// How the format button reformats a body of a kind: JSON and XML are
/// pretty-printed, text and form bodies are left alone.
pub fn body_format_of(kind: RequestBodyKind) -> (r: BodyFormat)
    ensures
        r == (match kind {
            RequestBodyKind::Json => BodyFormat::Json,
            RequestBodyKind::Xml => BodyFormat::Xml,
            _ => BodyFormat::AsIs,
        }),
{
    match kind {
        RequestBodyKind::Json => BodyFormat::Json,
        RequestBodyKind::Xml => BodyFormat::Xml,
        _ => BodyFormat::AsIs,
    }
}

/// Choosing the tab of a body kind selects that kind again.
pub proof fn lemma_body_tab_round_trip(kind: RequestBodyKind)
    ensures
        kind_of_tab(tab_of(kind)) == kind,
{
}

} // verus!
