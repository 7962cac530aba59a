//! The response panel of the request page: status, body, headers and the
//! language the body is shown in, and the stored formatting switch.
use vstd::prelude::*;

use crate::decimal::{dec_nat, u16_digits};
use crate::local_store::{value_or, LocalStore};
use crate::rest_client::ui::request_result_panel::{response_lang, response_lang_of};
use crate::split::{join, join_chars, views};
use crate::text::{clone_pairs, extend_str, owned, pair_views, same_text, string_of};

verus! {

/// A response as the panel gets it.
#[derive(Clone, Debug)]
pub struct RestClientPanelData {
    pub status_code: u16,
    pub body: String,
    pub headers: Vec<(String, String)>,
}

/// What the panel shows: status text, body, headers and body language.
#[derive(Debug)]
pub struct PanelView {
    pub status: String,
    pub body: String,
    pub headers: Vec<(String, String)>,
    pub lang: String,
}

/// What the panel shows of a response: with none, nothing, in `html`; else
/// its status, body and headers, in the language of its content type.
pub fn panel_view(data: &Option<RestClientPanelData>, media_types: &[(String, String)]) -> (r: PanelView)
    ensures
        data is None ==> r.status@.len() == 0 && r.body@.len() == 0 && r.headers@.len() == 0 && r.lang@ == "html"@,
        data matches Some(d) ==> r.status@ == dec_nat(d.status_code as nat) && r.body@ == d.body@ && pair_views(r.headers@)
            == pair_views(d.headers@) && r.lang@ == response_lang_of(pair_views(d.headers@), pair_views(media_types@)),
{
    match data {
        None => PanelView { status: String::new(), body: String::new(), headers: Vec::new(), lang: owned("html") },
        Some(d) => PanelView {
            status: string_of(u16_digits(d.status_code).as_slice()),
            body: d.body.clone(),
            headers: clone_pairs(&d.headers),
            lang: response_lang(&d.headers, media_types),
        },
    }
}

/// The stored formatting switch is readable: `true` or `false`, or nothing
/// stored (which counts as `true`).
pub open spec fn formatting_readable(m: Map<Seq<char>, Seq<char>>) -> bool {
    value_or(m, "rc_formatting"@, "true"@) == "true"@ || value_or(m, "rc_formatting"@, "true"@) == "false"@
}

/// The stored formatting switch; on unless `false` is stored.
pub fn stored_formatting(store: &LocalStore) -> (r: bool)
    requires
        store.wf(),
        formatting_readable(store@),
    ensures
        r == (value_or(store@, "rc_formatting"@, "true"@) == "true"@),
{
    let value = store.get_value("rc_formatting", owned("true"));
    same_text(value.as_str(), "true")
}

/// The row that shows one header in the response panel.
pub open spec fn plain_header_row(h: (Seq<char>, Seq<char>)) -> Seq<char> {
    "<div>"@ + h.0 + "</div><div>"@ + h.1 + "</div>"@
}

/// The headers as HTML rows, separated by newlines.
pub fn render_headers(headers: &Vec<(String, String)>) -> (r: String)
    ensures
        r@ == join(pair_views(headers@).map_values(|h: (Seq<char>, Seq<char>)| plain_header_row(h)), seq!['\n']),
{
    let ghost hs = pair_views(headers@);
    let mut rows: Vec<Vec<char>> = Vec::new();
    let mut i: usize = 0;
    while i < headers.len()
        invariant
            hs == pair_views(headers@),
            i <= headers@.len(),
            views(rows@) == hs.take(i as int).map_values(|h: (Seq<char>, Seq<char>)| plain_header_row(h)),
        decreases headers@.len() - i,
    {
        let mut row: Vec<char> = Vec::new();
        extend_str(&mut row, "<div>");
        extend_str(&mut row, headers[i].0.as_str());
        extend_str(&mut row, "</div><div>");
        extend_str(&mut row, headers[i].1.as_str());
        extend_str(&mut row, "</div>");
        assert(row@ =~= plain_header_row(hs[i as int]));
        let ghost before = views(rows@);
        rows.push(row);
        assert(views(rows@) =~= before.push(plain_header_row(hs[i as int])));
        assert(hs.take(i + 1).map_values(|h: (Seq<char>, Seq<char>)| plain_header_row(h)) =~= hs.take(
            i as int,
        ).map_values(|h: (Seq<char>, Seq<char>)| plain_header_row(h)).push(plain_header_row(hs[i as int])));
        i = i + 1;
    }
    assert(hs.take(headers@.len() as int) =~= hs);
    let sep: Vec<char> = vec!['\n'];
    assert(sep@ =~= seq!['\n']);
    let out = join_chars(&rows, sep.as_slice());
    string_of(out.as_slice())
}

} // verus!
