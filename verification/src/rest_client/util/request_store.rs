//! The layout of the browser store that keeps requests: which key holds
//! which field of which request, how the list of request ids is written and
//! read back, and how the next request id is chosen.
use vstd::prelude::*;

use crate::decimal::{
    dec_int, i32_digits, is_digit, lemma_dec_int_injective, lemma_dec_int_shape, lemma_parse_dec_i32,
    parse_i32_chars, parse_i32_spec,
};
use crate::split::{free_of, join, join_chars, lemma_split_join, split_chars, split_on, views};
use crate::local_store::{copied, key_set, lemma_copied_disjoint, value_or, LocalStore};
use crate::text::pair_views;
use crate::text::{chars_of, extend_chars, extend_str, string_of};

verus! {

/// A field of a request that has a key of its own in the store.
#[derive(Clone, Copy, Debug, PartialEq, Eq, Structural)]
pub enum RequestFieldKind {
    Url,
    Name,
    Method,
    Body,
    Headers,
    SaveResponse,
    BodyType,
    ParamsTab,
    BodyFormencoded,
    SaveResponseData,
    HeadersHeight,
    Formatting,
}

/// The name of a field within store keys.
pub open spec fn field_name(f: RequestFieldKind) -> Seq<char> {
    match f {
        RequestFieldKind::Url => "url"@,
        RequestFieldKind::Name => "name"@,
        RequestFieldKind::Method => "method"@,
        RequestFieldKind::Body => "body"@,
        RequestFieldKind::Headers => "headers"@,
        RequestFieldKind::SaveResponse => "save_response"@,
        RequestFieldKind::BodyType => "body_type"@,
        RequestFieldKind::ParamsTab => "params_tab"@,
        RequestFieldKind::BodyFormencoded => "body_formencoded"@,
        RequestFieldKind::SaveResponseData => "save_response_data"@,
        RequestFieldKind::HeadersHeight => "headers_height"@,
        RequestFieldKind::Formatting => "formatting"@,
    }
}

/// All fields, in declaration order.
pub open spec fn all_fields() -> Seq<RequestFieldKind> {
    seq![
        RequestFieldKind::Url,
        RequestFieldKind::Name,
        RequestFieldKind::Method,
        RequestFieldKind::Body,
        RequestFieldKind::Headers,
        RequestFieldKind::SaveResponse,
        RequestFieldKind::BodyType,
        RequestFieldKind::ParamsTab,
        RequestFieldKind::BodyFormencoded,
        RequestFieldKind::SaveResponseData,
        RequestFieldKind::HeadersHeight,
        RequestFieldKind::Formatting,
    ]
}

/// The field whose name is `s`, if any.
pub open spec fn field_named(s: Seq<char>) -> Option<RequestFieldKind> {
    if exists|i: int| 0 <= i < all_fields().len() && field_name(#[trigger] all_fields()[i]) == s {
        Some(
            all_fields()[choose|i: int|
                0 <= i < all_fields().len() && field_name(#[trigger] all_fields()[i]) == s],
        )
    } else {
        None
    }
}

impl RequestFieldKind {
    /// All fields, in declaration order.
    pub fn all() -> (r: Vec<RequestFieldKind>)
        ensures
            r@ == all_fields(),
    {
        let v = vec![
            RequestFieldKind::Url,
            RequestFieldKind::Name,
            RequestFieldKind::Method,
            RequestFieldKind::Body,
            RequestFieldKind::Headers,
            RequestFieldKind::SaveResponse,
            RequestFieldKind::BodyType,
            RequestFieldKind::ParamsTab,
            RequestFieldKind::BodyFormencoded,
            RequestFieldKind::SaveResponseData,
            RequestFieldKind::HeadersHeight,
            RequestFieldKind::Formatting,
        ];
        assert(v@ =~= all_fields());
        v
    }

    /// The name of the field within store keys.
    pub fn as_str(&self) -> (r: &'static str)
        ensures
            r@ == field_name(*self),
    {
        match self {
            RequestFieldKind::Url => "url",
            RequestFieldKind::Name => "name",
            RequestFieldKind::Method => "method",
            RequestFieldKind::Body => "body",
            RequestFieldKind::Headers => "headers",
            RequestFieldKind::SaveResponse => "save_response",
            RequestFieldKind::BodyType => "body_type",
            RequestFieldKind::ParamsTab => "params_tab",
            RequestFieldKind::BodyFormencoded => "body_formencoded",
            RequestFieldKind::SaveResponseData => "save_response_data",
            RequestFieldKind::HeadersHeight => "headers_height",
            RequestFieldKind::Formatting => "formatting",
        }
    }

    /// The field whose name is `s`, if any.
    pub fn from_name(s: &str) -> (r: Option<RequestFieldKind>)
        ensures
            r == field_named(s@),
    {
        let all = RequestFieldKind::all();
        let mut i: usize = 0;
        while i < all.len()
            invariant
                all@ == all_fields(),
                i <= all@.len(),
                forall|j: int| 0 <= j < i ==> field_name(#[trigger] all_fields()[j]) != s@,
            decreases all@.len() - i,
        {
            if crate::text::same_text(all[i].as_str(), s) {
                proof {
                    lemma_field_names_distinct();
                    let k = choose|k: int|
                        0 <= k < all_fields().len() && field_name(#[trigger] all_fields()[k])
                            == s@;
                    assert(all_fields()[k] == all_fields()[i as int]);
                }
                return Some(all[i]);
            }
            i = i + 1;
        }
        None
    }
}

/// Different fields have different names.
pub proof fn lemma_field_names_distinct()
    ensures
        forall|i: int, j: int|
            0 <= i < all_fields().len() && 0 <= j < all_fields().len() && field_name(
                #[trigger] all_fields()[i],
            ) == field_name(#[trigger] all_fields()[j]) ==> i == j,
{
    reveal_strlit("url");
    reveal_strlit("name");
    reveal_strlit("method");
    reveal_strlit("body");
    reveal_strlit("headers");
    reveal_strlit("save_response");
    reveal_strlit("body_type");
    reveal_strlit("params_tab");
    reveal_strlit("body_formencoded");
    reveal_strlit("save_response_data");
    reveal_strlit("headers_height");
    reveal_strlit("formatting");
    assert forall|i: int, j: int|
        0 <= i < all_fields().len() && 0 <= j < all_fields().len() && field_name(
            #[trigger] all_fields()[i],
        ) == field_name(#[trigger] all_fields()[j]) implies i == j by {
        let a = field_name(all_fields()[i]);
        let b = field_name(all_fields()[j]);
        if i != j {
            assert(a.len() != b.len() || a[0] != b[0] || a[1] != b[1] || a[a.len() - 1] != b[b.len()
                - 1] || a[5] != b[5]);
        }
    }
}

/// Reading back the name of a field gives that field.
pub proof fn lemma_field_name_round_trip(f: RequestFieldKind)
    ensures
        field_named(field_name(f)) == Some(f),
{
    lemma_field_names_distinct();
    let i: int = match f {
        RequestFieldKind::Url => 0,
        RequestFieldKind::Name => 1,
        RequestFieldKind::Method => 2,
        RequestFieldKind::Body => 3,
        RequestFieldKind::Headers => 4,
        RequestFieldKind::SaveResponse => 5,
        RequestFieldKind::BodyType => 6,
        RequestFieldKind::ParamsTab => 7,
        RequestFieldKind::BodyFormencoded => 8,
        RequestFieldKind::SaveResponseData => 9,
        RequestFieldKind::HeadersHeight => 10,
        RequestFieldKind::Formatting => 11,
    };
    assert(all_fields()[i] == f);
}

/// The key of a request's field, with or without the project in front.
pub open spec fn request_key_with(with_project: bool, project: Seq<char>, id: int, name: Seq<char>) -> Seq<char> {
    if with_project {
        project + "-"@ + dec_int(id) + "-rc_"@ + name
    } else {
        dec_int(id) + "-rc_"@ + name
    }
}

/// The project stands for "no project": empty, or `0`.
pub open spec fn is_default_project(project: Seq<char>) -> bool {
    project.len() == 0 || project == "0"@
}

/// The store key of the field `name` of request `id` in `project`.
pub open spec fn request_stored_key(project: Seq<char>, id: int, name: Seq<char>) -> Seq<char> {
    request_key_with(!is_default_project(project), project, id, name)
}

/// The store key of the project-wide value `name`.
pub open spec fn project_stored_key(project: Seq<char>, name: Seq<char>) -> Seq<char> {
    if project.len() == 0 {
        "rc_"@ + name
    } else {
        project + "-rc_"@ + name
    }
}

/// Builds a request key, with or without the project in front.
pub fn request_key(with_project: bool, project: &str, id: i32, name: &str) -> (r: String)
    ensures
        r@ == request_key_with(with_project, project@, id as int, name@),
{
    let mut out: Vec<char> = Vec::new();
    if with_project {
        extend_str(&mut out, project);
        extend_str(&mut out, "-");
    }
    let d = i32_digits(id);
    extend_chars(&mut out, d.as_slice());
    extend_str(&mut out, "-rc_");
    extend_str(&mut out, name);
    let r = string_of(out.as_slice());
    proof {
        if with_project {
            assert(r@ =~= project@ + "-"@ + dec_int(id as int) + "-rc_"@ + name@);
        } else {
            assert(r@ =~= dec_int(id as int) + "-rc_"@ + name@);
        }
    }
    r
}

/// Whether `project` stands for "no project": empty, or `0`.
pub fn default_project(project: &str) -> (r: bool)
    ensures
        r == is_default_project(project@),
{
    project.is_empty() || crate::text::same_text(project, "0")
}

/// The store key of the field `name` of request `request_id` in `project_id`.
pub fn build_request_stored_key(project_id: &str, request_id: i32, name: &str) -> (r: String)
    ensures
        r@ == request_stored_key(project_id@, request_id as int, name@),
{
    let with_project = !default_project(project_id);
    request_key(with_project, project_id, request_id, name)
}

/// The store key of the project-wide value `name` of `project_id`.
pub fn build_project_stored_key(project_id: &str, name: &str) -> (r: String)
    ensures
        r@ == project_stored_key(project_id@, name@),
{
    let mut out: Vec<char> = Vec::new();
    if !project_id.is_empty() {
        extend_str(&mut out, project_id);
        extend_str(&mut out, "-rc_");
    } else {
        extend_str(&mut out, "rc_");
    }
    extend_str(&mut out, name);
    let r = string_of(out.as_slice());
    proof {
        if project_id@.len() > 0 {
            assert(r@ =~= project_id@ + "-rc_"@ + name@);
        } else {
            assert(r@ =~= "rc_"@ + name@);
        }
    }
    r
}

/// The store key of `field` of request `request_id` in `project_id`.
pub fn field_key(field: RequestFieldKind, project_id: &str, request_id: i32) -> (r: String)
    ensures
        r@ == request_stored_key(project_id@, request_id as int, field_name(field)),
{
    build_request_stored_key(project_id, request_id, field.as_str())
}

/// The key under which a field of a request is written; `None` for request
/// `0`, which stands for "no request" and is never written.
pub fn stored_value_key(project_id: &str, request_id: i32, field: RequestFieldKind) -> (r: Option<String>)
    ensures
        request_id == 0 ==> r is None,
        request_id != 0 ==> (r matches Some(k) && k@ == request_stored_key(
            project_id@,
            request_id as int,
            field_name(field),
        )),
{
    if request_id == 0 {
        return None;
    }
    Some(field_key(field, project_id, request_id))
}

/// The keys of all fields of a request, one per field in declaration order:
/// what deleting a request removes from the store.
pub fn request_field_keys(project_id: &str, request_id: i32) -> (r: Vec<String>)
    ensures
        r@.len() == all_fields().len(),
        forall|i: int|
            0 <= i < r@.len() ==> (#[trigger] r@[i])@ == request_stored_key(
                project_id@,
                request_id as int,
                field_name(all_fields()[i]),
            ),
{
    let all = RequestFieldKind::all();
    let mut r: Vec<String> = Vec::new();
    let mut i: usize = 0;
    while i < all.len()
        invariant
            all@ == all_fields(),
            i <= all@.len(),
            r@.len() == i,
            forall|j: int|
                0 <= j < i ==> (#[trigger] r@[j])@ == request_stored_key(
                    project_id@,
                    request_id as int,
                    field_name(all_fields()[j]),
                ),
        decreases all@.len() - i,
    {
        r.push(field_key(all[i], project_id, request_id));
        i = i + 1;
    }
    r
}

/// For each field, the key it is read from in the source request and the key
/// it is written to in the copy: what copying a request moves in the store.
pub fn request_copy_keys(
    src_project_id: &str,
    src_request_id: i32,
    dst_project_id: &str,
    dst_request_id: i32,
) -> (r: Vec<(String, String)>)
    ensures
        r@.len() == all_fields().len(),
        forall|i: int|
            0 <= i < r@.len() ==> {
                &&& (#[trigger] r@[i]).0@ == request_stored_key(
                    src_project_id@,
                    src_request_id as int,
                    field_name(all_fields()[i]),
                )
                &&& r@[i].1@ == request_stored_key(
                    dst_project_id@,
                    dst_request_id as int,
                    field_name(all_fields()[i]),
                )
            },
{
    let all = RequestFieldKind::all();
    let mut r: Vec<(String, String)> = Vec::new();
    let mut i: usize = 0;
    while i < all.len()
        invariant
            all@ == all_fields(),
            i <= all@.len(),
            r@.len() == i,
            forall|j: int|
                0 <= j < i ==> {
                    &&& (#[trigger] r@[j]).0@ == request_stored_key(
                        src_project_id@,
                        src_request_id as int,
                        field_name(all_fields()[j]),
                    )
                    &&& r@[j].1@ == request_stored_key(
                        dst_project_id@,
                        dst_request_id as int,
                        field_name(all_fields()[j]),
                    )
                },
        decreases all@.len() - i,
    {
        let from = field_key(all[i], src_project_id, src_request_id);
        let to = field_key(all[i], dst_project_id, dst_request_id);
        r.push((from, to));
        i = i + 1;
    }
    r
}

/// Decimal texts split from a following `-r...` at a single place.
proof fn lemma_split_after_number(a: Seq<char>, x: Seq<char>, b: Seq<char>, y: Seq<char>)
    requires
        a.len() > 0,
        b.len() > 0,
        forall|k: int| 1 <= k < a.len() ==> is_digit(#[trigger] a[k]),
        forall|k: int| 1 <= k < b.len() ==> is_digit(#[trigger] b[k]),
        x.len() >= 1,
        y.len() >= 1,
        x[0] == '-',
        y[0] == '-',
        a + x == b + y,
    ensures
        a == b,
        x == y,
{
    if a.len() < b.len() {
        assert((a + x)[a.len() as int] == '-');
        assert((b + y)[a.len() as int] == b[a.len() as int]);
        assert(is_digit(b[a.len() as int]));
    } else if b.len() < a.len() {
        assert((b + y)[b.len() as int] == '-');
        assert((a + x)[b.len() as int] == a[b.len() as int]);
        assert(is_digit(a[b.len() as int]));
    }
    assert(a =~= (a + x).take(a.len() as int));
    assert(b =~= (b + y).take(b.len() as int));
    assert(x =~= (a + x).skip(a.len() as int));
    assert(y =~= (b + y).skip(b.len() as int));
}

/// Within one project, different fields of different requests have different
/// store keys: a key names exactly one field of one request.
pub proof fn lemma_request_keys_distinct(project: Seq<char>, id1: i32, name1: Seq<char>, id2: i32, name2: Seq<char>)
    requires
        request_stored_key(project, id1 as int, name1) == request_stored_key(project, id2 as int, name2),
    ensures
        id1 == id2,
        name1 == name2,
{
    reveal_strlit("-");
    reveal_strlit("-rc_");
    lemma_dec_int_shape(id1 as int);
    lemma_dec_int_shape(id2 as int);
    let a = dec_int(id1 as int);
    let b = dec_int(id2 as int);
    let x = "-rc_"@ + name1;
    let y = "-rc_"@ + name2;
    if is_default_project(project) {
        assert(request_stored_key(project, id1 as int, name1) =~= a + x);
        assert(request_stored_key(project, id2 as int, name2) =~= b + y);
    } else {
        let p = project + "-"@;
        assert(request_stored_key(project, id1 as int, name1) =~= p + (a + x));
        assert(request_stored_key(project, id2 as int, name2) =~= p + (b + y));
        assert(a + x =~= (p + (a + x)).skip(p.len() as int));
        assert(b + y =~= (p + (b + y)).skip(p.len() as int));
    }
    lemma_split_after_number(a, x, b, y);
    lemma_dec_int_injective(id1, id2);
    assert(name1 =~= x.skip(4));
    assert(name2 =~= y.skip(4));
}

/// A request's field never shares its key with a project-wide value of the
/// same project, except for request `0` of project `0`.
pub proof fn lemma_request_key_not_project_key(project: Seq<char>, id: i32, name: Seq<char>, value_name: Seq<char>)
    requires
        !(project == "0"@ && id == 0),
    ensures
        request_stored_key(project, id as int, name) != project_stored_key(project, value_name),
{
    reveal_strlit("-");
    reveal_strlit("-rc_");
    reveal_strlit("rc_");
    reveal_strlit("0");
    lemma_dec_int_shape(id as int);
    let d = dec_int(id as int);
    let rk = request_stored_key(project, id as int, name);
    let pk = project_stored_key(project, value_name);
    if project.len() == 0 {
        if rk == pk {
            assert(rk[0] == d[0]);
            assert(pk[0] == 'r');
        }
    } else if project == "0"@ {
        if rk == pk {
            let x = "-rc_"@ + name;
            let y = "-rc_"@ + value_name;
            assert(rk =~= d + x);
            assert(pk =~= "0"@ + y);
            lemma_split_after_number(d, x, "0"@, y);
            assert(dec_int(0) =~= "0"@);
            lemma_dec_int_injective(id, 0);
        }
    } else {
        if rk == pk {
            let n = project.len() as int;
            assert(rk[n + 1] == d[0]);
            assert(pk[n + 1] == 'r');
        }
    }
}

/// The stored text of a list of request ids: their decimal texts joined with
/// commas.
pub open spec fn ids_text(ids: Seq<i32>) -> Seq<char> {
    join(ids.map_values(|i: i32| dec_int(i as int)), seq![','])
}

/// The ids that a stored text lists: none for empty text; otherwise the
/// comma-separated pieces, each of which must read as an `i32` (else `None`).
pub open spec fn parsed_ids(value: Seq<char>) -> Option<Seq<i32>> {
    if value.len() == 0 {
        Some(Seq::empty())
    } else {
        let parts = split_on(value, ',');
        if forall|k: int| 0 <= k < parts.len() ==> (#[trigger] parse_i32_spec(parts[k])) is Some {
            Some(parts.map_values(|p: Seq<char>| parse_i32_spec(p)->0 as i32))
        } else {
            None
        }
    }
}

/// The largest of a non-empty list of ids.
pub open spec fn max_id(ids: Seq<i32>) -> int
    recommends
        ids.len() > 0,
    decreases ids.len(),
{
    if ids.len() <= 1 {
        ids[0] as int
    } else {
        let m = max_id(ids.drop_last());
        if ids.last() > m {
            ids.last() as int
        } else {
            m
        }
    }
}

/// The id a new request gets: one more than the largest, or 1 when there is
/// none.
pub open spec fn next_id(ids: Seq<i32>) -> int {
    if ids.len() == 0 {
        1
    } else {
        max_id(ids) + 1
    }
}

pub proof fn lemma_max_id_bounds(ids: Seq<i32>)
    requires
        ids.len() > 0,
    ensures
        forall|k: int| 0 <= k < ids.len() ==> ids[k] <= max_id(ids),
        exists|k: int| 0 <= k < ids.len() && ids[k] == max_id(ids),
    decreases ids.len(),
{
    if ids.len() > 1 {
        let init = ids.drop_last();
        lemma_max_id_bounds(init);
        let w = choose|k: int| 0 <= k < init.len() && init[k] == max_id(init);
        assert(ids[w] == init[w]);
        assert forall|k: int| 0 <= k < ids.len() implies ids[k] <= max_id(ids) by {
            if k < init.len() {
                assert(ids[k] == init[k]);
            }
        }
        if ids.last() > max_id(init) {
            assert(ids[ids.len() - 1] == max_id(ids));
        }
    } else {
        assert(ids[0] == max_id(ids));
    }
}

/// The stored text of a list of request ids.
pub fn join_ids(ids: &[i32]) -> (r: String)
    ensures
        r@ == ids_text(ids@),
{
    let mut parts: Vec<Vec<char>> = Vec::new();
    let mut i: usize = 0;
    while i < ids.len()
        invariant
            i <= ids@.len(),
            views(parts@) == ids@.take(i as int).map_values(|x: i32| dec_int(x as int)),
        decreases ids@.len() - i,
    {
        let ghost before = views(parts@);
        parts.push(i32_digits(ids[i]));
        assert(views(parts@) =~= before.push(dec_int(ids@[i as int] as int)));
        assert(ids@.take(i + 1).map_values(|x: i32| dec_int(x as int)) =~= ids@.take(
            i as int,
        ).map_values(|x: i32| dec_int(x as int)).push(dec_int(ids@[i as int] as int)));
        i = i + 1;
    }
    assert(ids@.take(ids@.len() as int) =~= ids@);
    let sep: Vec<char> = vec![','];
    assert(sep@ =~= seq![',']);
    let out = join_chars(&parts, sep.as_slice());
    string_of(out.as_slice())
}

/// The stored value of a list of request ids, or `None` when the list is
/// empty and the stored value is to be removed instead.
pub fn requests_ids_value(ids: &[i32]) -> (r: Option<String>)
    ensures
        ids@.len() == 0 ==> r is None,
        ids@.len() > 0 ==> (r matches Some(v) && v@ == ids_text(ids@)),
{
    if ids.len() == 0 {
        None
    } else {
        Some(join_ids(ids))
    }
}

/// The ids that a stored text lists; `None` when a piece does not read as an
/// `i32` (a stored list that reading it would fail on).
pub fn parse_requests_ids(value: &str) -> (r: Option<Vec<i32>>)
    ensures
        r matches Some(v) ==> parsed_ids(value@) == Some(v@),
        r is None ==> parsed_ids(value@) is None,
{
    if value.is_empty() {
        let v: Vec<i32> = Vec::new();
        assert(v@ =~= Seq::<i32>::empty());
        return Some(v);
    }
    let cs = chars_of(value);
    let parts = split_chars(cs.as_slice(), ',');
    let ghost ps = views(parts@);
    let mut ids: Vec<i32> = Vec::new();
    let mut i: usize = 0;
    while i < parts.len()
        invariant
            ps == split_on(value@, ','),
            ps == views(parts@),
            value@.len() > 0,
            i <= parts@.len(),
            ids@.len() == i,
            forall|k: int| 0 <= k < i ==> (#[trigger] parse_i32_spec(ps[k])) is Some,
            forall|k: int| 0 <= k < i ==> ids@[k] == parse_i32_spec(ps[k])->0 as i32,
        decreases parts@.len() - i,
    {
        assert(ps[i as int] == parts@[i as int]@);
        match parse_i32_chars(parts[i].as_slice()) {
            Some(x) => {
                ids.push(x);
            },
            None => {
                assert(parse_i32_spec(ps[i as int]) is None);
                assert(value@.len() > 0);
                return None;
            },
        }
        i = i + 1;
    }
    assert(ids@ =~= ps.map_values(|p: Seq<char>| parse_i32_spec(p)->0 as i32));
    Some(ids)
}

/// The id for a new request: one more than the largest id in use, or 1.
pub fn next_request_id(ids: &[i32]) -> (r: i32)
    requires
        forall|k: int| 0 <= k < ids@.len() ==> ids@[k] < i32::MAX,
    ensures
        r == next_id(ids@),
        forall|k: int| 0 <= k < ids@.len() ==> ids@[k] < r,
{
    if ids.len() == 0 {
        return 1;
    }
    let mut m: i32 = ids[0];
    let mut i: usize = 1;
    while i < ids.len()
        invariant
            1 <= i <= ids@.len(),
            m == max_id(ids@.take(i as int)),
            forall|k: int| 0 <= k < ids@.len() ==> ids@[k] < i32::MAX,
        decreases ids@.len() - i,
    {
        assert(ids@.take(i + 1).drop_last() =~= ids@.take(i as int));
        if ids[i] > m {
            m = ids[i];
        }
        i = i + 1;
    }
    assert(ids@.take(ids@.len() as int) =~= ids@);
    proof {
        lemma_max_id_bounds(ids@);
    }
    m + 1
}

/// Reading back a written list of request ids gives the same ids.
pub proof fn lemma_ids_round_trip(ids: Seq<i32>)
    ensures
        parsed_ids(ids_text(ids)) == Some(ids),
{
    let parts = ids.map_values(|i: i32| dec_int(i as int));
    if ids.len() == 0 {
        assert(ids_text(ids) =~= Seq::<char>::empty());
        assert(ids =~= Seq::<i32>::empty());
    } else {
        assert forall|k: int| 0 <= k < parts.len() implies free_of(#[trigger] parts[k], ',') by {
            lemma_dec_int_shape(ids[k] as int);
            assert forall|j: int| 0 <= j < parts[k].len() implies parts[k][j] != ',' by {
                if j == 0 {
                } else {
                    assert(is_digit(dec_int(ids[k] as int)[j]));
                }
            }
        }
        lemma_split_join(parts, ',');
        lemma_dec_int_shape(ids[0] as int);
        assert(ids_text(ids).len() > 0) by {
            lemma_join_nonempty(parts, seq![',']);
        }
        assert forall|k: int| 0 <= k < parts.len() implies (#[trigger] parse_i32_spec(parts[k])) is Some
            && parse_i32_spec(parts[k])->0 as i32 == ids[k] by {
            lemma_parse_dec_i32(ids[k]);
        }
        assert(parts.map_values(|p: Seq<char>| parse_i32_spec(p)->0 as i32) =~= ids);
    }
}

proof fn lemma_join_nonempty(parts: Seq<Seq<char>>, sep: Seq<char>)
    requires
        parts.len() > 0,
        parts[0].len() > 0,
    ensures
        join(parts, sep).len() > 0,
    decreases parts.len(),
{
    if parts.len() > 1 {
        lemma_join_nonempty(parts.drop_last(), sep);
    }
}


/// The keys of all fields of request `id` in `project`.
pub open spec fn request_field_key_set(project: Seq<char>, id: int) -> Set<Seq<char>> {
    Set::new(
        |k: Seq<char>|
            exists|i: int|
                0 <= i < all_fields().len() && k == request_stored_key(project, id, field_name(#[trigger] all_fields()[i])),
    )
}

/// For each field in declaration order, its key in the source request and
/// its key in the destination request.
pub open spec fn request_copy_pairs(src_project: Seq<char>, src_id: int, dst_project: Seq<char>, dst_id: int) -> Seq<(Seq<char>, Seq<char>)> {
    all_fields().map_values(
        |f: RequestFieldKind|
            (request_stored_key(src_project, src_id, field_name(f)), request_stored_key(dst_project, dst_id, field_name(f))),
    )
}

/// The store key of the list of request ids of `project`.
pub open spec fn requests_ids_key(project: Seq<char>) -> Seq<char> {
    project_stored_key(project, "requests_ids"@)
}

/// The ids that the store lists for `project` (`None` when the stored text
/// does not read as a list of ids).
pub open spec fn stored_ids(m: Map<Seq<char>, Seq<char>>, project: Seq<char>) -> Option<Seq<i32>> {
    parsed_ids(value_or(m, requests_ids_key(project), Seq::empty()))
}

/// The key of the project that was open last.
pub open spec fn current_project_key() -> Seq<char> {
    "rc_current_project"@
}

/// Every listed id leaves room for one more.
pub open spec fn ids_below_max(ids: Seq<i32>) -> bool {
    forall|k: int| 0 <= k < ids.len() ==> ids[k] < i32::MAX
}

/// Writes the list of request ids of `project_id`; an empty list removes the
/// stored value.
pub fn set_stored_requests_ids(store: &mut LocalStore, project_id: &str, ids: &[i32])
    requires
        old(store).wf(),
    ensures
        final(store).wf(),
        ids@.len() > 0 ==> final(store)@ == old(store)@.insert(requests_ids_key(project_id@), ids_text(ids@)),
        ids@.len() == 0 ==> final(store)@ == old(store)@.remove(requests_ids_key(project_id@)),
        stored_ids(final(store)@, project_id@) == Some(ids@),
{
    let key = build_project_stored_key(project_id, "requests_ids");
    proof {
        reveal_strlit("requests_ids");
        lemma_ids_round_trip(ids@);
    }
    match requests_ids_value(ids) {
        Some(value) => store.set_value(key.as_str(), value),
        None => {
            store.delete_value(key.as_str());
            assert(ids@ =~= Seq::<i32>::empty());
        },
    }
}

/// Removes every field of request `request_id` of `project_id` from the store.
pub fn delete_stored_request(store: &mut LocalStore, project_id: &str, request_id: i32)
    requires
        old(store).wf(),
    ensures
        final(store).wf(),
        final(store)@ == old(store)@.remove_keys(request_field_key_set(project_id@, request_id as int)),
{
    let keys = request_field_keys(project_id, request_id);
    store.delete_values(keys.as_slice());
    proof {
        assert forall|k: Seq<char>| key_set(keys@).contains(k) <==> request_field_key_set(project_id@, request_id as int).contains(k) by {
            if key_set(keys@).contains(k) {
                let i = choose|i: int| 0 <= i < keys@.len() && (#[trigger] keys@[i])@ == k;
                assert(k == request_stored_key(project_id@, request_id as int, field_name(all_fields()[i])));
            }
            if request_field_key_set(project_id@, request_id as int).contains(k) {
                let i = choose|i: int|
                    0 <= i < all_fields().len() && k == request_stored_key(project_id@, request_id as int, field_name(#[trigger] all_fields()[i]));
                assert(keys@[i]@ == k);
            }
        }
        assert(key_set(keys@) =~= request_field_key_set(project_id@, request_id as int));
    }
}

/// Copies every field of a request to another request, field by field in
/// declaration order; a field with nothing stored is copied as empty text.
pub fn copy_stored_request(
    store: &mut LocalStore,
    src_project_id: &str,
    src_request_id: i32,
    dst_project_id: &str,
    dst_request_id: i32,
)
    requires
        old(store).wf(),
    ensures
        final(store).wf(),
        final(store)@ == copied(
            old(store)@,
            request_copy_pairs(src_project_id@, src_request_id as int, dst_project_id@, dst_request_id as int),
        ),
{
    let pairs = request_copy_keys(src_project_id, src_request_id, dst_project_id, dst_request_id);
    store.copy_values(pairs.as_slice());
    assert(pair_views(pairs@) =~= request_copy_pairs(
        src_project_id@,
        src_request_id as int,
        dst_project_id@,
        dst_request_id as int,
    ));
}

/// Copying a request to another id of the same project gives each field of
/// the copy the source's value (empty text where none was stored), and leaves
/// every key that is no field of the copy as it was.
pub proof fn lemma_copy_request_within_project(m: Map<Seq<char>, Seq<char>>, project: Seq<char>, src_id: i32, dst_id: i32)
    requires
        src_id != dst_id,
    ensures
        forall|i: int|
            0 <= i < all_fields().len() ==> {
                let after = copied(m, request_copy_pairs(project, src_id as int, project, dst_id as int));
                let dst = request_stored_key(project, dst_id as int, field_name(#[trigger] all_fields()[i]));
                &&& after.dom().contains(dst)
                &&& after[dst] == value_or(m, request_stored_key(project, src_id as int, field_name(all_fields()[i])), Seq::empty())
            },
        forall|k: Seq<char>|
            !(#[trigger] request_field_key_set(project, dst_id as int).contains(k)) ==> value_or(
                copied(m, request_copy_pairs(project, src_id as int, project, dst_id as int)),
                k,
                Seq::empty(),
            ) == value_or(m, k, Seq::empty()),
{
    let pairs = request_copy_pairs(project, src_id as int, project, dst_id as int);
    assert forall|a: int, b: int| 0 <= a < pairs.len() && 0 <= b < pairs.len() implies (#[trigger] pairs[a]).0
        != (#[trigger] pairs[b]).1 by {
        if pairs[a].0 == pairs[b].1 {
            lemma_request_keys_distinct(project, src_id, field_name(all_fields()[a]), dst_id, field_name(all_fields()[b]));
        }
    }
    lemma_copied_disjoint(m, pairs);
    assert forall|i: int| 0 <= i < all_fields().len() implies {
        let after = copied(m, pairs);
        let dst = request_stored_key(project, dst_id as int, field_name(#[trigger] all_fields()[i]));
        &&& after.dom().contains(dst)
        &&& after[dst] == value_or(m, request_stored_key(project, src_id as int, field_name(all_fields()[i])), Seq::empty())
    } by {
        assert(pairs[i].1 == request_stored_key(project, dst_id as int, field_name(all_fields()[i])));
        if exists|j: int| i < j < pairs.len() && pairs[j].1 == pairs[i].1 {
            let j = choose|j: int| i < j < pairs.len() && pairs[j].1 == pairs[i].1;
            lemma_request_keys_distinct(project, dst_id, field_name(all_fields()[i]), dst_id, field_name(all_fields()[j]));
            lemma_field_names_distinct();
        }
    }
    assert forall|k: Seq<char>| !(#[trigger] request_field_key_set(project, dst_id as int).contains(k)) implies value_or(
        copied(m, pairs),
        k,
        Seq::empty(),
    ) == value_or(m, k, Seq::empty()) by {
        assert forall|i: int| 0 <= i < pairs.len() implies (#[trigger] pairs[i]).1 != k by {
            if pairs[i].1 == k {
                assert(request_field_key_set(project, dst_id as int).contains(k));
            }
        }
    }
}

/// The ids of the requests of `project_id`, as the store lists them.
pub fn get_stored_requests_ids(store: &LocalStore, project_id: &str) -> (r: Vec<i32>)
    requires
        store.wf(),
        stored_ids(store@, project_id@) is Some,
    ensures
        Some(r@) == stored_ids(store@, project_id@),
{
    let key = build_project_stored_key(project_id, "requests_ids");
    proof {
        reveal_strlit("requests_ids");
    }
    let value = store.get_value(key.as_str(), String::new());
    match parse_requests_ids(value.as_str()) {
        Some(ids) => ids,
        None => {
            // the stored list reads as ids, by the precondition
            assert(false);
            Vec::new()
        },
    }
}

/// The id for a new request of `project_id`: one more than the largest id the
/// store lists, or 1.
pub fn generate_request_id(store: &LocalStore, project_id: &str) -> (r: i32)
    requires
        store.wf(),
        stored_ids(store@, project_id@) matches Some(ids) && ids_below_max(ids),
    ensures
        r == next_id(stored_ids(store@, project_id@)->0),
        forall|k: int| 0 <= k < stored_ids(store@, project_id@)->0.len() ==> stored_ids(store@, project_id@)->0[k] < r,
{
    let ids = get_stored_requests_ids(store, project_id);
    next_request_id(ids.as_slice())
}

/// The project that was open last, or empty text.
pub fn get_stored_current_project(store: &LocalStore) -> (r: String)
    requires
        store.wf(),
    ensures
        r@ == value_or(store@, current_project_key(), Seq::empty()),
{
    proof {
        reveal_strlit("rc_current_project");
    }
    store.get_value("rc_current_project", String::new())
}

/// Remembers the project that is open.
pub fn set_stored_current_project(store: &mut LocalStore, value: String)
    requires
        old(store).wf(),
    ensures
        final(store).wf(),
        final(store)@ == old(store)@.insert(current_project_key(), value@),
{
    proof {
        reveal_strlit("rc_current_project");
    }
    store.set_value("rc_current_project", value)
}

/// The stored value of `field` of request `request_id` of `project_id`, or
/// `default`.
pub fn get_stored_value(
    store: &LocalStore,
    field: RequestFieldKind,
    default: String,
    project_id: &str,
    request_id: i32,
) -> (r: String)
    requires
        store.wf(),
    ensures
        r@ == value_or(store@, request_stored_key(project_id@, request_id as int, field_name(field)), default@),
{
    let key = field_key(field, project_id, request_id);
    store.get_value(key.as_str(), default)
}

/// Stores `value` as `field` of request `request_id` of `project_id`;
/// request `0` stands for "no request" and leaves the store as it is.
pub fn set_stored_value(
    store: &mut LocalStore,
    project_id: &str,
    request_id: i32,
    field: RequestFieldKind,
    value: String,
)
    requires
        old(store).wf(),
    ensures
        final(store).wf(),
        request_id == 0 ==> final(store)@ == old(store)@,
        request_id != 0 ==> final(store)@ == old(store)@.insert(
            request_stored_key(project_id@, request_id as int, field_name(field)),
            value@,
        ),
{
    match stored_value_key(project_id, request_id, field) {
        Some(key) => store.set_value(key.as_str(), value),
        None => {},
    }
}

/// Removes `field` of request `request_id` of `project_id` from the store.
pub fn delete_stored_value(store: &mut LocalStore, project_id: &str, request_id: i32, field: RequestFieldKind)
    requires
        old(store).wf(),
    ensures
        final(store).wf(),
        final(store)@ == old(store)@.remove(request_stored_key(project_id@, request_id as int, field_name(field))),
{
    let key = field_key(field, project_id, request_id);
    store.delete_value(key.as_str())
}

/// What a written field reads back as: writing a field of a request and then
/// reading it gives the written value, and writing one field leaves every
/// other field of every request of the project as it was.
pub proof fn lemma_field_write_read(
    m: Map<Seq<char>, Seq<char>>,
    project: Seq<char>,
    id: i32,
    field: RequestFieldKind,
    value: Seq<char>,
    other_id: i32,
    other: RequestFieldKind,
    default: Seq<char>,
)
    requires
        id != 0,
    ensures
        value_or(m.insert(request_stored_key(project, id as int, field_name(field)), value), request_stored_key(project, id as int, field_name(field)), default) == value,
        (other_id != id || other != field) ==> value_or(
            m.insert(request_stored_key(project, id as int, field_name(field)), value),
            request_stored_key(project, other_id as int, field_name(other)),
            default,
        ) == value_or(m, request_stored_key(project, other_id as int, field_name(other)), default),
{
    if request_stored_key(project, id as int, field_name(field)) == request_stored_key(project, other_id as int, field_name(other)) {
        lemma_request_keys_distinct(project, id, field_name(field), other_id, field_name(other));
        lemma_field_name_round_trip(field);
        lemma_field_name_round_trip(other);
    }
}

/// No field of a request is stored under the key of the project's list of
/// request ids.
pub proof fn lemma_ids_key_not_field_key(project: Seq<char>, id: i32, f: RequestFieldKind)
    ensures
        request_stored_key(project, id as int, field_name(f)) != requests_ids_key(project),
{
    if project == "0"@ && id == 0 {
        reveal_strlit("0");
        reveal_strlit("-");
        reveal_strlit("-rc_");
        reveal_strlit("requests_ids");
        reveal_strlit("url");
        reveal_strlit("name");
        reveal_strlit("method");
        reveal_strlit("body");
        reveal_strlit("headers");
        reveal_strlit("save_response");
        reveal_strlit("body_type");
        reveal_strlit("params_tab");
        reveal_strlit("body_formencoded");
        reveal_strlit("save_response_data");
        reveal_strlit("headers_height");
        reveal_strlit("formatting");
        lemma_dec_int_shape(0);
        assert(dec_int(0) =~= "0"@) by {
            reveal_with_fuel(crate::decimal::dec_nat, 2);
        }
        assert(field_name(f).len() != 12);
        assert(request_stored_key(project, id as int, field_name(f)).len() != requests_ids_key(project).len());
    } else {
        lemma_request_key_not_project_key(project, id, field_name(f), "requests_ids"@);
    }
}

} // verus!
