use webdev_tools::url_encode::url_encode_page::{remember_src_url, service_of, stored_src_url, InProgressType};
use webdev_tools::rest_client::util::html_utils::add_head_base_tag;
use webdev_tools::local_store::LocalStore;
use webdev_tools::rest_client::model::request_body_form::{RequestBodyFormValue, RequestBodyFormValues};
use webdev_tools::rest_client::model::request_body_kind::RequestBodyKind;
use webdev_tools::rest_client::model::request_header::{add_nonblank, RequestHeader, RequestHeaders};
use webdev_tools::rest_client::model::request_info::RequestInfo;
use webdev_tools::rest_client::model::request_params::RequestParams;
use webdev_tools::rest_client::model::request_response::{saved_response_text, update_saved_response};
use webdev_tools::rest_client::ui::request_body_form_panel::add_form_value;
use webdev_tools::rest_client::ui::request_headers_panel::{rename_header, revalue_header};
use webdev_tools::rest_client::ui::request_panel::reloads_request;
use webdev_tools::rest_client::ui::request_result_attachment::attachment_request;
use webdev_tools::rest_client::ui::request_result_panel::{preview_sandbox, result_preview_doc};
use webdev_tools::rest_client::ui::request_result_previewer::preview_request;
use webdev_tools::rest_client::util::link_rewrite::HostInfo;
use webdev_tools::rest_client::util::request_store::{set_stored_value, RequestFieldKind};
use webdev_tools::rest_client::util::rest_client_utils::{body_form_to_string, formencoded_to_str};

fn s(x: &str) -> String {
    x.to_string()
}

#[test]
fn params_read_back_from_store() {
    let mut store = LocalStore::new();
    set_stored_value(&mut store, "p", 2, RequestFieldKind::Headers, s("A:1\nB:2"));
    set_stored_value(&mut store, "p", 2, RequestFieldKind::Body, s("hello"));
    set_stored_value(&mut store, "p", 2, RequestFieldKind::BodyType, s("json"));
    set_stored_value(&mut store, "p", 2, RequestFieldKind::ParamsTab, s("1"));
    set_stored_value(&mut store, "p", 2, RequestFieldKind::BodyFormencoded, s("[[\"k\",\"v\"]]"));
    let mut p = RequestParams::new();
    p.url = s("http://keep");
    p.read_from_store(&store, "p", 2, 2);
    assert_eq!(p.url, "http://keep");
    assert_eq!(p.headers.to_string(), "A:1\nB:2");
    assert_eq!(p.body, "hello");
    assert_eq!(p.body_type, RequestBodyKind::Json);
    assert_eq!(p.params_tab_selected, 1);
    assert!(!p.save_response);
    assert!(p.formatting);
    assert_eq!(p.body_formencoded.to_json(), "[[\"k\",\"v\"]]");
}

#[test]
fn saved_response_kept_and_dropped() {
    let mut store = LocalStore::new();
    update_saved_response(&mut store, "p", 3, true, Some(s("{\"status_code\":200}")));
    assert_eq!(saved_response_text(&store, "p", 3), Some(s("{\"status_code\":200}")));
    update_saved_response(&mut store, "p", 3, false, Some(s("{}")));
    assert_eq!(saved_response_text(&store, "p", 3), None);
}

#[test]
fn header_edits_checked() {
    let mut h = RequestHeaders::new();
    h.push(RequestHeader::new(s("A"), s("1")));
    let id = h.vec_owned()[0].id.clone();
    assert_eq!(rename_header(&mut h, &id, "bad name"), Err(s("invalid HTTP header name")));
    assert_eq!(rename_header(&mut h, &id, "B"), Ok(()));
    assert_eq!(revalue_header(&mut h, &id, "x\u{7f}"), Err(s("failed to parse header value")));
    assert_eq!(revalue_header(&mut h, &id, "2"), Ok(()));
    assert_eq!(h.to_string(), "B:2");
}

#[test]
fn entries_added_when_not_blank() {
    let mut items = RequestHeaders::new();
    assert!(add_nonblank(&mut items, s("a"), s("1")));
    assert!(!add_nonblank(&mut items, s(" "), s("1")));
    assert!(!add_nonblank(&mut items, s("b"), s("\t")));
    assert_eq!(items.len(), 1);
    let mut f = RequestBodyFormValues::new();
    assert!(add_form_value(&mut f, s("Key"), s("1")));
    assert!(!add_form_value(&mut f, s("KEY"), s("2")));
    assert!(!add_form_value(&mut f, s(""), s("2")));
    assert_eq!(f.len(), 1);
}

#[test]
fn panel_reload_rule() {
    let r = RequestInfo::new(4, 2, s("u"), s("n"), s("GET"));
    assert!(reloads_request(&None, &r, "2"));
    let same = RequestInfo::new(4, 2, s("v"), s("n"), s("POST"));
    assert!(!reloads_request(&Some(same), &r, "2"));
    let same = RequestInfo::new(4, 2, s("v"), s("n"), s("POST"));
    assert!(reloads_request(&Some(same), &r, "5"));
}

#[test]
fn attachment_and_preview_requests() {
    let mut p = RequestParams::new();
    p.headers.push(RequestHeader::new(s("Auth"), s("t")));
    p.body = s("b");
    let q = attachment_request(&p, &(s("http://f"), s("f.bin")));
    assert_eq!((q.method.as_str(), q.url.as_str(), q.body.as_str()), ("GET", "http://f", ""));
    assert_eq!(q.headers, vec![(s("Auth"), s("t"))]);
    let q = preview_request(&p, "POST").unwrap();
    assert_eq!((q.method.as_str(), q.url.as_str(), q.body.as_str()), ("POST", "", "b"));
}

#[test]
fn result_preview_document() {
    assert_eq!(preview_sandbox(true), "allow-scripts allow-popups allow-same-origin");
    assert_eq!(preview_sandbox(false), "allow-scripts allow-popups");
    let host = Some(HostInfo { scheme: s("http"), host: s("tool"), port: None });
    let (doc, cookie) = result_preview_doc("<a href=\"https://x.org/p\">", "http://site/a?b=1", true, &host);
    assert_eq!(doc, "<a href=\"http://tool/p?rc_src_url=https%3A%2F%2Fx.org%2Fp\">");
    let c = cookie.unwrap();
    assert_eq!((c.name.as_str(), c.value.as_str(), c.days), ("rc_base_url", "http://site/a", Some(30)));
    let (doc, cookie) = result_preview_doc("<head></head>", "http://site/a?b=1", false, &host);
    assert_eq!(doc, "<head><base href=\"http://site/a\" target=\"_blank\"></head>");
    assert!(cookie.is_none());
}

#[test]
fn form_value_texts() {
    let vs = vec![
        RequestBodyFormValue::new(s("a"), s("1")),
        RequestBodyFormValue::new(s("b"), s("2")),
        RequestBodyFormValue::new(s("a"), s("3")),
    ];
    assert_eq!(body_form_to_string(&vs), "[[\"a\",\"1\"],[\"b\",\"2\"],[\"a\",\"3\"]]");
    assert_eq!(formencoded_to_str(vs), Ok(s("a=3&b=2")));
}

#[test]
fn url_encode_page_state() {
    let mut store = LocalStore::new();
    assert_eq!(stored_src_url(&store), "");
    remember_src_url(&mut store, s("a b"));
    assert_eq!(stored_src_url(&store), "a b");
    assert_eq!(service_of(InProgressType::Decode), Some("/decode_url"));
    assert!(!InProgressType::Idle.is_active());
    assert!(InProgressType::Encode.is_active());
}

#[test]
fn base_tag_added_only_once() {
    let mut html = s("<head><meta></head><body></body>");
    add_head_base_tag(&mut html, "http://one/");
    let once = html.clone();
    add_head_base_tag(&mut html, "http://two/");
    assert_eq!(html, once);
    assert_eq!(once, "<head><base href=\"http://one/\" target=\"_blank\"><meta></head><body></body>");
}
