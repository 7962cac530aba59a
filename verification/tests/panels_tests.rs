use webdev_tools::local_store::LocalStore;
use webdev_tools::model::restclient::rest_client_response::{RestClientResponse, RestClientResponseBody};
use webdev_tools::model::share_file::share_file_server::ShareFileServerDto;
use webdev_tools::rest_client::model::request_body_kind::RequestBodyKind;
use webdev_tools::rest_client::model::request_header::RequestHeader;
use webdev_tools::rest_client::model::request_info::{RequestCommand, RequestInfo};
use webdev_tools::rest_client::model::request_params::RequestParams;
use webdev_tools::rest_client::model::rest_client_context::RestClientContext;
use webdev_tools::rest_client::req_params_headers_panel::{
    add_custom_header, remove_custom_header, restore_custom_headers, save_custom_headers, CustomHeader,
};
use webdev_tools::rest_client::req_params_panel::{build_panel_request, load_req_panel_state};
use webdev_tools::rest_client::rest_client_response_panel::{panel_view, stored_formatting, RestClientPanelData};
use webdev_tools::rest_client::ui::request_params_panel::{body_kind_of_tab, body_tab_of};
use webdev_tools::rest_client::ui::request_params_url::{build_send_request, is_cancelled, selection_reaction, SelectionReaction};
use webdev_tools::rest_client::ui::request_raw_panel::curl_for_command;
use webdev_tools::rest_client::ui::request_result_panel::{
    body_format, get_media_type_code, render_headers, result_of_response, BodyFormat,
};
use webdev_tools::share_file::share_file_upload_page::{
    get_media_content_type, server_options, share_qr_code, shared_file_url, text_upload_file_name,
    upload_outcome, upload_target, UploadResult, MAX_FILE_SIZE,
};
use webdev_tools::share_file::share_file_view_page::{download_url, get_mime_code_lang, local_flag, shown_text_lang};

fn s(x: &str) -> String {
    x.to_string()
}

fn media_types() -> Vec<(String, String)> {
    vec![(s("json"), s("json")), (s("xml"), s("xml")), (s("html"), s("html"))]
}

#[test]
fn media_codes() {
    assert_eq!(get_media_type_code("Application/JSON; charset=utf-8", &media_types()), Some(s("json")));
    assert_eq!(get_media_type_code("image/png", &media_types()), None);
}

#[test]
fn result_of_text_response() {
    let resp = RestClientResponse {
        status_code: 404,
        headers: vec![(s("Server"), s("x")), (s("Content-Type"), s("text/xml"))],
        body: RestClientResponseBody::Text(s("<a/>")),
        request_raw: s("GET /"),
        error: None,
    };
    let r = result_of_response(&Some(resp), "http://u", &media_types());
    assert_eq!(r.status_code, "404");
    assert_eq!(r.lang, "xml");
    assert_eq!(r.body, "<a/>");
    assert_eq!(r.attachment, (s(""), s("")));
    assert_eq!(r.headers.len(), 2);
    assert_eq!(r.request_raw, "GET /");
    let att = RestClientResponse {
        status_code: 200,
        headers: vec![],
        body: RestClientResponseBody::Attachment(s("f.zip")),
        request_raw: s(""),
        error: None,
    };
    let r = result_of_response(&Some(att), "http://u", &media_types());
    assert_eq!(r.attachment, (s("http://u"), s("f.zip")));
    assert_eq!(r.lang, "");
    let none = result_of_response(&None, "http://u", &media_types());
    assert_eq!(none.status_code, "");
    let plain = RestClientResponse::default();
    assert_eq!(plain.body, RestClientResponseBody::Empty);
    let r = result_of_response(&Some(RestClientResponse { body: RestClientResponseBody::Text(s("hi")), ..RestClientResponse::default() }), "", &media_types());
    assert_eq!(r.lang, "html");
    assert_eq!(r.status_code, "0");
}

#[test]
fn formats_and_rows() {
    assert_eq!(body_format(true, "json"), BodyFormat::Json);
    assert_eq!(body_format(false, "json"), BodyFormat::AsIs);
    assert_eq!(body_format(true, "html"), BodyFormat::AsIs);
    assert_eq!(
        render_headers(&vec![(s("a"), s("1")), (s("b"), s("2"))]),
        "<div class=\"flex flex-row gap-4\"><div class=\"w-1/3\">a</div><div class=\"w-full\">1</div></div>\n<div class=\"flex flex-row gap-4\"><div class=\"w-1/3\">b</div><div class=\"w-full\">2</div></div>"
    );
    assert_eq!(
        webdev_tools::rest_client::rest_client_response_panel::render_headers(&vec![(s("a"), s("1"))]),
        "<div>a</div><div>1</div>"
    );
}

#[test]
fn send_request_built() {
    let mut p = RequestParams::new();
    p.url = s("http://x");
    p.method = s("PUT");
    p.body = s("<a/>");
    p.body_type = RequestBodyKind::Xml;
    p.headers.push(RequestHeader::new(s("X"), s("1")));
    let q = build_send_request(&p).unwrap();
    assert_eq!(q.headers, vec![(s("Content-Type"), s("application/xml")), (s("X"), s("1"))]);
    assert_eq!(q.body, "<a/>");
    assert_eq!(q.method, "PUT");
    assert_eq!(selection_reaction(true, RequestCommand::Run), SelectionReaction::Abort);
    assert_eq!(selection_reaction(false, RequestCommand::Run), SelectionReaction::Send);
    assert_eq!(selection_reaction(false, RequestCommand::Idle), SelectionReaction::Keep);
    assert!(is_cancelled("JsValue(AbortError: aborted)"));
    assert!(!is_cancelled("network"));
}

#[test]
fn raw_panel_commands() {
    let mut p = RequestParams::new();
    p.url = s("http://x");
    p.method = s("GET");
    let mut c = RequestCommand::CopyCUrl;
    assert_eq!(curl_for_command(&mut c, &p), Some(s("curl 'http://x'")));
    assert_eq!(c, RequestCommand::Idle);
    let mut c = RequestCommand::Run;
    assert_eq!(curl_for_command(&mut c, &p), None);
    assert_eq!(c, RequestCommand::Idle);
}

#[test]
fn body_tabs() {
    for k in [RequestBodyKind::Json, RequestBodyKind::Xml, RequestBodyKind::Text, RequestBodyKind::Formencoded] {
        assert_eq!(body_kind_of_tab(body_tab_of(k)), k);
    }
    assert_eq!(body_kind_of_tab(9), RequestBodyKind::Json);
}

#[test]
fn custom_headers_kept() {
    let mut hs: Vec<CustomHeader> = Vec::new();
    assert!(add_custom_header(&mut hs, " X-One ", "1", false));
    assert!(!add_custom_header(&mut hs, "x-one", "2", false));
    assert!(!add_custom_header(&mut hs, "Accept", "2", true));
    assert!(!add_custom_header(&mut hs, "  ", "2", false));
    assert!(!add_custom_header(&mut hs, "X-Two", "", false));
    assert!(add_custom_header(&mut hs, "X-Two", "2", false));
    assert_eq!((hs[0].id, hs[1].id), (1, 2));
    let mut store = LocalStore::new();
    save_custom_headers(&mut store, &hs);
    assert_eq!(store.get_value("rc_custom_headers", s("")), " X-One :1\nX-Two:2");
    let back = restore_custom_headers(&store);
    assert_eq!(back.len(), 2);
    assert_eq!((back[1].id, back[1].name.as_str(), back[1].value.as_str()), (2, "X-Two", "2"));
    remove_custom_header(&mut hs, 1);
    assert_eq!(hs.len(), 1);
    assert_eq!(hs[0].name, "X-Two");
}

#[test]
fn request_page_state_and_request() {
    let mut store = LocalStore::new();
    store.set_value("rc_url", s("http://u"));
    let st = load_req_panel_state(&store, "en-US");
    assert_eq!(st.method, "GET");
    assert_eq!(st.user_agent, "WebDevUsefulTools Client");
    assert_eq!(st.accept_lang, "en-US");
    let hs = vec![CustomHeader { id: 1, name: s("X"), value: s("y") }];
    let q = build_panel_request(&st, &hs);
    assert_eq!(q.url, "http://u");
    assert_eq!(
        q.headers,
        vec![(s("accept_language"), s("en-US")), (s("user-agent"), s("WebDevUsefulTools Client")), (s("X"), s("y"))]
    );
}

#[test]
fn response_panel_view() {
    let v = panel_view(&None, &media_types());
    assert_eq!(v.lang, "html");
    let d = RestClientPanelData { status_code: 201, body: s("{}"), headers: vec![(s("content-type"), s("application/json"))] };
    let v = panel_view(&Some(d), &media_types());
    assert_eq!((v.status.as_str(), v.lang.as_str()), ("201", "json"));
    let mut store = LocalStore::new();
    assert!(stored_formatting(&store));
    store.set_value("rc_formatting", s("false"));
    assert!(!stored_formatting(&store));
}

#[test]
fn share_upload_rules() {
    assert_eq!(upload_target(""), ("/share_file_upload", MAX_FILE_SIZE));
    assert_eq!(upload_target("http://srv"), ("/share_local_file_upload", usize::MAX));
    assert_eq!(MAX_FILE_SIZE, 5 * 1024 * 1024);
    assert_eq!(get_media_content_type("xml"), "application/xml");
    assert_eq!(get_media_content_type("text"), "text/plain");
    assert_eq!(text_upload_file_name("json"), "data.json");
    assert_eq!(shared_file_url("", "https://h", "42"), "https://h/share_file/view?id=42");
    assert_eq!(shared_file_url("http://c", "https://h", "42"), "http://c/share_file/view?id=42&local=true");
    let (r, u) = upload_outcome(200, "OK", Ok(s("7")), "", "https://h");
    assert!(matches!(r, UploadResult::Success));
    assert_eq!(u, Some(s("https://h/share_file/view?id=7")));
    let (r, u) = upload_outcome(500, "Internal Server Error", Ok(s("7")), "", "https://h");
    assert!(matches!(r, UploadResult::Error(ref e) if e == "Internal Server Error"));
    assert!(u.is_none());
    let opts = server_options(&vec![ShareFileServerDto { url: s("http://c"), description: s("C") }]);
    assert_eq!(opts, vec![(Some(s("http://c")), s("C"))]);
    let svg = share_qr_code("https://h/share_file/view?id=7").unwrap();
    assert!(svg.starts_with("<svg"));
}

#[test]
fn share_view_rules() {
    assert_eq!(get_mime_code_lang("text/plain"), Some("text"));
    assert_eq!(get_mime_code_lang("application/ld+json"), Some("json"));
    assert_eq!(get_mime_code_lang("image/png"), None);
    assert!(local_flag(&Some(s("true"))));
    assert!(!local_flag(&Some(s("yes"))));
    assert_eq!(download_url("5", true), "/share_local_file_download?id=5");
    assert_eq!(download_url("5", false), "/share_file_download?id=5");
    assert_eq!(shown_text_lang(200 * 1024, "text/plain"), None);
    assert_eq!(shown_text_lang(10, "text/xml"), Some("xml"));
}

#[test]
fn context_project_id() {
    let c = RestClientContext { project: s("17"), request: RequestInfo::new_empty() };
    assert_eq!(c.project_id(), 17);
    let c = RestClientContext { project: s("x"), request: RequestInfo::new_empty() };
    assert_eq!(c.project_id(), 0);
}
