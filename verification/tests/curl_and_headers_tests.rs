use webdev_tools::rest_client::model::request_body_form::{RequestBodyFormValue, RequestBodyFormValues};
use webdev_tools::rest_client::model::request_body_kind::RequestBodyKind;
use webdev_tools::rest_client::model::request_header::{RequestHeader, RequestHeaders};
use webdev_tools::rest_client::model::request_params::RequestParams;
use webdev_tools::rest_client::util::curl_builder::{build_curl_bash_cmd, build_curl_win_cmd, escape_string, win_cmd_escape};

fn s(x: &str) -> String {
    x.to_string()
}

fn params(url: &str, method: &str, body: &str) -> RequestParams {
    let mut p = RequestParams::new();
    p.url = s(url);
    p.method = s(method);
    p.body = s(body);
    p
}

#[test]
fn curl_get_without_headers() {
    let p = params("http://x/a", "GET", "");
    assert_eq!(build_curl_bash_cmd(&p), "curl 'http://x/a'");
}

#[test]
fn curl_post_adds_content_type_and_body() {
    let mut p = params("http://x/a", "POST", "{\"a\":1}");
    p.body_type = RequestBodyKind::Json;
    assert_eq!(
        build_curl_bash_cmd(&p),
        "curl 'http://x/a' \\\r\n-X POST \\\r\n-H 'Content-Type: application/json' \\\r\n--data-raw '{\\\"a\\\":1}'"
    );
}

#[test]
fn curl_windows_escapes() {
    let mut p = params("http://x/a?b=1&c=2", "GET", "");
    p.headers.push(RequestHeader::new(s("X-P"), s("50%")));
    assert_eq!(
        build_curl_win_cmd(&p),
        "curl.exe ^\"http://x/a?b=1^&c=2^\" ^\r\n-H ^\"X-P: 50^%^^\""
    );
}

#[test]
fn escapes() {
    assert_eq!(escape_string("a\"b\\c\nd\re\tf"), "a\\\"b\\\\c\\nd\\re\\tf");
    assert_eq!(win_cmd_escape("a&b|c<d>e\\f\"g"), "a^&b^|c^<d^>e^\\f^\"g");
    assert_eq!(win_cmd_escape("x^\r\ny^z"), "x^\r\ny^^z");
    assert_eq!(win_cmd_escape("100%"), "100^%^");
}

#[test]
fn curl_form_body() {
    let mut p = params("http://x/f", "POST", "");
    p.body_type = RequestBodyKind::Formencoded;
    p.body_formencoded.push(RequestBodyFormValue::new(s("a b"), s("1&2")));
    let cmd = build_curl_bash_cmd(&p);
    assert!(cmd.ends_with("--data-raw 'a+b=1%262'"));
}

#[test]
fn headers_stored_text_round_trip() {
    let h = RequestHeaders::from_stored_value("Accept:application/json\r\nbad line\nX-A:b:c");
    let v = h.vec_owned();
    assert_eq!(v.len(), 2);
    assert_eq!(v[0].name, "Accept");
    assert_eq!(v[0].value, "application/json");
    assert_eq!(v[1].name, "X-A");
    assert_eq!(v[1].value, "b:c");
    assert_eq!(h.to_string(), "Accept:application/json\nX-A:b:c");
    let again = RequestHeaders::from_stored_value(&h.to_string());
    assert_eq!(again.to_string(), h.to_string());
}

#[test]
fn headers_content_type_and_add() {
    let mut h = RequestHeaders::new();
    assert_eq!(h.try_add(s("Content-TYPE"), s("text/xml")), Ok(true));
    assert_eq!(h.content_type(), Some(s("text/xml")));
    assert_eq!(h.try_add(s("content-type"), s("x")), Ok(false));
    assert_eq!(h.try_add(s("bad name"), s("x")), Err(s("invalid HTTP header name")));
    assert_eq!(h.len(), 1);
}

#[test]
fn form_values_encodings() {
    let mut f = RequestBodyFormValues::new();
    f.push(RequestBodyFormValue::new(s("a"), s("1 2")));
    f.push(RequestBodyFormValue::new(s("b"), s("x/y")));
    assert_eq!(f.to_urlencoded_string(), Ok(s("a=1+2&b=x%2Fy")));
    let json = f.to_json();
    assert_eq!(json, "[[\"a\",\"1 2\"],[\"b\",\"x/y\"]]");
    let back = RequestBodyFormValues::from_stored_value(&json);
    assert_eq!(back.to_json(), json);
    assert_eq!(RequestBodyFormValues::from_stored_value("not json").len(), 0);
}

#[test]
fn body_kinds() {
    assert_eq!(RequestBodyKind::Json.content_type(), "application/json");
    assert_eq!(RequestBodyKind::from_content_type("Application/XML"), RequestBodyKind::Xml);
    assert_eq!(RequestBodyKind::from_name("formencoded"), RequestBodyKind::Formencoded);
    assert_eq!(RequestBodyKind::Formencoded.as_str(), "formencoded");
}
