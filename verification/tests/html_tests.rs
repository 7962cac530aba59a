use webdev_tools::rest_client::model::request_header::{RequestHeader, RequestHeaders};
use webdev_tools::rest_client::ui::request_cookies_panel::{
    cookie_header_update, cookie_header_value, cookie_items, cookies_to_reload, parse_cookies,
};
use webdev_tools::rest_client::ui::request_query_panel::{query_items_of, query_url_update, url_changed};
use webdev_tools::rest_client::ui::request_result_previewer::{
    preview_cookies, previewer_reload_cookie, previewer_src, previewer_src_doc,
};
use webdev_tools::rest_client::util::dom_helper::absolute_head_link;
use webdev_tools::rest_client::util::html_previewer;
use webdev_tools::rest_client::util::html_utils;
use webdev_tools::rest_client::util::link_rewrite::HostInfo;

fn s(x: &str) -> String {
    x.to_string()
}

fn host() -> HostInfo {
    HostInfo { scheme: s("https"), host: s("localhost"), port: Some(8080) }
}

#[test]
fn base_url_drops_query() {
    assert_eq!(html_utils::build_base_url("http://example.com/a/b?x=1"), "http://example.com/a/b");
    assert_eq!(html_utils::build_base_url("not a url"), "not a url");
}

#[test]
fn base_tag_added_once() {
    let mut html = s("<html><head><title>t</title></head></html>");
    html_utils::add_head_base_tag(&mut html, "http://a.com/x?q=1");
    assert_eq!(html, "<html><head><base href=\"http://a.com/x\" target=\"_blank\"><title>t</title></head></html>");
    let before = html.clone();
    html_utils::add_head_base_tag(&mut html, "http://b.com/");
    assert_eq!(html, before);
    let mut no_head = s("<p>x</p>");
    html_utils::add_head_base_tag(&mut no_head, "http://a.com/");
    assert_eq!(no_head, "<p>x</p>");
}

#[test]
fn absolute_links_go_through_host() {
    let mut html = s("<a href=\"http://example.com/p\">x</a><a href=\"/rel\">y</a>");
    html_utils::replace_absolute_links(&mut html, &host());
    assert_eq!(
        html,
        "<a href=\"https://localhost:8080/p?rc_base_url=http%3A%2F%2Fexample.com%2Fp\">x</a><a href=\"/rel\">y</a>"
    );
}

#[test]
fn preview_links_rewritten() {
    let mut html = s("<img src=\"img/a.png\"><img src=\"/x.png\"><img src=\"https://cdn.x/i.png\">");
    html_previewer::replace_absolute_links(&mut html, "http://site.com/dir/page.html", &Some(host()));
    assert_eq!(
        html,
        "<img src=\"/dir/img/a.png\"><img src=\"/x.png\"><img src=\"https://localhost:8080/i.png?rc_src_url=https%3A%2F%2Fcdn.x%2Fi.png\">"
    );
}

#[test]
fn preview_scripts_after_head() {
    let mut html = s("<head></head>");
    html_previewer::add_preview_scripts(&mut html, "var a;");
    assert_eq!(html, "<head><script lang=\"javascript\">var a;</script></head>");
}

#[test]
fn previewer_cookies() {
    let c = html_previewer::init_html_previewer(true, "http://a.com/x?y=2").unwrap();
    assert_eq!(c.name, "rc_base_url");
    assert_eq!(c.value, "http://a.com/x");
    assert!(c.days.is_none());
    assert!(html_previewer::init_html_previewer(false, "http://a.com/").is_none());
    assert_eq!(html_previewer::clear_html_previewer(), (s("rc_base_url"), s("/")));
}

#[test]
fn previewer_frame_source() {
    assert_eq!(previewer_src_doc("<head></head>", "http://a.com/?q", true), None);
    assert_eq!(
        previewer_src_doc("<head></head>", "http://a.com/?q", false),
        Some(s("<head><base href=\"http://a.com/\" target=\"_blank\"></head>"))
    );
    let src = previewer_src("http://a.com/p", &Some(host()), "rc_src_url", &Some((s("rc_req"), s("{}"))));
    assert_eq!(src, Some(s("https://localhost:8080/p?rc_src_url=http%3A%2F%2Fa.com%2Fp&rc_req=%7B%7D")));
    assert_eq!(previewer_src("http://a.com/p", &None, "rc_src_url", &None), None);
    assert_eq!(previewer_src("nope", &Some(host()), "rc_src_url", &None), None);
    let c = previewer_reload_cookie("http://localhost:8080/p?x=1", "https://site.com/").unwrap();
    assert_eq!(c.value, "https://site.com:8080/p");
}

#[test]
fn cookies_parsed_and_written() {
    let cs = parse_cookies("a=1; b = 2;c;=x");
    assert_eq!(cs, vec![(s("a"), s("1")), (s("b "), s(" 2")), (s(""), s("x"))]);
    let items = cookie_items("a=1; b=2");
    assert_eq!(cookie_header_value(&items), "a=1; b=2");
    assert_eq!(parse_cookies(&cookie_header_value(&items)), vec![(s("a"), s("1")), (s("b"), s("2"))]);
}

#[test]
fn cookie_header_reload_and_update() {
    let mut prev = RequestHeaders::new();
    prev.push(RequestHeader::new(s("Accept"), s("*/*")));
    let mut actual = RequestHeaders::new();
    actual.push(RequestHeader::new(s("COOKIE"), s("a=1")));
    assert_eq!(cookies_to_reload(&prev, &actual), Some(s("a=1")));
    assert_eq!(cookies_to_reload(&actual, &actual), None);
    let items = cookie_items("a=2; z=9");
    let upd = cookie_header_update(&actual, &items).unwrap();
    assert_eq!(upd.1, "a=2; z=9");
    assert_eq!(upd.0, actual.vec_owned()[0].id);
    assert!(cookie_header_update(&prev, &items).is_none());
}

#[test]
fn preview_cookie_list_decodes() {
    let mut h = RequestHeaders::new();
    h.push(RequestHeader::new(s("Cookie"), s("a=b%20c; d=e;noeq")));
    h.push(RequestHeader::new(s("X"), s("y=z")));
    assert_eq!(preview_cookies(&h), vec![(s("a"), s("b c")), (s("d"), s("e"))]);
}

#[test]
fn query_items_and_url() {
    let items = query_items_of("http://a.com/p?x=1&y=two%20words").unwrap();
    let v = items.vec_owned();
    assert_eq!(v.len(), 2);
    assert_eq!((v[1].name.as_str(), v[1].value.as_str()), ("y", "two words"));
    assert!(query_items_of("::bad").is_none());
    assert_eq!(query_url_update("http://a.com/p?x=1&y=two+words", &items), None);
    let mut more = items;
    more.push(RequestHeader::new(s("z"), s("&")));
    assert_eq!(
        query_url_update("http://a.com/p?x=1&y=two+words", &more),
        Some(s("http://a.com/p?x=1&y=two+words&z=%26"))
    );
    assert!(url_changed(&None, "a"));
    assert!(!url_changed(&Some(s("a")), "a"));
}

#[test]
fn head_links_resolved() {
    assert_eq!(absolute_head_link("https://x.com/s.css", "https://example.com/a/"), None);
    assert_eq!(
        absolute_head_link("/style.css", "https://example.com/a/"),
        Some(s("https://example.com/style.css"))
    );
}
