use webdev_tools::local_store::LocalStore;
use webdev_tools::rest_client::ui::request_helper;
use webdev_tools::rest_client::util::request_store::{
    build_project_stored_key, build_request_stored_key, copy_stored_request, delete_stored_request,
    generate_request_id, get_stored_current_project, get_stored_requests_ids, get_stored_value,
    join_ids, next_request_id, parse_requests_ids, set_stored_current_project, set_stored_requests_ids,
    set_stored_value, RequestFieldKind,
};

fn s(x: &str) -> String {
    x.to_string()
}

#[test]
fn store_get_set_delete() {
    let mut store = LocalStore::new();
    assert_eq!(store.get_value("a", s("dflt")), "dflt");
    store.set_value("a", s("1"));
    store.set_value("b", s("2"));
    store.set_value("a", s("3"));
    assert_eq!(store.get_value("a", s("")), "3");
    assert_eq!(store.get_value("b", s("")), "2");
    store.delete_value("a");
    assert_eq!(store.get_value("a", s("gone")), "gone");
    assert_eq!(store.entries().len(), 1);
}

#[test]
fn store_from_entries_later_wins() {
    let store = LocalStore::from_entries(vec![(s("k"), s("first")), (s("x"), s("y")), (s("k"), s("second"))]);
    assert_eq!(store.get_value("k", s("")), "second");
    assert_eq!(store.entries().len(), 2);
}

#[test]
fn request_keys_layout() {
    assert_eq!(build_request_stored_key("", 5, "url"), "5-rc_url");
    assert_eq!(build_request_stored_key("0", 5, "url"), "5-rc_url");
    assert_eq!(build_request_stored_key("7", 5, "url"), "7-5-rc_url");
    assert_eq!(build_request_stored_key("7", -2, "name"), "7--2-rc_name");
    assert_eq!(build_project_stored_key("", "requests_ids"), "rc_requests_ids");
    assert_eq!(build_project_stored_key("7", "requests_ids"), "7-rc_requests_ids");
}

#[test]
fn ui_keys_without_zero_default() {
    assert_eq!(webdev_tools::rest_client::ui::build_rc_req_store_key("0", 5, "url"), "0-5-rc_url");
    assert_eq!(request_helper::build_rc_req_store_key("0", 5, "url"), "5-rc_url");
}

#[test]
fn ids_written_and_read_back() {
    assert_eq!(join_ids(&[3, -1, 12]), "3,-1,12");
    assert_eq!(parse_requests_ids("3,-1,12"), Some(vec![3, -1, 12]));
    assert_eq!(parse_requests_ids(""), Some(vec![]));
    assert_eq!(parse_requests_ids("3,,4"), None);
    assert_eq!(parse_requests_ids("+7"), Some(vec![7]));
    let mut store = LocalStore::new();
    set_stored_requests_ids(&mut store, "p", &[4, 9, 2]);
    assert_eq!(store.get_value("p-rc_requests_ids", s("")), "4,9,2");
    assert_eq!(get_stored_requests_ids(&store, "p"), vec![4, 9, 2]);
    assert_eq!(generate_request_id(&store, "p"), 10);
    set_stored_requests_ids(&mut store, "p", &[]);
    assert_eq!(store.get_value("p-rc_requests_ids", s("none")), "none");
    assert_eq!(get_stored_requests_ids(&store, "p"), Vec::<i32>::new());
    assert_eq!(generate_request_id(&store, "p"), 1);
}

#[test]
fn next_id_is_above_all() {
    assert_eq!(next_request_id(&[]), 1);
    assert_eq!(next_request_id(&[5, 2, 8]), 9);
    assert_eq!(next_request_id(&[-4, -9]), -3);
}

#[test]
fn fields_written_read_and_deleted() {
    let mut store = LocalStore::new();
    set_stored_value(&mut store, "p", 3, RequestFieldKind::Url, s("http://x"));
    set_stored_value(&mut store, "p", 3, RequestFieldKind::Method, s("POST"));
    set_stored_value(&mut store, "p", 0, RequestFieldKind::Url, s("ignored"));
    set_stored_value(&mut store, "p", 4, RequestFieldKind::Url, s("other"));
    assert_eq!(get_stored_value(&store, RequestFieldKind::Url, s(""), "p", 3), "http://x");
    assert_eq!(get_stored_value(&store, RequestFieldKind::Url, s("d"), "p", 0), "d");
    assert_eq!(store.get_value("p-3-rc_method", s("")), "POST");
    delete_stored_request(&mut store, "p", 3);
    assert_eq!(get_stored_value(&store, RequestFieldKind::Url, s("d"), "p", 3), "d");
    assert_eq!(get_stored_value(&store, RequestFieldKind::Method, s("d"), "p", 3), "d");
    assert_eq!(get_stored_value(&store, RequestFieldKind::Url, s("d"), "p", 4), "other");
}

#[test]
fn copy_request_fields() {
    let mut store = LocalStore::new();
    set_stored_value(&mut store, "p", 1, RequestFieldKind::Url, s("u1"));
    set_stored_value(&mut store, "p", 1, RequestFieldKind::Body, s("b1"));
    copy_stored_request(&mut store, "p", 1, "p", 2);
    assert_eq!(get_stored_value(&store, RequestFieldKind::Url, s(""), "p", 2), "u1");
    assert_eq!(get_stored_value(&store, RequestFieldKind::Body, s(""), "p", 2), "b1");
    // a field with nothing stored is copied as empty text
    assert_eq!(get_stored_value(&store, RequestFieldKind::Name, s("none"), "p", 2), "");
    assert_eq!(get_stored_value(&store, RequestFieldKind::Url, s(""), "p", 1), "u1");
}

#[test]
fn current_project_round_trip() {
    let mut store = LocalStore::new();
    assert_eq!(get_stored_current_project(&store), "");
    set_stored_current_project(&mut store, s("12"));
    assert_eq!(get_stored_current_project(&store), "12");
    assert_eq!(store.get_value("rc_current_project", s("")), "12");
}

#[test]
fn field_names() {
    assert_eq!(RequestFieldKind::SaveResponseData.as_str(), "save_response_data");
    assert_eq!(RequestFieldKind::from_name("params_tab"), Some(RequestFieldKind::ParamsTab));
    assert_eq!(RequestFieldKind::from_name("nope"), None);
    assert_eq!(RequestFieldKind::all().len(), 12);
}

#[test]
fn helper_flags_and_deletes() {
    let mut store = LocalStore::new();
    assert!(request_helper::get_stored_value_as_bool(&store, "insecure", true, "0", 5));
    assert!(!request_helper::get_stored_value_as_bool(&store, "insecure", false, "0", 5));
    request_helper::set_stored_value(&mut store, "0", 5, "insecure", s("yes"));
    assert!(!request_helper::get_stored_value_as_bool(&store, "insecure", true, "0", 5));
    request_helper::set_stored_value(&mut store, "0", 5, "insecure", s("true"));
    assert!(request_helper::get_stored_value_as_bool(&store, "insecure", false, "0", 5));
    assert_eq!(store.get_value("5-rc_insecure", s("")), "true");
    request_helper::delete_request(&mut store, "0", 5);
    assert_eq!(request_helper::get_stored_value(&store, "insecure", s("gone"), "0", 5), "gone");
}

#[test]
fn ui_save_writes_empty_list() {
    let mut store = LocalStore::new();
    webdev_tools::rest_client::ui::save_requests_ids(&mut store, "", &[]);
    assert_eq!(store.get_value("rc_requests_ids", s("none")), "");
    assert_eq!(webdev_tools::rest_client::ui::load_requests_ids(&store, ""), Vec::<i32>::new());
    request_helper::save_requests_ids(&mut store, "", &[]);
    assert_eq!(store.get_value("rc_requests_ids", s("none")), "none");
}
