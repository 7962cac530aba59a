use webdev_tools::local_store::LocalStore;
use webdev_tools::rest_client::model::request_info::RequestInfo;
use webdev_tools::rest_client::ui::request_params::RestClientProject;
use webdev_tools::rest_client::ui::rest_client_explorer::{
    create_request, delete_project_requests, delete_request_entry, load_requests,
};
use webdev_tools::rest_client::ui::rest_client_explorer_row::{
    duplicate_request, get_method_color, rename_request, row_action, NameError, RowAction,
};
use webdev_tools::rest_client::ui::rest_client_project_selector::{
    apply_project_name, delete_project, generate_project_id, get_projects_options, project_name_for_rename,
    ProjectNameOutcome,
};
use webdev_tools::rest_client::util::request_store::{get_stored_requests_ids, get_stored_value, RequestFieldKind};

fn s(x: &str) -> String {
    x.to_string()
}

#[test]
fn create_and_load_requests() {
    let mut store = LocalStore::new();
    let mut list: Vec<RequestInfo> = Vec::new();
    let r1 = create_request(&mut list, &mut store, "3", "localhost:8080", "en");
    let r2 = create_request(&mut list, &mut store, "3", "localhost:8080", "en");
    assert_eq!((r1.id, r2.id), (1, 2));
    assert_eq!(r1.url, "http://localhost:8080/test_json");
    assert_eq!(r1.project_id, 3);
    assert_eq!(get_stored_requests_ids(&store, "3"), vec![1, 2]);
    assert_eq!(
        get_stored_value(&store, RequestFieldKind::Headers, s(""), "3", 2),
        "Accept:application/json\nAccept-Language:en\nUser-Agent:WebDevUsefulTools Client"
    );
    let loaded = load_requests(&store, "3");
    assert_eq!(loaded.len(), 2);
    assert_eq!(loaded[1].method, "GET");
    assert_eq!(loaded[0].url, "http://localhost:8080/test_json");
}

#[test]
fn rename_duplicate_delete() {
    let mut store = LocalStore::new();
    let mut list: Vec<RequestInfo> = Vec::new();
    create_request(&mut list, &mut store, "", "h", "en");
    create_request(&mut list, &mut store, "", "h", "en");
    assert_eq!(rename_request(&mut list, &mut store, "", 1, "  First "), Ok(()));
    assert_eq!(list[0].name, "First");
    assert_eq!(get_stored_value(&store, RequestFieldKind::Name, s(""), "", 1), "  First ");
    assert_eq!(rename_request(&mut list, &mut store, "", 2, "first"), Err(NameError::AlreadyExists));
    assert_eq!(rename_request(&mut list, &mut store, "", 2, "   "), Err(NameError::Empty));
    let copy = duplicate_request(&mut list, &mut store, "", 1).unwrap();
    assert_eq!(copy.id, 3);
    assert_eq!(copy.name, "First");
    assert_eq!(get_stored_value(&store, RequestFieldKind::Name, s(""), "", 3), "  First ");
    assert_eq!(get_stored_requests_ids(&store, ""), vec![1, 2, 3]);
    assert!(duplicate_request(&mut list, &mut store, "", 99).is_none());
    delete_request_entry(&mut list, &mut store, "", 1);
    assert_eq!(list.iter().map(|r| r.id).collect::<Vec<_>>(), vec![2, 3]);
    assert_eq!(get_stored_requests_ids(&store, ""), vec![2, 3]);
    assert_eq!(get_stored_value(&store, RequestFieldKind::Url, s("gone"), "", 1), "gone");
    delete_project_requests(&list, &mut store, "");
    assert_eq!(get_stored_value(&store, RequestFieldKind::Url, s("gone"), "", 2), "gone");
    assert_eq!(get_stored_requests_ids(&store, ""), vec![2, 3]);
}

#[test]
fn row_helpers() {
    assert_eq!(get_method_color("DELETE"), "bg-red-500/50");
    assert_eq!(get_method_color("TRACE"), "bg-sky-500");
    assert_eq!(row_action("dublicate"), RowAction::Duplicate);
    assert_eq!(row_action("other"), RowAction::Nothing);
}

#[test]
fn projects() {
    let mut ps: Vec<RestClientProject> = Vec::new();
    assert_eq!(generate_project_id(&ps), 1);
    let r = apply_project_name(&mut ps, "", " Alpha ").unwrap();
    assert!(matches!(r, ProjectNameOutcome::Created(1)));
    assert_eq!(ps[0].name, "Alpha");
    assert_eq!(apply_project_name(&mut ps, "", "ALPHA").err(), Some(NameError::AlreadyExists));
    assert_eq!(apply_project_name(&mut ps, "", " ").err(), Some(NameError::Empty));
    assert!(matches!(apply_project_name(&mut ps, "", "Beta").unwrap(), ProjectNameOutcome::Created(2)));
    assert!(matches!(apply_project_name(&mut ps, "1", "Alpha2 ").unwrap(), ProjectNameOutcome::Renamed));
    assert_eq!(ps[0].name, "Alpha2 ");
    assert_eq!(project_name_for_rename(&ps, "2"), Some(s("Beta")));
    assert_eq!(project_name_for_rename(&ps, "x"), None);
    assert_eq!(get_projects_options(&ps), vec![(Some(s("1")), s("Alpha2 ")), (Some(s("2")), s("Beta"))]);
    assert_eq!(delete_project(&mut ps, "1"), Some(s("2")));
    assert_eq!(ps.len(), 1);
    assert_eq!(delete_project(&mut ps, "nope"), None);
    assert_eq!(delete_project(&mut ps, "2"), Some(s("")));
}
