use webdev_tools::share_file::share_file_upload_page::{
    upload_reaction, UploadMessage, UploadPageState, UploadResult,
};

#[test]
fn reaction_to_success_clears_selection() {
    let a = upload_reaction(&UploadResult::Success);
    assert!(a.clear_selection);
    assert!(matches!(a.message, UploadMessage::Uploaded));
}

#[test]
fn reaction_to_error_shows_its_text() {
    let a = upload_reaction(&UploadResult::Error("Bad Gateway".to_string()));
    assert!(!a.clear_selection);
    assert!(matches!(a.message, UploadMessage::Failed(ref e) if e == "Bad Gateway"));
}

#[test]
fn reaction_to_exceed_size_shows_size_error() {
    let a = upload_reaction(&UploadResult::ExceedSize);
    assert!(!a.clear_selection);
    assert!(matches!(a.message, UploadMessage::TooLarge));
}

#[test]
fn successful_upload_sets_link_and_qr_code() {
    let mut page = UploadPageState::new();
    page.select_file();
    page.start_upload();
    assert!(page.in_progress && page.has_selected_file);
    let a = page.finish_upload(UploadResult::Success, Some("https://h/share_file/view?id=7".to_string()));
    assert!(matches!(a.message, UploadMessage::Uploaded));
    assert!(!page.in_progress);
    assert!(!page.has_selected_file);
    assert_eq!(page.shared_url, "https://h/share_file/view?id=7");
    let qr = page.qr_code.expect("a QR code for the link");
    assert!(qr.starts_with("<svg"));
}

#[test]
fn failed_upload_keeps_selection_and_link() {
    let mut page = UploadPageState::new();
    page.select_file();
    page.start_upload();
    let a = page.finish_upload(UploadResult::Error("Internal Server Error".to_string()), None);
    assert!(matches!(a.message, UploadMessage::Failed(ref e) if e == "Internal Server Error"));
    assert!(!page.in_progress);
    assert!(page.has_selected_file);
    assert_eq!(page.shared_url, "");
    assert!(page.qr_code.is_none());
}

#[test]
fn oversized_upload_keeps_selection() {
    let mut page = UploadPageState::new();
    page.select_file();
    page.start_upload();
    let a = page.finish_upload(UploadResult::ExceedSize, None);
    assert!(matches!(a.message, UploadMessage::TooLarge));
    assert!(page.has_selected_file);
    assert!(page.qr_code.is_none());
}
