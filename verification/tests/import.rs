use koharu::audit::InputCandidate;
use koharu::import::{image_filters, import_allowed, order_page_imports};
use koharu::protocol::AppErrorCode;

fn file(path: &str) -> InputCandidate {
    let file_name = path.rsplit('/').next().map(str::to_owned);
    let extension = file_name
        .as_deref()
        .and_then(|name| name.rsplit_once('.'))
        .map(|(_, extension)| extension.to_owned());
    InputCandidate {
        path: path.to_owned(),
        file_name,
        extension,
    }
}

#[test]
fn picked_pages_are_imported_in_natural_order() {
    let files = vec![file("a/page10.png"), file("b/page9.jpg"), file("c/page1.webp")];
    assert_eq!(
        order_page_imports(&files, false).unwrap(),
        vec![
            "c/page1.webp".to_owned(),
            "b/page9.jpg".to_owned(),
            "a/page10.png".to_owned()
        ]
    );
}

#[test]
fn folders_contribute_only_supported_images() {
    let files = vec![file("scan/2.png"), file("scan/notes.txt"), file("scan/1.JPEG")];
    assert_eq!(
        order_page_imports(&files, true).unwrap(),
        vec!["scan/1.JPEG".to_owned(), "scan/2.png".to_owned()]
    );
    let error = order_page_imports(&vec![file("scan/notes.txt")], true).unwrap_err();
    assert_eq!(error.code, AppErrorCode::InvalidRequest);
    assert_eq!(error.message, "no supported images were found in the selection");
    assert!(order_page_imports(&Vec::new(), false).is_err());
}

#[test]
fn imports_wait_for_running_jobs() {
    assert!(import_allowed(0).is_ok());
    let error = import_allowed(2).unwrap_err();
    assert_eq!(error.code, AppErrorCode::Conflict);
}

#[test]
fn the_dialog_offers_the_supported_images() {
    let filters = image_filters();
    assert_eq!(filters.len(), 1);
    assert_eq!(filters[0].name, "Images");
    assert_eq!(filters[0].extensions, ["png", "jpg", "jpeg", "webp"]);
}

#[test]
fn folder_imports_follow_the_audit_order() {
    let files = vec![file("p/10.webp"), file("p/2.webp"), file("p/1.webp"), file("p/x.txt")];
    assert_eq!(
        order_page_imports(&files, true).unwrap(),
        koharu::audit::order_inputs(&files).unwrap()
    );
}
