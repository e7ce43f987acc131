use koharu::resource::{mime_type, resolve_request_path};

#[test]
fn parent_paths_are_rejected_before_filesystem_access() {
    assert!(resolve_request_path("../secret", false).is_none());
    assert!(resolve_request_path("%2e%2e/secret", false).is_none());
    assert_eq!(resolve_request_path("", false).as_deref(), Some("index.html"));
}

#[test]
fn request_paths_are_decoded_and_stripped_of_leading_slashes() {
    assert_eq!(
        resolve_request_path("/assets/app%20main.js", false).as_deref(),
        Some("assets/app main.js")
    );
    assert_eq!(resolve_request_path("///", false).as_deref(), Some("index.html"));
    assert_eq!(resolve_request_path("a/..b/c", false).as_deref(), Some("a/..b/c"));
    assert!(resolve_request_path("a/../b", false).is_none());
    assert!(resolve_request_path("a/..", false).is_none());
}

#[test]
fn paths_that_do_not_decode_to_utf8_are_refused() {
    assert!(resolve_request_path("%ff", false).is_none());
}

#[test]
fn mime_types_follow_the_extension() {
    assert_eq!(mime_type(Some("html")), "text/html");
    assert_eq!(mime_type(Some("mjs")), "application/javascript");
    assert_eq!(mime_type(Some("jpeg")), "image/jpeg");
    assert_eq!(mime_type(Some("woff2")), "font/woff2");
    assert_eq!(mime_type(Some("HTML")), "application/octet-stream");
    assert_eq!(mime_type(None), "application/octet-stream");
}

#[test]
fn windows_paths_refuse_backslash_parents_roots_and_drives() {
    assert!(resolve_request_path("..\\a", true).is_none());
    assert!(resolve_request_path("a\\..\\b", true).is_none());
    assert!(resolve_request_path("%5csecret", true).is_none());
    assert!(resolve_request_path("C:secret", true).is_none());
    assert!(resolve_request_path("/c:/secret", true).is_none());
    assert_eq!(resolve_request_path("a\\b.js", true).as_deref(), Some("a\\b.js"));
    assert_eq!(resolve_request_path("1:x", true).as_deref(), Some("1:x"));
}

#[test]
fn backslashes_are_plain_characters_elsewhere() {
    assert_eq!(resolve_request_path("..\\a", false).as_deref(), Some("..\\a"));
    assert_eq!(resolve_request_path("C:secret", false).as_deref(), Some("C:secret"));
}
