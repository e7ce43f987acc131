use koharu::navigation::{
    allowed_navigation, allowed_resource, development_origin, is_app_url, UrlParts,
};

#[test]
fn app_scheme_rejects_lookalike_authorities() {
    assert!(allowed_navigation("koharu://app/index.html", None));
    assert!(!allowed_navigation("koharu://user@app/index.html", None));
    assert!(!allowed_navigation("koharu://app.evil/index.html", None));
}

#[test]
fn primary_url_requires_exact_development_origin() {
    let origin = Some("http://localhost:5173");
    assert!(allowed_navigation("http://localhost:5173/chunk.js", origin));
    assert!(!allowed_navigation("http://localhost.evil:5173/chunk.js", origin));
    assert!(allowed_navigation("http://user@localhost:5173/chunk.js", origin));
}

#[test]
fn development_origin_extracts_tuple_origin_without_policy() {
    assert_eq!(
        development_origin("http://127.0.0.1:5173/editor?q=1").as_deref(),
        Some("http://127.0.0.1:5173")
    );
    assert_eq!(
        development_origin("https://example.com/editor").as_deref(),
        Some("https://example.com")
    );
    assert_eq!(development_origin("koharu://app/"), None);
}

#[test]
fn resources_may_be_data_or_blobs_of_an_allowed_origin() {
    let origin = Some("http://localhost:5173");
    assert!(allowed_resource("data:text/plain,hello", origin));
    assert!(allowed_resource("blob:http://localhost:5173/abc", origin));
    assert!(!allowed_resource("blob:http://evil.test/abc", origin));
    assert!(allowed_resource("koharu://app/main.js", None));
    assert!(!allowed_resource("https://example.com/x.js", origin));
    assert!(!allowed_resource("not a url", origin));
}

#[test]
fn unparsable_urls_are_never_navigated_to() {
    assert!(!allowed_navigation("", None));
    assert!(!allowed_navigation("/relative", Some("null")));
}

#[test]
fn ports_and_passwords_break_the_app_scheme() {
    let parts = UrlParts {
        scheme: "koharu".to_owned(),
        host: Some("app".to_owned()),
        username: String::new(),
        password: None,
        port: None,
        origin: "null".to_owned(),
        origin_is_tuple: false,
        serialized: "koharu://app/".to_owned(),
    };
    assert!(is_app_url(&parts));
    assert!(!is_app_url(&UrlParts {
        port: Some(1),
        ..parts.clone()
    }));
    assert!(!is_app_url(&UrlParts {
        password: Some("x".to_owned()),
        ..parts
    }));
}
