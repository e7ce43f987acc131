use koharu::protocol::{
    invalid_canvas, no_project, AppError, AppErrorCode, CredentialInput, WindowState,
    WindowStateReporter,
};

#[test]
fn app_errors_carry_code_and_message() {
    let error = AppError::internal("disk full");
    assert_eq!(error.code, AppErrorCode::Internal);
    assert_eq!(error.to_string(), "disk full");
    assert_eq!(no_project().code, AppErrorCode::NoProject);
    assert_eq!(no_project().message, "no project is open");
    assert_eq!(invalid_canvas("zoom").code, AppErrorCode::Internal);
    assert_eq!(
        invalid_canvas("zoom").message,
        "canvas returned an invalid result for zoom"
    );
}

#[test]
fn credentials_never_show_their_value() {
    let input = CredentialInput {
        configured: true,
        value: Some("secret".to_owned()),
        clear: false,
    };
    let text = input.redacted();
    assert!(!text.contains("secret"));
    assert_eq!(
        text,
        "CredentialInput { configured: true, value: Some(\"[REDACTED]\"), clear: false }"
    );
}

#[test]
fn window_state_is_reported_only_when_it_changes() {
    let mut reporter = WindowStateReporter::new();
    let state = WindowState::default();
    assert!(reporter.observe(state));
    assert!(!reporter.observe(state));
    let maximized = WindowState {
        maximized: true,
        ..state
    };
    assert!(reporter.observe(maximized));
    assert!(reporter.observe(state));
}
