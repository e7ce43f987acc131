//! Plain values exchanged between the application and its UI.
use vstd::prelude::*;

verus! {

/// The kind of an application error.
#[derive(Clone, Copy, Debug, PartialEq, Eq, Structural)]
pub enum AppErrorCode {
    InvalidRequest,
    NotReady,
    NoProject,
    Conflict,
    NotFound,
    Cancelled,
    Unavailable,
    Internal,
}

/// An error reported to the UI.
#[derive(Clone, Debug, PartialEq, Eq)]
pub struct AppError {
    pub code: AppErrorCode,
    pub message: String,
}

impl AppError {
    /// An error of the given kind with the given message.
    pub fn new(code: AppErrorCode, message: &str) -> (e: Self)
        ensures
            e.code == code,
            e.message@ == message@,
    {
        AppError { code, message: message.to_owned() }
    }

    /// An internal error carrying the text of the underlying failure.
    pub fn internal(message: &str) -> (e: Self)
        ensures
            e.code == AppErrorCode::Internal,
            e.message@ == message@,
    {
        AppError::new(AppErrorCode::Internal, message)
    }

    /// The error's message, as the error's display text.
    pub fn to_string(&self) -> (s: String)
        ensures
            s@ == self.message@,
    {
        self.message.clone()
    }
}

/// The error reported when a command needs an open project.
pub fn no_project() -> (e: AppError)
    ensures
        e.code == AppErrorCode::NoProject,
        e.message@ == "no project is open"@,
{
    AppError::new(AppErrorCode::NoProject, "no project is open")
}

/// The error reported when the canvas returns an unexpected result for `operation`.
pub fn invalid_canvas(operation: &str) -> (e: AppError)
    ensures
        e.code == AppErrorCode::Internal,
        e.message@ == "canvas returned an invalid result for "@ + operation@,
{
    let mut message = "canvas returned an invalid result for ".to_owned();
    message.append(operation);
    AppError { code: AppErrorCode::Internal, message }
}

#[derive(Clone, Debug, PartialEq, Eq)]
pub struct UpdateInfo {
    pub version: String,
    pub body: Option<String>,
}

#[derive(Clone, Debug, PartialEq, Eq)]
pub struct UpdateProgress {
    pub version: String,
    pub downloaded: u64,
    pub total: Option<u64>,
}

/// A credential field: whether one is stored, a new value to store, or a request
/// to clear it.
#[derive(Clone, PartialEq, Eq)]
pub struct CredentialInput {
    pub configured: bool,
    pub value: Option<String>,
    pub clear: bool,
}

impl CredentialInput {
    /// A debug rendering that never shows the secret value.
    pub fn redacted(&self) -> (s: String)
        ensures
            s@ == "CredentialInput { configured: "@ + (if self.configured {
                "true"@
            } else {
                "false"@
            }) + ", value: "@ + (if self.value is Some {
                "Some(\"[REDACTED]\")"@
            } else {
                "None"@
            }) + ", clear: "@ + (if self.clear {
                "true"@
            } else {
                "false"@
            }) + " }"@,
    {
        let mut s = "CredentialInput { configured: ".to_owned();
        s.append(if self.configured { "true" } else { "false" });
        s.append(", value: ");
        s.append(if self.value.is_some() { "Some(\"[REDACTED]\")" } else { "None" });
        s.append(", clear: ");
        s.append(if self.clear { "true" } else { "false" });
        s.append(" }");
        s
    }
}

#[derive(Clone, Debug, PartialEq, Eq)]
pub struct LanguageChoice {
    pub tag: String,
    pub name: String,
}

#[derive(Clone, Debug, PartialEq, Eq)]
pub struct ProjectSummary {
    pub name: String,
}

#[derive(Clone, Copy, Debug, PartialEq, Eq, Structural)]
pub enum GroupRole {
    Text,
}

#[derive(Clone, Debug, PartialEq, Eq)]
pub struct SourceText {
    pub text: String,
    pub language: Option<String>,
}

#[derive(Clone, Debug, PartialEq, Eq)]
pub struct Translation {
    pub text: String,
    pub language: Option<String>,
}

/// The file format of an export.
#[derive(Clone, Copy, Debug, PartialEq, Eq, Structural)]
pub enum ExportFormat {
    Png,
    Psd,
}

#[derive(Clone, Debug, PartialEq, Eq)]
pub struct FontMetadata {
    pub primary_script: Option<String>,
    pub scripts: Vec<String>,
    pub languages: Vec<String>,
    pub category: Option<String>,
    pub classifications: Vec<String>,
    pub use_cases: Vec<String>,
}

#[derive(Clone, Copy, Debug, PartialEq, Eq, Structural)]
pub struct FontRange {
    pub minimum: u16,
    pub maximum: u16,
}

#[derive(Clone, Copy, Debug, PartialEq, Eq, Structural)]
pub enum FontSource {
    System,
    Bundled,
}

#[derive(Clone, Copy, Debug, PartialEq, Eq, Structural)]
pub enum JobState {
    Running,
    Finished,
    Failed,
    Stopped,
}

/// A JSON placeholder for a result delivered as a binary attachment.
#[derive(Clone, Debug, PartialEq, Eq)]
pub struct BinaryPayload {
    pub attachment: String,
}

#[derive(Clone, Copy, Debug, PartialEq, Eq, Structural)]
pub enum WindowAction {
    Minimize,
    ToggleMaximize,
    BeginDrag,
    Close,
}

#[derive(Clone, Debug, PartialEq, Eq)]
pub enum WindowActionError {
    Rejected(String),
}

#[derive(Clone, Debug, PartialEq, Eq)]
pub enum PlatformError {
    Unavailable(String),
    Failed(String),
}

/// Returned when the desktop runtime has shut down.
#[derive(Clone, Copy, Debug, PartialEq, Eq, Structural)]
pub struct DesktopClosed;

/// Window facts the UI shows.
#[derive(Clone, Copy, Debug, PartialEq, Eq, Structural)]
pub struct WindowState {
    pub maximized: bool,
    pub minimized: bool,
    pub fullscreen: bool,
    pub focused: bool,
}

impl Default for WindowState {
    fn default() -> (s: Self)
        ensures
            s == (WindowState { maximized: false, minimized: false, fullscreen: false, focused: false }),
    {
        WindowState { maximized: false, minimized: false, fullscreen: false, focused: false }
    }
}

/// A file type offered in a file dialog: its name and the extensions it covers.
#[derive(Clone, Debug, PartialEq, Eq)]
pub struct DialogFilter {
    pub name: String,
    pub extensions: Vec<String>,
}

/// Reports window state to the UI only when it changed since the last report.
pub struct WindowStateReporter {
    last: Option<WindowState>,
}

impl WindowStateReporter {
    /// The state last reported, if any.
    pub closed spec fn last_reported(&self) -> Option<WindowState> {
        self.last
    }

    /// A reporter that has reported nothing yet.
    pub fn new() -> (r: Self)
        ensures
            r.last_reported() is None,
    {
        WindowStateReporter { last: None }
    }

    /// Observes the current window state: `true` when it is to be reported,
    /// that is when it differs from the last one reported.
    pub fn observe(&mut self, state: WindowState) -> (report: bool)
        ensures
            report == (old(self).last_reported() != Some(state)),
            final(self).last_reported() == Some(state),
    {
        let same = match self.last {
            Some(last) => last == state,
            None => false,
        };
        self.last = Some(state);
        !same
    }
}

} // verus!
