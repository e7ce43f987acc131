//! Packaging rules: which installer a host builds, the bundle identifier, and the
//! distinct identifiers of the browser helper bundles.
use vstd::prelude::*;

verus! {

/// The application's bundle identifier.
pub const BUNDLE_IDENTIFIER: &'static str = "rs.koharu.Koharu";

/// The installer a bundle run produces.
#[derive(Clone, Copy, Debug, PartialEq, Eq, Structural)]
pub enum Package {
    Nsis,
    AppImage,
    Dmg,
}

/// An artifact the bundler is asked for.
#[derive(Clone, Copy, Debug, PartialEq, Eq, Structural)]
pub enum Artifact {
    Nsis,
    AppImage,
    MacOsBundle,
    Dmg,
}

/// Why bundling stopped before the bundler ran.
#[derive(Clone, Debug, PartialEq, Eq)]
pub enum BundleError {
    WrongHost { package: Package, host: String },
    MissingCef,
    InvalidPath(String),
    Cef(String),
}

/// What to bundle and where to put it.
#[derive(Clone, Debug, PartialEq, Eq)]
pub struct BundleConfig {
    pub package: Package,
    pub target: String,
    pub executable: String,
    pub libraries: Vec<String>,
    pub ui: String,
    pub licenses: Vec<String>,
    pub icon: String,
    pub output: String,
    pub version: String,
}

impl Package {
    /// The artifacts a package needs. A disk image also keeps the application
    /// bundle, which the updater archive is made from.
    pub open spec fn spec_artifacts(self) -> Seq<Artifact> {
        match self {
            Package::Nsis => seq![Artifact::Nsis],
            Package::AppImage => seq![Artifact::AppImage],
            Package::Dmg => seq![Artifact::MacOsBundle, Artifact::Dmg],
        }
    }

    /// The artifacts the bundler is asked to build for this package.
    pub fn artifacts(self) -> (a: Vec<Artifact>)
        ensures
            a@ == self.spec_artifacts(),
    {
        let mut a: Vec<Artifact> = Vec::new();
        match self {
            Package::Nsis => a.push(Artifact::Nsis),
            Package::AppImage => a.push(Artifact::AppImage),
            Package::Dmg => {
                a.push(Artifact::MacOsBundle);
                a.push(Artifact::Dmg);
            },
        }
        proof {
            assert(a@ =~= self.spec_artifacts());
        }
        a
    }
}

/// Refuses to build `actual` on a host whose installer is `expected`.
pub fn require_package(actual: Package, expected: Package, host: &str) -> (r: Result<
    (),
    BundleError,
>)
    ensures
        actual == expected ==> r is Ok,
        actual != expected ==> (r matches Err(BundleError::WrongHost { package, host: h })
            && package == actual && h@ == host@),
{
    if actual == expected {
        Ok(())
    } else {
        Err(BundleError::WrongHost { package: actual, host: host.to_owned() })
    }
}

/// The file name of the application binary on the host.
pub fn binary_name(windows: bool) -> (name: &'static str)
    ensures
        windows ==> name@ == "koharu.exe"@,
        !windows ==> name@ == "koharu"@,
{
    if windows {
        "koharu.exe"
    } else {
        "koharu"
    }
}

/// The browser helper bundles and the role suffix of each one's identifier.
pub open spec fn spec_cef_helpers() -> Seq<(Seq<char>, Seq<char>)> {
    seq![
        ("Koharu Helper.app"@, ""@),
        ("Koharu Helper (GPU).app"@, ".GPU"@),
        ("Koharu Helper (Renderer).app"@, ".Renderer"@),
        ("Koharu Helper (Plugin).app"@, ".Plugin"@),
        ("Koharu Helper (Alerts).app"@, ".Alerts"@),
    ]
}

/// The browser helper bundles and the role suffix of each one's identifier.
pub fn cef_helpers() -> (helpers: Vec<(&'static str, &'static str)>)
    ensures
        helpers@.len() == spec_cef_helpers().len(),
        forall|i: int|
            0 <= i < helpers@.len() ==> (#[trigger] helpers@[i]).0@ == spec_cef_helpers()[i].0
                && helpers@[i].1@ == spec_cef_helpers()[i].1,
{
    let mut helpers: Vec<(&'static str, &'static str)> = Vec::new();
    helpers.push(("Koharu Helper.app", ""));
    helpers.push(("Koharu Helper (GPU).app", ".GPU"));
    helpers.push(("Koharu Helper (Renderer).app", ".Renderer"));
    helpers.push(("Koharu Helper (Plugin).app", ".Plugin"));
    helpers.push(("Koharu Helper (Alerts).app", ".Alerts"));
    helpers
}

/// The bundle identifier of a helper with the given role suffix.
pub open spec fn spec_helper_identifier(role: Seq<char>) -> Seq<char> {
    BUNDLE_IDENTIFIER@ + ".helper"@ + role
}

/// The bundle identifier of a helper with the given role suffix.
pub fn cef_helper_identifier(role: &str) -> (id: String)
    ensures
        id@ == spec_helper_identifier(role@),
{
    let mut id = BUNDLE_IDENTIFIER.to_owned();
    id.append(".helper");
    id.append(role);
    id
}

/// Helpers with different role suffixes get different bundle identifiers.
pub proof fn lemma_helper_identifiers_distinct(a: Seq<char>, b: Seq<char>)
    requires
        a != b,
    ensures
        spec_helper_identifier(a) != spec_helper_identifier(b),
{
    let prefix = BUNDLE_IDENTIFIER@ + ".helper"@;
    if spec_helper_identifier(a) == spec_helper_identifier(b) {
        assert(spec_helper_identifier(a).skip(prefix.len() as int) =~= a);
        assert(spec_helper_identifier(b).skip(prefix.len() as int) =~= b);
    }
}

} // verus!
