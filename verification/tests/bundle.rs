use koharu::bundle::{
    binary_name, cef_helper_identifier, cef_helpers, require_package, Artifact, BundleError,
    Package, BUNDLE_IDENTIFIER,
};

#[test]
fn bundle_identity_is_stable_and_distinct_from_the_product_name() {
    assert_eq!(BUNDLE_IDENTIFIER, "rs.koharu.Koharu");
    assert_ne!(BUNDLE_IDENTIFIER, "Koharu");
}

#[test]
fn cef_helper_bundles_have_unique_identifiers() {
    let helpers = cef_helpers();
    let identifiers = helpers
        .iter()
        .map(|(_, role)| cef_helper_identifier(role))
        .collect::<std::collections::HashSet<_>>();
    assert_eq!(identifiers.len(), helpers.len());
    assert!(identifiers.contains("rs.koharu.Koharu.helper"));
    assert!(identifiers.contains("rs.koharu.Koharu.helper.Renderer"));
}

#[test]
fn package_mapping_uses_tauri_artifacts() {
    assert_eq!(Package::Nsis.artifacts(), vec![Artifact::Nsis]);
    assert_eq!(Package::AppImage.artifacts(), vec![Artifact::AppImage]);
    assert_eq!(
        Package::Dmg.artifacts(),
        vec![Artifact::MacOsBundle, Artifact::Dmg]
    );
}

#[test]
fn packages_are_refused_on_the_wrong_host() {
    assert_eq!(require_package(Package::Nsis, Package::Nsis, "windows"), Ok(()));
    assert_eq!(
        require_package(Package::Dmg, Package::Nsis, "windows"),
        Err(BundleError::WrongHost {
            package: Package::Dmg,
            host: "windows".to_owned(),
        })
    );
}

#[test]
fn binary_names_follow_the_host() {
    assert_eq!(binary_name(true), "koharu.exe");
    assert_eq!(binary_name(false), "koharu");
}

#[test]
fn helper_identifiers_append_the_role() {
    assert_eq!(cef_helper_identifier(".GPU"), "rs.koharu.Koharu.helper.GPU");
    assert_eq!(cef_helper_identifier(""), "rs.koharu.Koharu.helper");
}
