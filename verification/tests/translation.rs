use koharu::translation::{
    build_package, package_summary, strip_package_fence, validate_package, PackageError,
    TranslationPackage, FORMAT, FORMAT_VERSION,
};

const INSTRUCTION: &str = "Read every page first. Replace only the strings in pages with tr-TR translations, preserve the exact nested array shape and order, and return the complete JSON only.";

fn sample_pages() -> Vec<Vec<String>> {
    vec![
        ["Who are you?", "I'm Koharu."].map(str::to_owned).to_vec(),
        ["Koharu, wait!", "I can't."].map(str::to_owned).to_vec(),
        Vec::new(),
    ]
}

fn sample_layers() -> Vec<Vec<u32>> {
    vec![vec![11, 12], vec![21, 22], Vec::new()]
}

fn sample_package() -> TranslationPackage {
    build_package("tr-TR", sample_pages()).unwrap()
}

#[test]
fn package_exports_only_ordered_source_strings() {
    let package = sample_package();
    assert_eq!(package.pages.len(), 3);
    assert_eq!(package.pages, sample_pages());
    assert_eq!(package.instruction, INSTRUCTION);
    assert_eq!(package.format, FORMAT);
    assert_eq!(package.format_version, FORMAT_VERSION);
    assert_eq!(package.target_language, "tr-TR");
    assert_eq!(package_summary(&package).unwrap().segment_count, 4);
    assert_eq!(package_summary(&package).unwrap().page_count, 3);
}

#[test]
fn package_applies_translations_by_page_and_text_order() {
    let mut package = sample_package();
    package.pages = vec![
        vec!["Sen kimsin?".to_owned(), "Ben Koharu.".to_owned()],
        vec!["Koharu, bekle!".to_owned(), "Yapamam.".to_owned()],
        Vec::new(),
    ];

    let updates = validate_package(&package, "tr-TR", &sample_layers()).unwrap();
    assert_eq!(updates.len(), 4);
    assert_eq!(
        updates
            .iter()
            .map(|update| update.text.as_str())
            .collect::<Vec<_>>(),
        ["Sen kimsin?", "Ben Koharu.", "Koharu, bekle!", "Yapamam."]
    );
    assert!(
        updates
            .iter()
            .all(|update| update.language.as_str() == "tr-TR")
    );
    assert_eq!(
        updates.iter().map(|update| update.layer).collect::<Vec<_>>(),
        vec![11, 12, 21, 22]
    );
}

#[test]
fn package_rejects_changed_shape_incomplete_text_and_old_version() {
    let mut package = sample_package();
    for text in package.pages.iter_mut().flatten() {
        *text = "Çeviri".to_owned();
    }
    let layers = sample_layers();

    let mut missing_page = package.clone();
    missing_page.pages.pop();
    assert!(validate_package(&missing_page, "tr-TR", &layers)
        .unwrap_err()
        .message()
        .contains("every project page"));

    let mut missing_segment = package.clone();
    missing_segment.pages[0].pop();
    assert!(validate_package(&missing_segment, "tr-TR", &layers)
        .unwrap_err()
        .message()
        .contains("missing or extra text segments"));

    let mut incomplete = package.clone();
    incomplete.pages[0][0] = "  ".to_owned();
    assert!(validate_package(&incomplete, "tr-TR", &layers)
        .unwrap_err()
        .message()
        .contains("must have a translation"));

    let mut wrong_target = package.clone();
    wrong_target.target_language = "de-DE".to_owned();
    assert!(validate_package(&wrong_target, "tr-TR", &layers)
        .unwrap_err()
        .message()
        .contains("current translation target"));

    package.format_version = 1;
    assert!(validate_package(&package, "tr-TR", &layers)
        .unwrap_err()
        .message()
        .contains("unsupported"));
}

#[test]
fn parser_accepts_a_single_gemini_json_fence() {
    let json = "{\"format\":\"dev.koharu.context-translation\"}";
    let parsed = strip_package_fence(&format!("```json\n{json}\n```")).unwrap();
    assert_eq!(parsed, json);
}

#[test]
fn unfenced_packages_are_only_trimmed() {
    assert_eq!(strip_package_fence("  {}\n").unwrap(), "{}");
}

#[test]
fn broken_fences_are_refused() {
    assert_eq!(
        strip_package_fence("```json"),
        Err(PackageError::FenceWithoutBody)
    );
    assert_eq!(
        strip_package_fence("```json\n{}"),
        Err(PackageError::FenceNotClosed)
    );
}

#[test]
fn projects_without_text_cannot_be_exported() {
    assert_eq!(
        build_package("tr-TR", vec![Vec::new(), Vec::new()]),
        Err(PackageError::NoText)
    );
}

#[test]
fn target_mismatch_names_both_languages() {
    let mut package = sample_package();
    package.target_language = "de-DE".to_owned();
    let error = validate_package(&package, "tr-TR", &sample_layers()).unwrap_err();
    assert_eq!(
        error,
        PackageError::TargetMismatch {
            package: "de-DE".to_owned(),
            current: "tr-TR".to_owned()
        }
    );
    assert_eq!(
        error.message(),
        "translation package targets de-DE, but the current translation target is tr-TR"
    );
}
