use koharu::audit::{
    check_input_names, image_media_type, is_supported_image, order_inputs, translation_template, validate_fixture,
    AuditError, InputCandidate, TranslationFixture,
};

fn sample_pages_and_segments() -> (Vec<String>, Vec<Vec<String>>) {
    (vec!["16.webp".to_owned()], vec![vec!["待って".to_owned()]])
}

fn counts(sources: &[Vec<String>]) -> Vec<usize> {
    sources.iter().map(Vec::len).collect()
}

fn candidate(path: &str) -> InputCandidate {
    let file_name = path.rsplit('/').next().map(str::to_owned);
    let extension = file_name
        .as_deref()
        .and_then(|name| name.rsplit_once('.'))
        .map(|(_, extension)| extension.to_owned());
    InputCandidate {
        path: path.to_owned(),
        file_name,
        extension,
    }
}

#[test]
fn template_keeps_page_and_text_order_for_english_and_turkish() {
    let (pages, segments) = sample_pages_and_segments();
    let fixture =
        translation_template(&["en-US".to_owned(), "tr-TR".to_owned()], &pages, &segments)
            .unwrap();

    assert_eq!(fixture.inputs, vec!["16.webp".to_owned()]);
    assert_eq!(fixture.translations[0].0, "en-US");
    assert_eq!(fixture.translations[0].1, vec![vec!["待って".to_owned()]]);
    assert_eq!(fixture.translations[1].0, "tr-TR");
    assert_eq!(fixture.translations[1].1, vec![vec!["待って".to_owned()]]);
    validate_fixture(&fixture, &pages, &counts(&segments)).unwrap();
}

#[test]
fn fixture_rejects_reordered_or_incomplete_shapes() {
    let (pages, segments) = sample_pages_and_segments();
    let mut fixture = translation_template(&["en-US".to_owned()], &pages, &segments).unwrap();
    fixture.inputs[0] = "other.webp".to_owned();
    assert!(validate_fixture(&fixture, &pages, &counts(&segments)).is_err());

    fixture.inputs[0] = "16.webp".to_owned();
    fixture.translations[0].1[0].clear();
    assert!(validate_fixture(&fixture, &pages, &counts(&segments)).is_err());
}

#[test]
fn input_pages_follow_the_same_natural_order_as_the_application() {
    let candidates = vec![candidate("10.webp"), candidate("2.webp"), candidate("1.webp")];
    assert_eq!(
        order_inputs(&candidates).unwrap(),
        vec![
            "1.webp".to_owned(),
            "2.webp".to_owned(),
            "10.webp".to_owned()
        ]
    );
}

#[test]
fn unsupported_inputs_are_left_out_and_none_is_an_error() {
    let candidates = vec![candidate("pages/b.txt"), candidate("pages/a.PNG")];
    assert_eq!(order_inputs(&candidates).unwrap(), vec!["pages/a.PNG".to_owned()]);
    assert_eq!(
        order_inputs(&vec![candidate("notes.txt")]),
        Err(AuditError::NoImages)
    );
}

#[test]
fn input_names_must_be_unique() {
    let candidates = vec![candidate("a/1.png"), candidate("b/1.png")];
    assert_eq!(order_inputs(&candidates), Err(AuditError::DuplicateInputName));
}

#[test]
fn inputs_need_a_file_name() {
    let candidates = vec![InputCandidate {
        path: "odd.png".to_owned(),
        file_name: None,
        extension: Some("png".to_owned()),
    }];
    assert_eq!(
        order_inputs(&candidates),
        Err(AuditError::NoFileName {
            path: "odd.png".to_owned()
        })
    );
}

#[test]
fn fixtures_are_checked_in_order() {
    let (pages, segments) = sample_pages_and_segments();
    let fixture = translation_template(&["en-US".to_owned()], &pages, &segments).unwrap();
    let mut wrong_format = fixture.clone();
    wrong_format.format_version = 2;
    assert_eq!(
        validate_fixture(&wrong_format, &pages, &counts(&segments)),
        Err(AuditError::Unsupported)
    );
    let mut no_languages = fixture.clone();
    no_languages.translations.clear();
    assert_eq!(
        validate_fixture(&no_languages, &pages, &counts(&segments)),
        Err(AuditError::NoLanguages)
    );
    let mut missing = fixture.clone();
    missing.translations[0].1.clear();
    assert_eq!(
        validate_fixture(&missing, &pages, &counts(&segments)),
        Err(AuditError::MissingPages {
            language: "en-US".to_owned()
        })
    );
    let mut blank = fixture.clone();
    blank.translations[0].1[0][0] = " ".to_owned();
    assert_eq!(
        validate_fixture(&blank, &pages, &counts(&segments)),
        Err(AuditError::EmptyTranslation {
            language: "en-US".to_owned(),
            page: 1
        })
    );
    let mut extra = fixture.clone();
    extra.translations[0].1[0].push("x".to_owned());
    assert_eq!(
        validate_fixture(&extra, &pages, &counts(&segments)),
        Err(AuditError::TranslationCount {
            language: "en-US".to_owned(),
            page: 1
        })
    );
    let mismatched = TranslationFixture {
        inputs: vec![],
        ..fixture
    };
    assert_eq!(
        validate_fixture(&mismatched, &pages, &counts(&segments)),
        Err(AuditError::InputsMismatch)
    );
}

#[test]
fn templates_need_distinct_languages() {
    let (pages, segments) = sample_pages_and_segments();
    assert_eq!(
        translation_template(&[], &pages, &segments),
        Err(AuditError::NoTemplateLanguage)
    );
    assert_eq!(
        translation_template(&["en-US".to_owned(), "en-US".to_owned()], &pages, &segments),
        Err(AuditError::DuplicateLanguage)
    );
}

#[test]
fn supported_images_and_media_types() {
    assert!(is_supported_image(Some("JPEG")));
    assert!(is_supported_image(Some("webp")));
    assert!(!is_supported_image(Some("gif")));
    assert!(!is_supported_image(None));
    assert_eq!(image_media_type(Some("JPG")), "image/jpeg");
    assert_eq!(image_media_type(Some("webp")), "image/webp");
    assert_eq!(image_media_type(Some("png")), "image/png");
    assert_eq!(image_media_type(None), "image/png");
}

#[test]
fn name_checks_keep_the_given_order_and_stop_at_the_first_fault() {
    let ordered = vec![candidate("x/2.png"), candidate("y/1.png")];
    assert_eq!(
        check_input_names(&ordered).unwrap(),
        vec!["x/2.png".to_owned(), "y/1.png".to_owned()]
    );
    let nameless = InputCandidate {
        path: "odd.png".to_owned(),
        file_name: None,
        extension: Some("png".to_owned()),
    };
    let twice_then_nameless = vec![
        candidate("a/1.png"),
        candidate("b/1.png"),
        nameless.clone(),
    ];
    assert_eq!(
        check_input_names(&twice_then_nameless),
        Err(AuditError::DuplicateInputName)
    );
    let nameless_then_twice = vec![
        candidate("a/1.png"),
        nameless,
        candidate("b/1.png"),
    ];
    assert_eq!(
        check_input_names(&nameless_then_twice),
        Err(AuditError::NoFileName {
            path: "odd.png".to_owned()
        })
    );
    assert_eq!(check_input_names(&vec![]), Ok(vec![]));
}
