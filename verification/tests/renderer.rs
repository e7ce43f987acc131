use koharu::renderer::{
    is_chinese_or_japanese_language, FontSearchStrategy, SizeAnchor, TypesettingConfig,
};

#[test]
fn chinese_and_japanese_tags_are_recognised_by_their_primary_subtag() {
    assert!(is_chinese_or_japanese_language("ja-JP"));
    assert!(is_chinese_or_japanese_language("ZH_Hans"));
    assert!(is_chinese_or_japanese_language("zh"));
    assert!(!is_chinese_or_japanese_language("jav"));
    assert!(!is_chinese_or_japanese_language("en-US"));
    assert!(!is_chinese_or_japanese_language(""));
}

#[test]
fn default_typesetting_prefers_comic_fonts_and_source_size() {
    let config = TypesettingConfig::default();
    assert_eq!(config.font_families, vec!["CCWildWords".to_owned(), "Adobe 黑体 Std".to_owned()]);
    assert_eq!(config.size_anchor, SizeAnchor::Source);
    assert!(config.pixel_snap);
    assert_eq!(config.font_search_strategy, FontSearchStrategy::SizeFirst);
}
