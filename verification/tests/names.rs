use koharu::names::{export_stem, safe_component, safe_file_stem};

#[test]
fn output_components_cannot_escape_the_audit_directory() {
    assert_eq!(safe_component("tr-TR"), "tr-TR");
    assert_eq!(safe_component("../bad name"), ".._bad_name");
    assert_eq!(safe_component(".."), "output");
}

#[test]
fn empty_and_dot_components_become_output() {
    assert_eq!(safe_component(""), "output");
    assert_eq!(safe_component("."), "output");
    assert_eq!(safe_component("a/b\\c"), "a_b_c");
    assert_eq!(safe_component("..."), "...");
}

#[test]
fn export_stems_number_pages_from_one() {
    assert_eq!(export_stem(0, "page.png"), "0001_page");
    assert_eq!(export_stem(41, " cover.final.webp "), "0042_cover.final");
    assert_eq!(export_stem(2, "a:b?.png"), "0003_a_b_");
    assert_eq!(export_stem(9999, "x"), "10000_x");
}

#[test]
fn export_stems_fall_back_to_page() {
    assert_eq!(export_stem(0, "   "), "0001_page");
    assert_eq!(export_stem(0, "..."), "0001_page");
    assert_eq!(export_stem(0, ".png"), "0001_page");
    assert_eq!(export_stem(4, "shot. . "), "0005_shot");
}

#[test]
fn package_file_stems_replace_forbidden_characters() {
    assert_eq!(safe_file_stem("  My: Project?  "), "My_ Project_");
    assert_eq!(safe_file_stem("   "), "koharu");
    assert_eq!(safe_file_stem("a/b"), "a_b");
}
