use epub2txt::utils::{normalize_zip_path, resolve};

#[test]
fn resolve_steps_out_of_the_descriptor_directory() {
    assert_eq!(resolve("OEBPS", "../Images/x.jpg"), "Images/x.jpg");
}

#[test]
fn resolve_skips_a_leading_dot() {
    assert_eq!(resolve("", "./a/b"), "a/b");
}

#[test]
fn resolve_keeps_a_marker_where_nothing_is_left_to_remove() {
    assert_eq!(resolve("", "../a"), "../a");
    assert_eq!(resolve("", ".."), "..");
    assert_eq!(resolve("a", "../../b"), "../b");
}

#[test]
fn normalize_zip_path_starts_from_the_descriptor_directory() {
    assert_eq!(
        normalize_zip_path("OEBPS/content.opf", "Text/ch1.xhtml".to_string()),
        "OEBPS/Text/ch1.xhtml"
    );
    assert_eq!(
        normalize_zip_path("OEBPS/content.opf", "../Images/x.jpg".to_string()),
        "Images/x.jpg"
    );
    assert_eq!(normalize_zip_path("content.opf", "ch1.xhtml".to_string()), "ch1.xhtml");
}

#[test]
fn a_resolved_path_is_never_absolute() {
    assert_eq!(resolve("", "/a"), "a");
    assert_eq!(resolve("/x/", "//y/"), "x/y");
    assert_eq!(resolve("/", "/"), "");
    assert_eq!(resolve("a/b", "../../../c"), "../c");
}

#[test]
fn the_base_is_kept_as_it_is_named() {
    assert_eq!(resolve("a/./b", "c"), "a/./b/c");
    assert_eq!(resolve("a/b", ".."), "a");
    assert_eq!(resolve("a/b", "./.././c/."), "a/c");
    assert_eq!(resolve("", ""), "");
    assert_eq!(normalize_zip_path("a/b/c.opf", "../d".to_string()), "a/d");
    assert_eq!(normalize_zip_path("/c.opf", "d".to_string()), "d");
}
