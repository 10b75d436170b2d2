use bento::sprite::loader::{eq_ignoring_case, is_supported_extension};

#[test]
fn supported_extensions_in_any_case() {
    for ext in ["png", "jpg", "jpeg", "gif", "bmp", "webp", "PNG", "Jpg", "jPeG", "GIF", "BmP", "WEBP"] {
        assert!(is_supported_extension(ext), "{}", ext);
        assert_eq!(
            is_supported_extension(ext),
            ["png", "jpg", "jpeg", "gif", "bmp", "webp"].contains(&ext.to_lowercase().as_str())
        );
    }
}

#[test]
fn other_extensions_are_not_supported() {
    for ext in ["", "pn", "pngg", "tiff", "txt", "jpe", "webm", "p ng", "bento", "ＰＮＧ", "pńg", "g\u{130}f"] {
        assert!(!is_supported_extension(ext), "{}", ext);
        assert_eq!(
            is_supported_extension(ext),
            ["png", "jpg", "jpeg", "gif", "bmp", "webp"].contains(&ext.to_lowercase().as_str())
        );
    }
}

#[test]
fn comparison_ignores_the_case_of_ascii_letters_only() {
    assert!(eq_ignoring_case("", ""));
    assert!(eq_ignoring_case("aBc", "AbC"));
    assert!(eq_ignoring_case("a1-z", "A1-Z"));
    assert!(!eq_ignoring_case("abc", "abcd"));
    assert!(!eq_ignoring_case("abcd", "abc"));
    assert!(!eq_ignoring_case("abc", "abd"));
    assert!(!eq_ignoring_case("ä", "Ä"));
    assert!(eq_ignoring_case("ä", "ä"));
}
