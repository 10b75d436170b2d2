use bento::config::{contains_brace_expansion, is_glob_pattern, CompressConfig};
use bento::cli::CompressionLevel;

#[test]
fn test_is_glob_pattern() {
    assert!(is_glob_pattern("*.png"));
    assert!(is_glob_pattern("sprites/*.png"));
    assert!(is_glob_pattern("sprites/**/*.png"));
    assert!(is_glob_pattern("sprite?.png"));
    assert!(is_glob_pattern("sprite[0-9].png"));
    assert!(!is_glob_pattern("sprite.png"));
    assert!(!is_glob_pattern("sprites/hero.png"));
}

#[test]
fn test_contains_brace_expansion() {
    // Patterns with brace expansion
    assert!(contains_brace_expansion("{a,b}"));
    assert!(contains_brace_expansion("sprites/{hero,enemy}.png"));
    assert!(contains_brace_expansion("sprites/{a,b,c}.png"));
    assert!(contains_brace_expansion("path/to/{foo,bar}/image.png"));

    // Patterns without brace expansion (should not trigger)
    assert!(!contains_brace_expansion("sprite.png"));
    assert!(!contains_brace_expansion("sprites/*.png"));
    assert!(!contains_brace_expansion("{no_comma}"));
    assert!(!contains_brace_expansion("just_a_brace{"));
    assert!(!contains_brace_expansion("close_brace}"));
    assert!(!contains_brace_expansion("comma,but_no_braces"));
}

#[test]
fn glob_pattern_edge_cases() {
    assert!(!is_glob_pattern(""));
    assert!(is_glob_pattern("["));
    assert!(!is_glob_pattern("]"));
    assert!(!is_glob_pattern("{a,b}"));
    assert!(is_glob_pattern("héro?.png"));
    assert!(!is_glob_pattern("héro.png"));
}

#[test]
fn brace_expansion_looks_only_at_the_first_pair() {
    // a comma before the first `{` or after the first `}` does not count
    assert!(!contains_brace_expansion("a,b{c}"));
    assert!(!contains_brace_expansion("{a}b,c"));
    assert!(!contains_brace_expansion("{a}{b,c}"));
    // a `}` before the first `{` is passed over
    assert!(contains_brace_expansion("}{a,b}"));
    assert!(contains_brace_expansion("{{a,b}"));
    assert!(!contains_brace_expansion("{a,b"));
    assert!(!contains_brace_expansion(""));
    assert!(contains_brace_expansion("{,}"));
    assert!(contains_brace_expansion("é{ä,ö}"));
}

#[test]
fn compress_config_gives_its_level() {
    assert_eq!(CompressConfig::Level(4).level(), CompressionLevel::Level(4));
    assert_eq!(CompressConfig::Max("max".to_string()).level(), CompressionLevel::Max);
    assert_eq!(CompressConfig::Max(String::new()).level(), CompressionLevel::Max);
}
