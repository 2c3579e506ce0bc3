use notebook::text::{contains_ignoring_case, contains_text};

#[test]
fn a_text_contains_its_parts() {
    assert!(contains_text("Second task", "cond t"));
    assert!(contains_text("Second task", "Second task"));
    assert!(contains_text("Second task", "k"));
}

#[test]
fn the_empty_pattern_occurs_everywhere() {
    assert!(contains_text("", ""));
    assert!(contains_text("abc", ""));
}

#[test]
fn a_longer_pattern_never_occurs() {
    assert!(!contains_text("ab", "abc"));
    assert!(!contains_text("", "a"));
}

#[test]
fn containment_is_case_sensitive() {
    assert!(!contains_text("Sub SECOND sub task", "second"));
    assert!(!contains_text("abcabd", "abd x"));
    assert!(contains_text("abcabd", "abd"));
}

#[test]
fn case_is_ignored_on_both_sides() {
    assert!(contains_ignoring_case("Sub SECOND sub task", "second"));
    assert!(contains_ignoring_case("second task", "SECOND"));
    assert!(contains_ignoring_case("ABC", "abc"));
    assert!(!contains_ignoring_case("First task", "second"));
}

#[test]
fn case_is_ignored_beyond_ascii() {
    assert!(contains_ignoring_case("ÉCOLE", "école"));
    assert!(contains_ignoring_case("ΣΟΦΙΑ", "σοφ"));
}
