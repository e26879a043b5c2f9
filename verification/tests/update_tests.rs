//! Version comparison and release evaluation.

use voxtype_ctl::update::{is_newer, evaluate_release, is_dismissed_text};

#[test]
fn test_is_newer_basic() {
    assert!(is_newer("1.0.0", "0.9.9"));
    assert!(is_newer("0.6.0", "0.5.5"));
    assert!(is_newer("0.5.6", "0.5.5"));
    assert!(is_newer("1.0.0", "0.99.99"));
}

#[test]
fn test_is_newer_equal() {
    assert!(!is_newer("0.5.5", "0.5.5"));
    assert!(!is_newer("1.0.0", "1.0.0"));
}

#[test]
fn test_is_newer_older() {
    assert!(!is_newer("0.5.4", "0.5.5"));
    assert!(!is_newer("0.4.0", "0.5.5"));
}

#[test]
fn test_is_newer_different_lengths() {
    assert!(is_newer("1.0.0.1", "1.0.0"));
    assert!(!is_newer("1.0.0", "1.0.0.1"));
}

#[test]
fn non_numeric_segments_count_as_zero() {
    assert!(is_newer("0.1.0", "0.beta.9"));
    assert!(!is_newer("0.0.x", "0.0.0"));
}

#[test]
fn evaluate_release_reports_newer_versions_only() {
    let info = evaluate_release("v0.6.0", "https://example.invalid/rel", "0.5.5").unwrap();
    assert_eq!(info.version, "0.6.0");
    assert_eq!(info.changelog_url, "https://example.invalid/rel");
    assert!(evaluate_release("v0.5.5", "https://example.invalid/rel", "0.5.5").is_none());
    assert!(evaluate_release("0.5.4", "", "0.5.5").is_none());
}

#[test]
fn dismissal_notes_match_exactly_after_trimming() {
    assert!(is_dismissed_text("0.6.0\n", "0.6.0"));
    assert!(is_dismissed_text("  0.6.0  ", "0.6.0"));
    assert!(!is_dismissed_text("0.6.1", "0.6.0"));
    assert!(!is_dismissed_text("", "0.6.0"));
}
