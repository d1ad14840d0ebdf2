use status_report::text::body_line;
use status_report::text::contains_substr;
use status_report::text::normalize_line;
use status_report::text::scrub_line;
use status_report::text::split_into_lines;
use status_report::text::trimmed;

#[test]
fn normalize_strips_cr_rewrites_bullets_and_trims() {
    assert_eq!(normalize_line("  * step\r one \t"), "- step one");
    assert_eq!(normalize_line("plain"), "plain");
    assert_eq!(normalize_line("\r\r"), "");
    assert_eq!(normalize_line("  \u{a0} padded \u{3000}"), "padded");
}

#[test]
fn bullet_rewrite_is_left_to_right_without_overlap() {
    assert_eq!(scrub_line("* * a"), "- - a");
    assert_eq!(scrub_line("** x"), "*- x");
    assert_eq!(scrub_line("*** x"), "**- x");
    assert_eq!(scrub_line("*x* y"), "*x- y");
}

#[test]
fn scrub_twice_equals_scrub_once() {
    let samples = [
        "* step one",
        "** x",
        "* * a",
        "*\r a",
        "text with\rcarriage",
        "",
        "- already done",
        "trailing star *",
    ];
    for s in samples.iter() {
        let once = scrub_line(s);
        let twice = scrub_line(once.as_str());
        assert_eq!(twice, once);
    }
}

#[test]
fn body_line_replaces_code_markers_with_fences() {
    assert_eq!(body_line("{code:java}"), "```bash");
    assert_eq!(body_line("{code}"), "```");
    assert_eq!(body_line("x {code} y"), "x ``` y");
    assert_eq!(body_line("{code:java}{code}"), "```bash```");
    assert_eq!(body_line("* item\r"), "- item");
    assert_eq!(body_line("  spaced  "), "  spaced  ");
}

#[test]
fn trimmed_removes_surrounding_whitespace_only() {
    assert_eq!(trimmed("  tok\n"), "tok");
    assert_eq!(trimmed("a b"), "a b");
    assert_eq!(trimmed(""), "");
    assert_eq!(trimmed(" \t\r\n"), "");
}

#[test]
fn substring_test_is_case_sensitive() {
    assert!(contains_substr("To Do and In Progress", "In Progress"));
    assert!(contains_substr("In Progress", "In Progress"));
    assert!(!contains_substr("in progress", "In Progress"));
    assert!(!contains_substr("In", "In Progress"));
    assert!(contains_substr("anything", ""));
}

#[test]
fn split_keeps_empty_segments() {
    assert_eq!(split_into_lines("a\nb"), vec!["a".to_string(), "b".to_string()]);
    assert_eq!(split_into_lines("a\n"), vec!["a".to_string(), "".to_string()]);
    assert_eq!(split_into_lines(""), vec!["".to_string()]);
    assert_eq!(
        split_into_lines("\n\n"),
        vec!["".to_string(), "".to_string(), "".to_string()]
    );
}
