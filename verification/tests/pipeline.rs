use grep_wrapper::grammar::parse_line;
use grep_wrapper::path::{concat_path, resolve_path};
use grep_wrapper::render::{render_field, render_line, rendered_text, should_emit, LineOutcome};
use grep_wrapper::render::analyze_line;

fn case_insensitive(pattern: &str) -> regex::Regex {
    regex::RegexBuilder::new(pattern).case_insensitive(true).build().unwrap()
}

#[test]
fn concat_follows_four_case_table() {
    let sub = Some("sub".to_string());
    let root = Some("root/".to_string());
    assert_eq!(concat_path(&sub, &root, "a.txt"), "root/sub/a.txt");
    assert_eq!(concat_path(&sub, &None, "a.txt"), "sub/a.txt");
    assert_eq!(concat_path(&None, &root, "a.txt"), "root/a.txt");
    assert_eq!(concat_path(&None, &None, "a.txt"), "a.txt");
}

#[test]
fn row_and_column_default_to_zero() {
    assert_eq!(render_field(&None), "0");
    assert_eq!(render_field(&Some("42".to_string())), "42");
    assert_eq!(render_field(&Some("007".to_string())), "007");
}

#[test]
fn minimal_line_renders_with_zero_row_and_column() {
    // "note: see above" resolves against the current directory and renders
    // with both positions defaulted
    let parsed = parse_line("note: see above").unwrap();
    let path = resolve_path(&parsed, &None, ".").unwrap();
    assert_eq!(path, "note");
    let rendered = render_line(&parsed, path, None);
    assert_eq!(rendered_text(&rendered), "note:0:0: see above");
}

#[test]
fn rendered_text_keeps_digit_text_verbatim() {
    let parsed = parse_line("f.c:007:000:  padded").unwrap();
    let rendered = render_line(&parsed, "f.c".to_string(), None);
    assert_eq!(rendered_text(&rendered), "f.c:000:0: padded");
}

#[test]
fn rendered_text_includes_highlight_spans() {
    let parsed = parse_line("lib.c:3:9: unused label, unused value").unwrap();
    let re = case_insensitive("unused");
    let rendered = render_line(&parsed, "lib.c".to_string(), Some(&re));
    assert_eq!(rendered_text(&rendered), "lib.c:9:0: unused label, unused value");
    let marks: Vec<bool> = rendered
        .segments
        .iter()
        .map(|sp| matches!(sp, grep_wrapper::highlight::Span::Matched(_)))
        .collect();
    assert_eq!(marks, vec![false, true, false, true, false]);
}

#[test]
fn existence_filter_only_suppresses() {
    for exists in [false, true] {
        if should_emit(true, exists) {
            assert!(should_emit(false, exists));
        }
    }
    assert!(should_emit(false, false));
    assert!(should_emit(false, true));
    assert!(should_emit(true, true));
    assert!(!should_emit(true, false));
}

#[test]
fn unmatched_line_is_left_for_echo() {
    match analyze_line("no colon body", &None, ".") {
        LineOutcome::NoMatch => {},
        _ => panic!("expected pass-through"),
    }
}

#[test]
fn relative_path_against_absolute_directory_is_unresolvable() {
    match analyze_line("foo.rs:1: x", &None, "/absolute/base") {
        LineOutcome::Unresolvable => {},
        _ => panic!("expected the fatal no-relative-path case"),
    }
}

#[test]
fn resolved_line_carries_parse_and_path() {
    match analyze_line("note: hi", &None, ".") {
        LineOutcome::Resolved(parsed, path) => {
            assert_eq!(parsed.filepath, "note");
            assert_eq!(parsed.contents, "hi");
            assert_eq!(path, "note");
        },
        _ => panic!("expected a resolved line"),
    }
}

#[test]
fn resolution_climbs_common_ancestors() {
    match analyze_line("/a/b/c.rs:1: m", &None, "/a/d") {
        LineOutcome::Resolved(_, path) => assert_eq!(path, "../b/c.rs"),
        _ => panic!("expected a resolved line"),
    }
}

#[test]
fn extra_prefix_feeds_resolution() {
    let parsed = parse_line("main.rs:10:2: warning").unwrap();
    assert_eq!(parsed.prefix.as_deref(), Some("s"));
    assert_eq!(parsed.filepath, "10");
    let joined = concat_path(&parsed.prefix, &Some("dir/".to_string()), &parsed.filepath);
    let diffed = resolve_path(&parsed, &Some("dir/".to_string()), ".").unwrap();
    assert_eq!(joined, format!("dir/{}/{}", "s", "10"));
    assert_eq!(diffed, "dir/s/10");
}
