use grep_wrapper::grammar::{parse_line, ParsedLine};

fn parts(line: &str) -> Option<(Option<String>, String, Option<String>, Option<String>, String)> {
    parse_line(line).map(|p: ParsedLine| (p.prefix, p.filepath, p.row, p.column, p.contents))
}

#[test]
fn diagnostic_line_prefix_capture() {
    // The optional leading group is greedy: it consumes "src/lib.rs:" with
    // "lib.rs" captured, so the file-path token is the next segment.
    let p = parse_line("src/lib.rs:42:7: unused variable").unwrap();
    assert_eq!(p.prefix.as_deref(), Some("lib.rs"));
    assert_eq!(p.filepath, "42");
    assert_eq!(p.row.as_deref(), Some("7"));
    assert_eq!(p.column, None);
    assert_eq!(p.contents, "unused variable");
}

#[test]
fn single_colon_body_still_matches() {
    // "note: see above" satisfies the minimal grammar: it is not echoed.
    let p = parse_line("note: see above").unwrap();
    assert_eq!(p.prefix, None);
    assert_eq!(p.filepath, "note");
    assert_eq!(p.row, None);
    assert_eq!(p.column, None);
    assert_eq!(p.contents, "see above");
}

#[test]
fn no_colon_body_does_not_match() {
    assert!(parse_line("just some words").is_none());
    assert!(parse_line("").is_none());
    assert!(parse_line("::::").is_none());
    assert!(parse_line(":::trailing").is_none());
}

#[test]
fn row_without_following_colon_joins_contents() {
    // digits not closed by another ':' belong to the message body
    let p = parse_line("a:42 foo").unwrap();
    assert_eq!(p.filepath, "a");
    assert_eq!(p.row, None);
    assert_eq!(p.column, None);
    assert_eq!(p.contents, "42 foo");
}

#[test]
fn row_and_column_both_captured() {
    let p = parse_line("ab:1:2:3: hi").unwrap();
    assert_eq!(p.prefix.as_deref(), Some("b"));
    assert_eq!(p.filepath, "1");
    assert_eq!(p.row.as_deref(), Some("2"));
    assert_eq!(p.column.as_deref(), Some("3"));
    assert_eq!(p.contents, "hi");
}

#[test]
fn leading_zeros_kept_as_text() {
    let p = parse_line("f.c:007:000:  padded").unwrap();
    assert_eq!(p.prefix.as_deref(), Some("c"));
    assert_eq!(p.filepath, "007");
    assert_eq!(p.row.as_deref(), Some("000"));
    assert_eq!(p.column, None);
    assert_eq!(p.contents, "padded");
}

#[test]
fn leading_colons_are_dropped() {
    let p = parse_line(":a/b:c: d").unwrap();
    assert_eq!(p.prefix.as_deref(), Some("b"));
    assert_eq!(p.filepath, "c");
    assert_eq!(p.contents, "d");
}

#[test]
fn empty_contents_allowed() {
    let p = parse_line("a:").unwrap();
    assert_eq!(p.filepath, "a");
    assert_eq!(p.contents, "");
}

#[test]
fn non_ascii_line_parses_by_characters() {
    let p = parse_line("p\u{e4}th:42: m\u{e9}ssage").unwrap();
    assert_eq!(p.prefix.as_deref(), Some("h"));
    assert_eq!(p.filepath, "42");
    assert_eq!(p.row, None);
    assert_eq!(p.contents, "m\u{e9}ssage");
}

#[test]
fn agrees_with_pattern_engine() {
    // The grammar is the first-match semantics of this pattern; hold the
    // hand-written parser to the pattern engine itself on a spread of lines.
    let re =
        regex::Regex::new(r"(?:[^:/]+/?([^:]+):)?([^:]+)(?::(\d+))?(?::(\d+))?:\s*(.*)").unwrap();
    let lines = [
        "src/lib.rs:42:7: unused variable",
        "note: see above",
        "a:42 foo",
        "ab:1:2:3: hi",
        ":a/b:c: d",
        "a:",
        "f.c:007:000:  padded",
        "deep/nested/path/file.rs:1:2: msg",
        "/abs/path.rs:3: warning",
        "ab/:z: body",
        "a//b:x: y",
        "x:1:",
        "x:1:2:",
        "trailing/slash/: oops",
        "a:b:c",
        "weird::double: colons",
        "12:34:56: time-like",
        "p\u{e4}th:42: m\u{e9}ssage",
        "tab:\t after colon",
        "nb:\u{a0}body",
        "sp:\u{3000}\u{2003}wide space",
        "cr:\r carriage",
    ];
    for line in lines {
        let expected = re.captures(line).map(|c| {
            (
                c.get(1).map(|m| m.as_str().to_string()),
                c.get(2).unwrap().as_str().to_string(),
                c.get(3).map(|m| m.as_str().to_string()),
                c.get(4).map(|m| m.as_str().to_string()),
                c.get(5).unwrap().as_str().to_string(),
            )
        });
        assert_eq!(parts(line), expected, "disagreement on {:?}", line);
    }
}
