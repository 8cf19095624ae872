//! Diagnostics and the positions they show.
use sable::diag::Diagnostic;
use sable::lines::LineMap;
use sable::span::Span;

fn diagnostic(start: usize, end: usize, notes: Vec<(String, String)>) -> Diagnostic {
    Diagnostic {
        name: "type.mismatch".into(),
        title: "types differ".into(),
        span: Span::new(start, end),
        label: "here".into(),
        notes,
    }
}

#[test]
fn positions_count_lines_and_columns_from_one() {
    let source = "ab\ncde\n\nf";
    let lines = LineMap::new(source);
    assert_eq!(lines.line_col(0), (1, 1));
    assert_eq!(lines.line_col(2), (1, 3));
    assert_eq!(lines.line_col(3), (2, 1));
    assert_eq!(lines.line_col(7), (3, 1));
    assert_eq!(lines.line_col(8), (4, 1));
    assert_eq!(lines.line_span(2, source), Span::new(3, 6));
}

#[test]
fn a_diagnostic_underlines_its_span() {
    let source = "let a = 1\nlet b = a + true\n";
    let lines = LineMap::new(source);
    let shown = diagnostic(18, 26, Vec::new()).render("m.sable", source, &lines);
    assert_eq!(
        shown,
        "error: types differ\n  --> m.sable:2:9\n  |\n2 | let b = a + true\n  |         ^^^^^^^^ here\n"
    );
}

#[test]
fn a_caret_is_clipped_to_its_line() {
    let source = "one\ntwo";
    let lines = LineMap::new(source);
    let clipped = diagnostic(1, 7, Vec::new()).render_level("warning", "m", source, &lines);
    assert_eq!(
        clipped,
        "warning: types differ\n  --> m:1:2\n  |\n1 | one\n  |  ^^ here\n"
    );
    let empty = diagnostic(4, 4, Vec::new()).render("m", source, &lines);
    assert_eq!(
        empty,
        "error: types differ\n  --> m:2:1\n  |\n2 | two\n  | ^ here\n"
    );
}

#[test]
fn notes_follow_in_order() {
    let source = "x";
    let lines = LineMap::new(source);
    let notes = vec![
        ("goal".to_string(), "a = b".to_string()),
        ("context".to_string(), "h : p\nk : q\n".to_string()),
    ];
    let shown = diagnostic(0, 1, notes).render("m", source, &lines);
    assert_eq!(
        shown,
        "error: types differ\n  --> m:1:1\n  |\n1 | x\n  | ^ here\n  = goal: a = b\n  = context:\n      h : p\n      k : q\n"
    );
}

#[test]
fn the_map_of_lines_decides_what_is_shown() {
    let lines = LineMap::new("a\nb");
    let shown = diagnostic(2, 4, Vec::new()).render("m", "xyzw", &lines);
    assert_eq!(
        shown,
        "error: types differ\n  --> m:2:1\n  |\n2 | zw\n  | ^^ here\n"
    );
    let first = diagnostic(0, 4, Vec::new()).render("m", "xyzw", &lines);
    assert_eq!(
        first,
        "error: types differ\n  --> m:1:1\n  |\n1 | x\n  | ^ here\n"
    );
}
