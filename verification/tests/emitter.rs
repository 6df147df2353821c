//! The diagnostic accumulator, row/column resolution, and rendering.

use tidy_syntax::error::{resolve_row_col, Emitter, Span, SpannedError};

#[test]
fn empty_accumulator_has_no_errors() {
    let emitter = Emitter::default();
    assert!(!emitter.found_errors());
}

#[test]
fn one_simple_diagnostic_sets_has_errors() {
    let mut emitter = Emitter::default();
    emitter.simple_sugg("a message", "a suggestion", "a/file.rs");
    assert!(emitter.found_errors());
}

#[test]
fn row_col_is_zero_indexed() {
    // Two prior newlines and four preceding chars on the third line: the
    // offset of line 3, column 5 in 1-indexed terms resolves to row 2,
    // column 4 in the fixed 0-indexed convention.
    let text = "a\nb\ncdefX";
    assert_eq!(resolve_row_col(text, 8), (2, 4));
    assert_eq!(resolve_row_col(text, 0), (0, 0));
    assert_eq!(resolve_row_col(text, 2), (1, 0));
    // An offset past the end resolves like the end of the text.
    assert_eq!(resolve_row_col("ab\nc", 99), (1, 1));
}

#[test]
fn simple_rendering_is_verbatim() {
    let mut emitter = Emitter::default();
    emitter.simple_sugg("the message", "the suggestion", "the/file.rs");
    assert_eq!(
        emitter.emit(),
        "error: the message\n--> the/file.rs\nthe suggestion\n"
    );
}

#[test]
fn spanned_rendering_resolves_the_span() {
    let e = SpannedError {
        msg: "oops".to_string(),
        suggestion: String::new(),
        root_text: "line one\nline two\nline three\n".to_string(),
        excerpt: "two".to_string(),
        span: Span { start: 14, end: 17 },
        file: "x.rs".to_string(),
    };
    // Offset 14 points at "two": row 1, column 5, 0-indexed.
    assert_eq!(e.emit_error(), "oops\n--> x.rs:1:5\ntwo\n");
}

#[test]
fn rendering_follows_accumulation_order() {
    let mut emitter = Emitter::default();
    emitter.simple_sugg("first", "s1", "f1.rs");
    emitter.simple_sugg("second", "s2", "f2.rs");
    let out = emitter.emit();
    let first = out.find("first").unwrap();
    let second = out.find("second").unwrap();
    assert!(first < second);
}
