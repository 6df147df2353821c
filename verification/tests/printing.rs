//! The token pretty-printer and the formatting checker on bare token
//! streams.

use tidy_syntax::pretty::insert_whitespaces;
use tidy_syntax::rules::macro_fmt::needs_formatting;
use tidy_syntax::tree::{TokKind, Token};

fn tok(kind: TokKind, text: &str) -> Token {
    Token { kind, text: text.to_string() }
}

#[test]
fn printer_runs_are_byte_identical() {
    let toks = vec![
        tok(TokKind::Keyword, "fn"),
        tok(TokKind::Ident, "main"),
        tok(TokKind::LParen, "("),
        tok(TokKind::RParen, ")"),
        tok(TokKind::LCurly, "{"),
        tok(TokKind::Ident, "a"),
        tok(TokKind::Semicolon, ";"),
        tok(TokKind::RCurly, "}"),
    ];
    let once = insert_whitespaces(&toks);
    let again = insert_whitespaces(&toks);
    assert_eq!(once, again);
}

#[test]
fn printer_separates_words_and_terminators() {
    let toks = vec![tok(TokKind::Ident, "foo"), tok(TokKind::Semicolon, ";")];
    assert_eq!(insert_whitespaces(&toks), "foo;\n");

    let toks = vec![tok(TokKind::Keyword, "use"), tok(TokKind::Ident, "alpha")];
    assert_eq!(insert_whitespaces(&toks), "use alpha ");
}

#[test]
fn printer_indents_nonempty_braces() {
    let toks = vec![
        tok(TokKind::Ident, "m"),
        tok(TokKind::LCurly, "{"),
        tok(TokKind::Ident, "x"),
        tok(TokKind::Semicolon, ";"),
        tok(TokKind::RCurly, "}"),
    ];
    // The word before the brace earns a space, the brace opens a line at
    // one level (two spaces), the terminator re-indents, the closer drops
    // back and adds the blank separating line.
    assert_eq!(insert_whitespaces(&toks), "m {\n  x;\n  \n}");
}

#[test]
fn printer_spaces_operators() {
    let toks = vec![
        tok(TokKind::Ident, "a"),
        tok(TokKind::Eq, "="),
        tok(TokKind::Ident, "b"),
    ];
    assert_eq!(insert_whitespaces(&toks), "a = b ");

    let toks = vec![
        tok(TokKind::RParen, ")"),
        tok(TokKind::Arrow, "->"),
        tok(TokKind::Ident, "T"),
    ];
    assert_eq!(insert_whitespaces(&toks), ") -> T ");
}

#[test]
fn checker_flags_an_overlong_line_early() {
    // 100 chars on one line, then a break with correct (zero) indentation:
    // the width test fires at the break.
    let long = "x".repeat(100);
    let toks = vec![tok(TokKind::Ident, &long), tok(TokKind::Whitespace, "\n")];
    assert!(needs_formatting(&toks, 0));
}

#[test]
fn checker_flags_wrong_indentation() {
    // A break followed by three spaces where an indentation step demands
    // four.
    let toks = vec![
        tok(TokKind::LCurly, "{"),
        tok(TokKind::Whitespace, "\n   "),
        tok(TokKind::Ident, "x"),
        tok(TokKind::RCurly, "}"),
    ];
    assert!(needs_formatting(&toks, 0));
}

#[test]
fn checker_inherits_the_end_of_stream_fallback() {
    // A well-laid-out stream still ends in the inherited "needs formatting"
    // fallback; the open question is kept, not silently fixed.
    let toks = vec![tok(TokKind::Ident, "ok")];
    assert!(needs_formatting(&toks, 0));
    let empty: Vec<Token> = Vec::new();
    assert!(needs_formatting(&empty, 0));
}
