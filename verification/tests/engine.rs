//! End-to-end runs of the validation pass over parsed source text.

use tidy_syntax::error::Emitter;
use tidy_syntax::rules::validate_source;

#[test]
fn ban_mod() {
    let text = r#"use std::fs;

use syntax::{
    ast::{
        AstNode, AstToken, {self},
    },
    SourceFile,
};
"#;
    let mut emitter = Emitter::default();
    validate_source("src/rules/mod.rs", text, &mut emitter).unwrap();
    emitter.emit();
}

#[test]
fn macro_call() {
    let mut emitter = Emitter::default();
    let text = r#"use std::fs;

fn main() {
    macro_call!(
        foo,
        Foo::A(true)
    );
}
"#;
    validate_source("src/rules.rs", text, &mut emitter).unwrap();
    emitter.emit();
}

#[test]
fn mod_rs_path_reports_exactly_one_simple() {
    // The module-file check fires on the path alone, whatever the text holds.
    let mut emitter = Emitter::default();
    validate_source("src/rules/mod.rs", "fn a() {}\n", &mut emitter).unwrap();
    assert!(emitter.found_errors());
    let out = emitter.emit();
    assert_eq!(
        out,
        "error: Module files (mod.rs) are banned.\n\
         --> src/rules/mod.rs\n\
         create a `src/rules.rs` file and `src/rules` folder and remove `src/rules/mod.rs`\n"
    );
}

#[test]
fn clean_file_keeps_emitter_empty() {
    // No macro invocation and an ordinary path: nothing is reported.
    let mut emitter = Emitter::default();
    validate_source("src/lib.rs", "fn a() {}\n", &mut emitter).unwrap();
    assert!(!emitter.found_errors());
    assert_eq!(emitter.emit(), "");
}

#[test]
fn syntax_error_is_rejected() {
    let mut emitter = Emitter::default();
    let r = validate_source("src/lib.rs", "fn ( {", &mut emitter);
    assert!(r.is_err());
    assert!(!emitter.found_errors());
}

#[test]
fn overlong_macro_line_is_flagged() {
    // A single-statement construct whose body runs past 80 chars on one line.
    let long_args = "aaaaaaaaaaaaaaaaaaaaaaaaaaaaaaaa, bbbbbbbbbbbbbbbbbbbbbbbbbbbbbbbb, cccccccccccccccccccccccccccccccc";
    let text = format!("fn main() {{\n    long_call!({});\n}}\n", long_args);
    let mut emitter = Emitter::default();
    validate_source("src/big.rs", &text, &mut emitter).unwrap();
    assert!(emitter.found_errors());
    let out = emitter.emit();
    assert!(out.contains("Hello message"));
    assert!(out.contains("--> src/big.rs:"));
    assert!(out.contains("long_call!"));
}

#[test]
fn each_matching_construct_is_reported_once_in_order() {
    // Two macro invocations: one spanned diagnostic per matching node, in
    // traversal order.
    let text = "fn main() {\n    first!(a);\n    second!(b);\n}\n";
    let mut emitter = Emitter::default();
    validate_source("src/two.rs", text, &mut emitter).unwrap();
    let out = emitter.emit();
    let a = out.find("first!(a)").expect("the first invocation is reported");
    let b = out.find("second!(b)").expect("the second invocation is reported");
    assert!(a < b);
    assert_eq!(out.matches("Hello message").count(), 2);
}

#[test]
fn macro_call_excerpt_names_the_construct() {
    let text = "fn main() {\n    tiny!(a);\n}\n";
    let mut emitter = Emitter::default();
    validate_source("src/tiny.rs", text, &mut emitter).unwrap();
    assert!(emitter.found_errors());
    let out = emitter.emit();
    // The excerpt is the macro invocation's own text, on its own line.
    assert!(out.contains("\ntiny!(a)\n"));
    // Row 1, column 4, 0-indexed: the call starts after one newline and
    // four spaces.
    assert!(out.contains("--> src/tiny.rs:1:4\n"));
}

#[test]
fn mod_rs_diagnostic_ignores_file_contents() {
    // Two different parseable files, one offending path: the module-file
    // diagnostic rendered for each is identical.
    let mut e1 = Emitter::default();
    validate_source("src/rules/mod.rs", "fn a() {}\n", &mut e1).unwrap();
    let mut e2 = Emitter::default();
    validate_source("src/rules/mod.rs", "use x::y;\nstruct S;\n", &mut e2).unwrap();
    assert_eq!(e1.emit(), e2.emit());
}
