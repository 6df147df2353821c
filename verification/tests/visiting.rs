//! The generic visitor driven over parsed source text.

use tidy_syntax::parse::parse_source_tree;
use tidy_syntax::rules::macro_fmt::derive_indent;
use tidy_syntax::tree::Kind;
use tidy_syntax::tree::{Token, Tree};
use tidy_syntax::visit::{walk_souce_file, RuleVisitor};

/// Counts the visits the tests care about and keeps the comment texts;
/// every other entry is a recorded no-op.
#[derive(Default)]
struct Recorder {
    fns: usize,
    consts: usize,
    type_aliases: usize,
    names: usize,
    exprs: usize,
    stmts: usize,
    comments: Vec<String>,
}

impl RuleVisitor for Recorder {
    fn visit_source_file(&mut self, _t: &Tree, _i: usize) {
    }
    fn visit_item(&mut self, _t: &Tree, _i: usize) {
    }
    fn visit_comment(&mut self, comments: &Vec<Token>) {
        for c in comments {
            self.comments.push(c.text.clone());
        }
    }
    fn visit_const(&mut self, _t: &Tree, _i: usize) {
        self.consts += 1;
    }
    fn visit_enum(&mut self, _t: &Tree, _i: usize) {
    }
    fn visit_extern_block(&mut self, _t: &Tree, _i: usize) {
    }
    fn visit_extern_crate(&mut self, _t: &Tree, _i: usize) {
    }
    fn visit_fn(&mut self, _t: &Tree, _i: usize) {
        self.fns += 1;
    }
    fn visit_impl(&mut self, _t: &Tree, _i: usize) {
    }
    fn visit_mac_call(&mut self, _t: &Tree, _i: usize) {
    }
    fn visit_mac_def(&mut self, _t: &Tree, _i: usize) {
    }
    fn visit_mac_rules(&mut self, _t: &Tree, _i: usize) {
    }
    fn visit_mod(&mut self, _t: &Tree, _i: usize) {
    }
    fn visit_static(&mut self, _t: &Tree, _i: usize) {
    }
    fn visit_struct(&mut self, _t: &Tree, _i: usize) {
    }
    fn visit_trait(&mut self, _t: &Tree, _i: usize) {
    }
    fn visit_type_alias(&mut self, _t: &Tree, _i: usize) {
        self.type_aliases += 1;
    }
    fn visit_union(&mut self, _t: &Tree, _i: usize) {
    }
    fn visit_use(&mut self, _t: &Tree, _i: usize) {
    }
    fn visit_attr(&mut self, _t: &Tree, _attrs: &Vec<usize>) {
    }
    fn visit_vis(&mut self, _t: &Tree, _i: usize) {
    }
    fn visit_type(&mut self, _t: &Tree, _i: usize) {
    }
    fn visit_variant(&mut self, _t: &Tree, _i: usize) {
    }
    fn visit_struct_fields(&mut self, _t: &Tree, _i: usize) {
    }
    fn visit_block(&mut self, _t: &Tree, _i: usize) {
    }
    fn visit_stmt(&mut self, _t: &Tree, _i: usize) {
        self.stmts += 1;
    }
    fn visit_params(&mut self, _t: &Tree, _i: usize) {
    }
    fn visit_arm(&mut self, _t: &Tree, _i: usize) {
    }
    fn visit_pat(&mut self, _t: &Tree, _i: usize) {
    }
    fn visit_expr(&mut self, _t: &Tree, _i: usize) {
        self.exprs += 1;
    }
    fn visit_arg_list(&mut self, _t: &Tree, _i: usize) {
    }
    fn visit_gen_param(&mut self, _t: &Tree, _i: usize) {
    }
    fn visit_where_clause(&mut self, _t: &Tree, _i: usize) {
    }
    fn visit_where_predicate(&mut self, _t: &Tree, _i: usize) {
    }
    fn visit_fn_return(&mut self, _t: &Tree, _i: usize) {
    }
    fn visit_assoc_ty(&mut self, _t: &Tree, _i: usize) {
    }
    fn visit_name(&mut self, _t: &Tree, _i: usize) {
        self.names += 1;
    }
    fn visit_path(&mut self, _t: &Tree, _i: usize) {
    }
}

#[test]
fn visit_test() {
    let text = r#"
pub fn main() -> Result<(), Error> {
    let x = "hello world";
    if x.starts_with('h') {
        foo();
    } else {
        loop {
            x += 1;
        }
    }
}
"#;

    let mut vis = Recorder::default();

    let source = parse_source_tree(text).expect("the example parses");

    vis.visit_source_file(&source, 0);
    walk_souce_file(&mut vis, &source, 0);
}

#[test]
fn overridden_hooks_see_each_construct_once() {
    let text = "fn alpha() {\n    let a = 1;\n    let b = 2;\n}\nfn beta() {}\n";
    let source = parse_source_tree(text).expect("the example parses");
    let mut vis = Recorder::default();
    walk_souce_file(&mut vis, &source, 0);

    // Two functions, each named once; two let statements, each with a
    // bound name and an initializer expression.
    assert_eq!(vis.fns, 2);
    assert_eq!(vis.names, 4);
    assert_eq!(vis.stmts, 2);
    assert_eq!(vis.exprs, 2);
}

#[test]
fn items_inside_impls_modules_and_traits_are_reached() {
    let text = "\
mod inner {
    fn hidden() {}
}
impl Thing {
    fn method() {}
    const K: u8 = 1;
}
trait Spec {
    fn wanted();
    type Out;
}
fn top() {}
";
    let source = parse_source_tree(text).expect("the example parses");
    let mut vis = Recorder::default();
    walk_souce_file(&mut vis, &source, 0);

    // One function in the module, one in the impl, one declared in the
    // trait, one at the top; one associated const; one associated type.
    assert_eq!(vis.fns, 4);
    assert_eq!(vis.consts, 1);
    assert_eq!(vis.type_aliases, 1);
}

#[test]
fn indent_comes_from_the_nearest_line_break() {
    // The single space before the call is not a line break: the indent
    // comes from the newline run before `a;`, whose trailing spaces
    // number four.
    let text = "fn main() {\n    a; m!(x);\n}\n";
    let t = parse_source_tree(text).expect("the example parses");
    let mac = (0..t.nodes.len())
        .find(|&i| t.nodes[i].kind == Kind::MacroCall)
        .expect("the example holds a macro call");
    assert_eq!(derive_indent(&t, mac), 4);
}

#[test]
fn comments_reach_the_comment_hook() {
    let text = "/// a doc line\nfn alpha() {}\n";
    let source = parse_source_tree(text).expect("the example parses");
    let mut vis = Recorder::default();
    walk_souce_file(&mut vis, &source, 0);
    assert_eq!(vis.comments, vec!["/// a doc line".to_string()]);
}
