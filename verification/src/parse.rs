//! The bridge from the outside parser to the tree model: one trusted call
//! hands back the parse of a file as a flat stream of raw events, and
//! verified code classifies the events and builds the arena tree from them.

use vstd::prelude::*;

use ra_ap_syntax::{Edition, NodeOrToken, SourceFile, WalkEvent};

use crate::strutil::{ends_with_seq, str_ends_with, str_eq};
use crate::tree::{
    node_span_exact_at, node_span_pos, texts_concat, tok_list, tok_list_upto, toks_view, Child,
    Kind, Node, TokKind, Token, TokenV, Tree,
};

verus! {

/// A placeholder for a parsed token stream, kept for callers that only need
/// to know that a file was parsed.
pub struct TokenTree {}

/// One raw token as the outside parser reports it: the name of its kind,
/// its text, and the parser's own classification flags.
pub struct RawTok {
    pub name: String,
    pub text: String,
    pub punct: bool,
}

/// The mathematical image of a raw token.
pub struct RawTokV {
    pub name: Seq<char>,
    pub text: Seq<char>,
    pub punct: bool,
}

impl View for RawTok {
    type V = RawTokV;

    open spec fn view(&self) -> RawTokV {
        RawTokV { name: self.name@, text: self.text@, punct: self.punct }
    }
}

/// One event of a depth-first walk over a parse tree: a node is entered, a
/// token is passed, or a node is left.
pub enum RawEvent {
    Start(String),
    Tok(RawTok),
    Finish,
}

/// The mathematical image of a raw event.
pub enum RawEventV {
    Start(Seq<char>),
    Tok(RawTokV),
    Finish,
}

impl View for RawEvent {
    type V = RawEventV;

    open spec fn view(&self) -> RawEventV {
        match self {
            RawEvent::Start(name) => RawEventV::Start(name@),
            RawEvent::Tok(t) => RawEventV::Tok(t@),
            RawEvent::Finish => RawEventV::Finish,
        }
    }
}

/// The images of a sequence of raw events.
pub open spec fn events_view(evs: Seq<RawEvent>) -> Seq<RawEventV> {
    evs.map_values(|e: RawEvent| e@)
}

/// What the outside parser answers for a source text: `None` when the text
/// has syntax errors, otherwise the depth-first events of its parse tree.
/// The answer depends on the text alone.
pub uninterp spec fn parse_of(text: Seq<char>) -> Option<Seq<RawEventV>>;

/// The chars of token text in the first `k` events.
pub open spec fn events_text(evs: Seq<RawEventV>, k: int) -> Seq<char>
    decreases k,
{
    if k <= 0 {
        Seq::empty()
    } else {
        events_text(evs, k - 1) + (match evs[k - 1] {
            RawEventV::Tok(t) => t.text,
            _ => Seq::<char>::empty(),
        })
    }
}

/// Relies on `ra_ap_syntax::SourceFile::parse` (with the 2021 edition
/// fixed) for the parse tree and its error list, on
/// `rowan::SyntaxNode::preorder_with_tokens` for the depth-first walk, and
/// on `SyntaxKind`'s `Debug` names and its `is_punct` classifier for what
/// each event carries.  All of them are deterministic in the text, which
/// the first promise, through [`parse_of`], states; the second promise is
/// that the tree is lossless (its leaf texts concatenate to the input).
/// The parser holds text positions in 32 bits and panics beyond them, so
/// the text's byte length must fit: a char is at most 4 bytes in UTF-8,
/// whence the bound on the char count.
#[verifier::external_body]
pub(crate) fn parse_to_events(text: &str) -> (r: Option<Vec<RawEvent>>)
    requires
        text@.len() <= u32::MAX as nat / 4,
    ensures
        (match r {
            Some(evs) => parse_of(text@) == Some(events_view(evs@)) && events_text(
                events_view(evs@),
                evs@.len() as int,
            ) == text@,
            None => parse_of(text@) is None,
        }),
{
    let parse = SourceFile::parse(text, Edition::Edition2021);
    if !parse.errors().is_empty() {
        return None;
    }
    let mut out = Vec::new();
    for ev in parse.syntax_node().preorder_with_tokens() {
        match ev {
            WalkEvent::Enter(NodeOrToken::Node(x)) => out.push(RawEvent::Start(format!("{:?}", x.kind()))),
            WalkEvent::Enter(NodeOrToken::Token(x)) => out.push(RawEvent::Tok(RawTok { name: format!("{:?}", x.kind()), text: x.text().to_string(), punct: x.kind().is_punct() })),
            WalkEvent::Leave(NodeOrToken::Node(_)) => out.push(RawEvent::Finish),
            WalkEvent::Leave(NodeOrToken::Token(_)) => {},
        }
    }
    Some(out)
}

/// Whether a kind name names a literal token.
pub open spec fn is_literal_name(name: Seq<char>) -> bool {
    ||| name == "INT_NUMBER"@
    ||| name == "FLOAT_NUMBER"@
    ||| name == "CHAR"@
    ||| name == "BYTE"@
    ||| name == "STRING"@
    ||| name == "BYTE_STRING"@
    ||| name == "C_STRING"@
}

/// Whether a kind name names a literal token.
fn literal_name(name: &str) -> (r: bool)
    ensures
        r == is_literal_name(name@),
{
    str_eq(name, "INT_NUMBER") || str_eq(name, "FLOAT_NUMBER") || str_eq(name, "CHAR") || str_eq(
        name,
        "BYTE",
    ) || str_eq(name, "STRING") || str_eq(name, "BYTE_STRING") || str_eq(name, "C_STRING")
}

/// The token kind for one raw token: the delimiters, terminators and
/// operators the checks read are named exactly; keywords go by their
/// `_KW`-suffixed names, literals by their names, and the rest by the
/// parser's punctuation flag.
pub open spec fn tok_kind_of(rv: RawTokV) -> TokKind {
    if rv.name == "WHITESPACE"@ {
        TokKind::Whitespace
    } else if rv.name == "COMMENT"@ {
        TokKind::Comment
    } else if rv.name == "IDENT"@ {
        TokKind::Ident
    } else if rv.name == "LIFETIME_IDENT"@ {
        TokKind::Lifetime
    } else if rv.name == "L_CURLY"@ {
        TokKind::LCurly
    } else if rv.name == "R_CURLY"@ {
        TokKind::RCurly
    } else if rv.name == "L_PAREN"@ {
        TokKind::LParen
    } else if rv.name == "R_PAREN"@ {
        TokKind::RParen
    } else if rv.name == "SEMICOLON"@ {
        TokKind::Semicolon
    } else if rv.name == "THIN_ARROW"@ {
        TokKind::Arrow
    } else if rv.name == "EQ"@ {
        TokKind::Eq
    } else if rv.name == "FAT_ARROW"@ {
        TokKind::FatArrow
    } else if ends_with_seq(rv.name, "_KW"@) {
        TokKind::Keyword
    } else if is_literal_name(rv.name) {
        TokKind::Literal
    } else if rv.punct {
        TokKind::Punct
    } else {
        TokKind::Other
    }
}

/// The token for one raw token.
pub fn classify_tok(rt: &RawTok) -> (r: Token)
    ensures
        r.kind == tok_kind_of(rt@),
        r.text@ == rt.text@,
{
    let kind = if str_eq(rt.name.as_str(), "WHITESPACE") {
        TokKind::Whitespace
    } else if str_eq(rt.name.as_str(), "COMMENT") {
        TokKind::Comment
    } else if str_eq(rt.name.as_str(), "IDENT") {
        TokKind::Ident
    } else if str_eq(rt.name.as_str(), "LIFETIME_IDENT") {
        TokKind::Lifetime
    } else if str_eq(rt.name.as_str(), "L_CURLY") {
        TokKind::LCurly
    } else if str_eq(rt.name.as_str(), "R_CURLY") {
        TokKind::RCurly
    } else if str_eq(rt.name.as_str(), "L_PAREN") {
        TokKind::LParen
    } else if str_eq(rt.name.as_str(), "R_PAREN") {
        TokKind::RParen
    } else if str_eq(rt.name.as_str(), "SEMICOLON") {
        TokKind::Semicolon
    } else if str_eq(rt.name.as_str(), "THIN_ARROW") {
        TokKind::Arrow
    } else if str_eq(rt.name.as_str(), "EQ") {
        TokKind::Eq
    } else if str_eq(rt.name.as_str(), "FAT_ARROW") {
        TokKind::FatArrow
    } else if str_ends_with(rt.name.as_str(), "_KW") {
        TokKind::Keyword
    } else if literal_name(rt.name.as_str()) {
        TokKind::Literal
    } else if rt.punct {
        TokKind::Punct
    } else {
        TokKind::Other
    };
    Token { kind, text: rt.text.clone() }
}

/// The node category for one kind name of the outside parser.
pub open spec fn kind_of_name(name: Seq<char>) -> Kind {
    if name == "SOURCE_FILE"@ {
        Kind::SourceFile
    } else if name == "ERROR"@ {
        Kind::Error
    } else if name == "CONST"@ {
        Kind::Const
    } else if name == "ENUM"@ {
        Kind::Enum
    } else if name == "EXTERN_BLOCK"@ {
        Kind::ExternBlock
    } else if name == "EXTERN_CRATE"@ {
        Kind::ExternCrate
    } else if name == "FN"@ {
        Kind::Fn
    } else if name == "IMPL"@ {
        Kind::Impl
    } else if name == "MACRO_CALL"@ {
        Kind::MacroCall
    } else if name == "MACRO_DEF"@ {
        Kind::MacroDef
    } else if name == "MACRO_RULES"@ {
        Kind::MacroRules
    } else if name == "MODULE"@ {
        Kind::Module
    } else if name == "STATIC"@ {
        Kind::Static
    } else if name == "STRUCT"@ {
        Kind::Struct
    } else if name == "TRAIT"@ {
        Kind::Trait
    } else if name == "TYPE_ALIAS"@ {
        Kind::TypeAlias
    } else if name == "UNION"@ {
        Kind::Union
    } else if name == "USE"@ {
        Kind::Use
    } else if name == "NAME"@ {
        Kind::Name
    } else if name == "VISIBILITY"@ {
        Kind::Visibility
    } else if name == "ATTR"@ {
        Kind::Attr
    } else if name == "GENERIC_PARAM_LIST"@ {
        Kind::GenericParamList
    } else if name == "TYPE_PARAM"@ {
        Kind::GenericParam
    } else if name == "LIFETIME_PARAM"@ {
        Kind::GenericParam
    } else if name == "CONST_PARAM"@ {
        Kind::GenericParam
    } else if name == "VARIANT_LIST"@ {
        Kind::VariantList
    } else if name == "VARIANT"@ {
        Kind::Variant
    } else if name == "EXTERN_ITEM_LIST"@ {
        Kind::ExternItemList
    } else if name == "RET_TYPE"@ {
        Kind::RetType
    } else if name == "PARAM_LIST"@ {
        Kind::ParamList
    } else if name == "PARAM"@ {
        Kind::Param
    } else if name == "SELF_PARAM"@ {
        Kind::Param
    } else if name == "WHERE_CLAUSE"@ {
        Kind::WhereClause
    } else if name == "WHERE_PRED"@ {
        Kind::WherePred
    } else if name == "MATCH_ARM_LIST"@ {
        Kind::MatchArmList
    } else if name == "MATCH_ARM"@ {
        Kind::MatchArm
    } else if name == "ARG_LIST"@ {
        Kind::ArgList
    } else if name == "RECORD_FIELD_LIST"@ {
        Kind::RecordFieldList
    } else if name == "RECORD_FIELD"@ {
        Kind::RecordField
    } else if name == "TUPLE_FIELD_LIST"@ {
        Kind::TupleFieldList
    } else if name == "TUPLE_FIELD"@ {
        Kind::TupleField
    } else if name == "USE_TREE"@ {
        Kind::UseTree
    } else if name == "STMT_LIST"@ {
        Kind::StmtList
    } else if name == "ITEM_LIST"@ {
        Kind::ItemList
    } else if name == "ASSOC_ITEM_LIST"@ {
        Kind::AssocItemList
    } else if name == "TOKEN_TREE"@ {
        Kind::TokenTreeNode
    } else if name == "PATH"@ {
        Kind::Path
    } else if name == "LITERAL"@ {
        Kind::OtherExpr
    } else if name == "ARRAY_EXPR"@ {
        Kind::ArrayExpr
    } else if name == "AWAIT_EXPR"@ {
        Kind::AwaitExpr
    } else if name == "BIN_EXPR"@ {
        Kind::BinExpr
    } else if name == "BLOCK_EXPR"@ {
        Kind::BlockExpr
    } else if name == "BREAK_EXPR"@ {
        Kind::BreakExpr
    } else if name == "CALL_EXPR"@ {
        Kind::CallExpr
    } else if name == "CAST_EXPR"@ {
        Kind::CastExpr
    } else if name == "CLOSURE_EXPR"@ {
        Kind::ClosureExpr
    } else if name == "FOR_EXPR"@ {
        Kind::ForExpr
    } else if name == "IF_EXPR"@ {
        Kind::IfExpr
    } else if name == "LET_EXPR"@ {
        Kind::LetExpr
    } else if name == "IDENT_PAT"@ {
        Kind::IdentPat
    } else if name == "BOX_PAT"@ {
        Kind::BoxPat
    } else if name == "MACRO_PAT"@ {
        Kind::MacroPat
    } else if name == "OR_PAT"@ {
        Kind::OrPat
    } else if name == "PAREN_PAT"@ {
        Kind::ParenPat
    } else if name == "PATH_PAT"@ {
        Kind::PathPat
    } else if name == "EXPR_STMT"@ {
        Kind::ExprStmt
    } else if name == "LET_STMT"@ {
        Kind::LetStmt
    } else if ends_with_seq(name, "_TYPE"@) {
        Kind::Type
    } else if ends_with_seq(name, "_EXPR"@) {
        Kind::OtherExpr
    } else if ends_with_seq(name, "_PAT"@) {
        Kind::OtherPat
    } else {
        Kind::Other
    }
}

/// The node category for one kind name of the outside parser.
pub fn kind_for(name: &str) -> (r: Kind)
    ensures
        r == kind_of_name(name@),
{
    if str_eq(name, "SOURCE_FILE") {
        Kind::SourceFile
    } else if str_eq(name, "ERROR") {
        Kind::Error
    } else if str_eq(name, "CONST") {
        Kind::Const
    } else if str_eq(name, "ENUM") {
        Kind::Enum
    } else if str_eq(name, "EXTERN_BLOCK") {
        Kind::ExternBlock
    } else if str_eq(name, "EXTERN_CRATE") {
        Kind::ExternCrate
    } else if str_eq(name, "FN") {
        Kind::Fn
    } else if str_eq(name, "IMPL") {
        Kind::Impl
    } else if str_eq(name, "MACRO_CALL") {
        Kind::MacroCall
    } else if str_eq(name, "MACRO_DEF") {
        Kind::MacroDef
    } else if str_eq(name, "MACRO_RULES") {
        Kind::MacroRules
    } else if str_eq(name, "MODULE") {
        Kind::Module
    } else if str_eq(name, "STATIC") {
        Kind::Static
    } else if str_eq(name, "STRUCT") {
        Kind::Struct
    } else if str_eq(name, "TRAIT") {
        Kind::Trait
    } else if str_eq(name, "TYPE_ALIAS") {
        Kind::TypeAlias
    } else if str_eq(name, "UNION") {
        Kind::Union
    } else if str_eq(name, "USE") {
        Kind::Use
    } else if str_eq(name, "NAME") {
        Kind::Name
    } else if str_eq(name, "VISIBILITY") {
        Kind::Visibility
    } else if str_eq(name, "ATTR") {
        Kind::Attr
    } else if str_eq(name, "GENERIC_PARAM_LIST") {
        Kind::GenericParamList
    } else if str_eq(name, "TYPE_PARAM") {
        Kind::GenericParam
    } else if str_eq(name, "LIFETIME_PARAM") {
        Kind::GenericParam
    } else if str_eq(name, "CONST_PARAM") {
        Kind::GenericParam
    } else if str_eq(name, "VARIANT_LIST") {
        Kind::VariantList
    } else if str_eq(name, "VARIANT") {
        Kind::Variant
    } else if str_eq(name, "EXTERN_ITEM_LIST") {
        Kind::ExternItemList
    } else if str_eq(name, "RET_TYPE") {
        Kind::RetType
    } else if str_eq(name, "PARAM_LIST") {
        Kind::ParamList
    } else if str_eq(name, "PARAM") {
        Kind::Param
    } else if str_eq(name, "SELF_PARAM") {
        Kind::Param
    } else if str_eq(name, "WHERE_CLAUSE") {
        Kind::WhereClause
    } else if str_eq(name, "WHERE_PRED") {
        Kind::WherePred
    } else if str_eq(name, "MATCH_ARM_LIST") {
        Kind::MatchArmList
    } else if str_eq(name, "MATCH_ARM") {
        Kind::MatchArm
    } else if str_eq(name, "ARG_LIST") {
        Kind::ArgList
    } else if str_eq(name, "RECORD_FIELD_LIST") {
        Kind::RecordFieldList
    } else if str_eq(name, "RECORD_FIELD") {
        Kind::RecordField
    } else if str_eq(name, "TUPLE_FIELD_LIST") {
        Kind::TupleFieldList
    } else if str_eq(name, "TUPLE_FIELD") {
        Kind::TupleField
    } else if str_eq(name, "USE_TREE") {
        Kind::UseTree
    } else if str_eq(name, "STMT_LIST") {
        Kind::StmtList
    } else if str_eq(name, "ITEM_LIST") {
        Kind::ItemList
    } else if str_eq(name, "ASSOC_ITEM_LIST") {
        Kind::AssocItemList
    } else if str_eq(name, "TOKEN_TREE") {
        Kind::TokenTreeNode
    } else if str_eq(name, "PATH") {
        Kind::Path
    } else if str_eq(name, "LITERAL") {
        Kind::OtherExpr
    } else if str_eq(name, "ARRAY_EXPR") {
        Kind::ArrayExpr
    } else if str_eq(name, "AWAIT_EXPR") {
        Kind::AwaitExpr
    } else if str_eq(name, "BIN_EXPR") {
        Kind::BinExpr
    } else if str_eq(name, "BLOCK_EXPR") {
        Kind::BlockExpr
    } else if str_eq(name, "BREAK_EXPR") {
        Kind::BreakExpr
    } else if str_eq(name, "CALL_EXPR") {
        Kind::CallExpr
    } else if str_eq(name, "CAST_EXPR") {
        Kind::CastExpr
    } else if str_eq(name, "CLOSURE_EXPR") {
        Kind::ClosureExpr
    } else if str_eq(name, "FOR_EXPR") {
        Kind::ForExpr
    } else if str_eq(name, "IF_EXPR") {
        Kind::IfExpr
    } else if str_eq(name, "LET_EXPR") {
        Kind::LetExpr
    } else if str_eq(name, "IDENT_PAT") {
        Kind::IdentPat
    } else if str_eq(name, "BOX_PAT") {
        Kind::BoxPat
    } else if str_eq(name, "MACRO_PAT") {
        Kind::MacroPat
    } else if str_eq(name, "OR_PAT") {
        Kind::OrPat
    } else if str_eq(name, "PAREN_PAT") {
        Kind::ParenPat
    } else if str_eq(name, "PATH_PAT") {
        Kind::PathPat
    } else if str_eq(name, "EXPR_STMT") {
        Kind::ExprStmt
    } else if str_eq(name, "LET_STMT") {
        Kind::LetStmt
    } else if str_ends_with(name, "_TYPE") {
        Kind::Type
    } else if str_ends_with(name, "_EXPR") {
        Kind::OtherExpr
    } else if str_ends_with(name, "_PAT") {
        Kind::OtherPat
    } else {
        Kind::Other
    }
}

// ---------------------------------------------------------------------------
// Building the arena from the event stream
// ---------------------------------------------------------------------------

/// The nesting step of one event: entering a node descends, leaving one
/// ascends, a token stays.
pub open spec fn ev_delta(e: RawEventV) -> int {
    match e {
        RawEventV::Start(_) => 1,
        RawEventV::Finish => -1,
        RawEventV::Tok(_) => 0,
    }
}

/// The nesting depth after the first `k` events.
pub open spec fn depth_at(evs: Seq<RawEventV>, k: int) -> int
    decreases k,
{
    if k <= 0 {
        0
    } else {
        depth_at(evs, k - 1) + ev_delta(evs[k - 1])
    }
}

/// The chars of token text in the first `k` events.
pub open spec fn text_prefix(evs: Seq<RawEventV>, k: int) -> int
    decreases k,
{
    if k <= 0 {
        0
    } else {
        text_prefix(evs, k - 1) + (match evs[k - 1] {
            RawEventV::Tok(t) => t.text.len() as int,
            _ => 0,
        })
    }
}

/// Longer prefixes never hold less text.
pub proof fn lemma_text_prefix_mono(evs: Seq<RawEventV>, a: int, b: int)
    requires
        a <= b,
    ensures
        text_prefix(evs, a) <= text_prefix(evs, b),
    decreases b - a,
{
    if a < b {
        lemma_text_prefix_mono(evs, a, b - 1);
    }
}

/// A well-formed walk of one source file: non-empty, opened by the one
/// source-file node and closed exactly at the end, with every other node
/// and every token strictly inside it, and with a total text that the
/// machine can address.
pub open spec fn events_wf(evs: Seq<RawEventV>) -> bool {
    &&& evs.len() > 0
    &&& (evs[0] matches RawEventV::Start(n) && kind_of_name(n) == Kind::SourceFile)
    &&& forall|k: int|
        0 < k < evs.len() ==> ((#[trigger] evs[k]) matches RawEventV::Start(n) ==> kind_of_name(
            n,
        ) != Kind::SourceFile)
    &&& forall|k: int| 0 < k < evs.len() ==> #[trigger] depth_at(evs, k) >= 1
    &&& depth_at(evs, evs.len() as int) == 0
    &&& text_prefix(evs, evs.len() as int) <= usize::MAX
}

/// Whether node `j`'s recorded span is an ordered range within `[lo, hi]`.
pub open spec fn span_in(s: Seq<Node>, j: int, lo: int, hi: int) -> bool {
    lo <= s[j].start && s[j].start <= s[j].end && s[j].end <= hi
}

/// Local well-formedness of one child entry in a bare node sequence.
pub open spec fn child_ok(s: Seq<Node>, j: int, k: int) -> bool {
    match s[j].children@[k] {
        Child::Node(c) => j < c < s.len() && s[c as int].parent == Some(j as usize),
        Child::Token(_) => true,
    }
}

/// Local well-formedness of one node in a bare node sequence.
pub open spec fn node_ok(s: Seq<Node>, j: int) -> bool {
    forall|k: int| 0 <= k < s[j].children@.len() ==> #[trigger] child_ok(s, j, k)
}

/// One classified walk event: what the tree keeps of a raw event.
pub enum ClassEv {
    Start(Kind),
    Tok(TokenV),
    Finish,
}

/// The classified image of a raw event stream: node kinds by their names,
/// tokens by their classified kind and text.
pub open spec fn classify_events(evs: Seq<RawEventV>) -> Seq<ClassEv> {
    evs.map_values(
        |e: RawEventV|
            match e {
                RawEventV::Start(n) => ClassEv::Start(kind_of_name(n)),
                RawEventV::Tok(rt) => ClassEv::Tok(TokenV { kind: tok_kind_of(rt), text: rt.text }),
                RawEventV::Finish => ClassEv::Finish,
            },
    )
}

/// Local well-formedness of every node from `j` on: what a walk of the
/// subtree rooted at `j` passes through.
pub open spec fn nodes_ok_from(s: Seq<Node>, j: int) -> bool {
    forall|i: int| j <= i < s.len() ==> #[trigger] node_ok(s, i)
}

/// The classified walk of the first `k` children of node `j`: a token
/// child is one event, a node child contributes its whole walk.
pub open spec fn flat_children(s: Seq<Node>, j: int, k: int) -> Seq<ClassEv>
    decreases s.len() - j, k,
        when nodes_ok_from(s, j) && 0 <= j < s.len() && k <= s[j].children@.len()
{
    if k <= 0 {
        Seq::empty()
    } else {
        proof {
            assert(node_ok(s, j));
            assert(child_ok(s, j, k - 1));
        }
        flat_children(s, j, k - 1) + match s[j].children@[k - 1] {
            Child::Token(tok) => seq![ClassEv::Tok(tok@)],
            Child::Node(c) => flat_node(s, c as int),
        }
    }
}

/// The classified walk of the subtree rooted at node `j`: enter the node,
/// walk its children, leave it.
pub open spec fn flat_node(s: Seq<Node>, j: int) -> Seq<ClassEv>
    decreases s.len() - j, s[j].children@.len() + 1,
        when nodes_ok_from(s, j) && 0 <= j < s.len()
{
    seq![ClassEv::Start(s[j].kind)] + flat_children(s, j, s[j].children@.len() as int) + seq![
        ClassEv::Finish,
    ]
}

/// Whether tree `t` is the tree of the raw event stream `evs`: its walk is
/// exactly the stream's classified image, so its pre-order node kinds are
/// the named kinds of the Start events, its tokens are the classified Tok
/// events in order, and its nesting follows the walk.
pub open spec fn tree_models(t: &Tree, evs: Seq<RawEventV>) -> bool {
    flat_node(t.nodes@, 0) == classify_events(evs)
}

/// The tokens a classified walk passes, in order.
pub open spec fn class_toks(es: Seq<ClassEv>) -> Seq<TokenV>
    decreases es.len(),
{
    if es.len() == 0 {
        Seq::empty()
    } else {
        class_toks(es.drop_last()) + (match es.last() {
            ClassEv::Tok(tv) => seq![tv],
            _ => Seq::<TokenV>::empty(),
        })
    }
}

/// Token extraction distributes over concatenation.
pub proof fn lemma_class_toks_add(a: Seq<ClassEv>, b: Seq<ClassEv>)
    ensures
        class_toks(a + b) == class_toks(a) + class_toks(b),
    decreases b.len(),
{
    if b.len() == 0 {
        assert(a + b =~= a);
        assert(class_toks(b) =~= Seq::<TokenV>::empty());
        assert(class_toks(a) + class_toks(b) =~= class_toks(a));
    } else {
        lemma_class_toks_add(a, b.drop_last());
        assert((a + b).drop_last() =~= a + b.drop_last());
        assert((a + b).last() == b.last());
        assert(class_toks(a) + class_toks(b.drop_last()) + (match b.last() {
            ClassEv::Tok(tv) => seq![tv],
            _ => Seq::<TokenV>::empty(),
        }) =~= class_toks(a) + class_toks(b));
    }
}

/// In a well-formed tree every node is locally well-formed, in the walk's
/// own terms.
pub proof fn lemma_wf_nodes_ok(t: &Tree)
    requires
        t.wf(),
    ensures
        forall|i: int| 0 <= i < t.nodes@.len() ==> #[trigger] node_ok(t.nodes@, i),
{
    assert forall|i: int| 0 <= i < t.nodes@.len() implies #[trigger] node_ok(t.nodes@, i) by {
        assert(t.wf_at(i));
        assert forall|k: int|
            0 <= k < t.nodes@[i].children@.len() implies #[trigger] child_ok(t.nodes@, i, k) by {
            assert(t.node(i).children@[k] == t.nodes@[i].children@[k]);
        }
    }
}

/// Over the first `k` children of a node, the subtree's token list and the
/// classified walk pass the same tokens.
proof fn lemma_toks_match_children(t: &Tree, i: int, k: int)
    requires
        t.wf(),
        0 <= i < t.len(),
        0 <= k <= t.node(i).children@.len(),
    ensures
        toks_view(tok_list_upto(t, i, k)) == class_toks(flat_children(t.nodes@, i, k)),
    decreases t.len() - i, 0int, k,
{
    reveal_with_fuel(class_toks, 3);
    lemma_wf_nodes_ok(t);
    assert(nodes_ok_from(t.nodes@, i));
    if k == 0 {
        assert(toks_view(tok_list_upto(t, i, 0)) =~= Seq::<TokenV>::empty());
        assert(class_toks(flat_children(t.nodes@, i, 0)) =~= Seq::<TokenV>::empty());
    } else {
        lemma_toks_match_children(t, i, k - 1);
        assert(t.wf_at(i));
        assert(node_ok(t.nodes@, i));
        assert(child_ok(t.nodes@, i, k - 1));
        let a = tok_list_upto(t, i, k - 1);
        let fa = flat_children(t.nodes@, i, k - 1);
        match t.node(i).children@[k - 1] {
            Child::Token(tok) => {
                assert(toks_view(a + seq![tok]) =~= toks_view(a) + seq![tok@]);
                lemma_class_toks_add(fa, seq![ClassEv::Tok(tok@)]);
                assert(seq![ClassEv::Tok(tok@)].drop_last() =~= Seq::<ClassEv>::empty());
                assert(class_toks(seq![ClassEv::Tok(tok@)]) =~= seq![tok@]);
            },
            Child::Node(c) => {
                lemma_toks_match_walk(t, c as int);
                assert(toks_view(a + tok_list(t, c as int)) =~= toks_view(a) + toks_view(
                    tok_list(t, c as int),
                ));
                lemma_class_toks_add(fa, flat_node(t.nodes@, c as int));
            },
        }
    }
}

/// The subtree's token list and its classified walk pass the same tokens:
/// the walk only adds the enter and leave marks around them.
pub proof fn lemma_toks_match_walk(t: &Tree, i: int)
    requires
        t.wf(),
        0 <= i < t.len(),
    ensures
        toks_view(tok_list(t, i)) == class_toks(flat_node(t.nodes@, i)),
    decreases t.len() - i, 1int, 0int,
{
    reveal_with_fuel(class_toks, 3);
    lemma_wf_nodes_ok(t);
    assert(nodes_ok_from(t.nodes@, i));
    let klen = t.node(i).children@.len() as int;
    lemma_toks_match_children(t, i, klen);
    let mid = flat_children(t.nodes@, i, klen);
    let st = seq![ClassEv::Start(t.nodes@[i].kind)];
    let fin = seq![ClassEv::Finish];
    lemma_class_toks_add(st, mid);
    lemma_class_toks_add(st + mid, fin);
    assert(st.drop_last() =~= Seq::<ClassEv>::empty());
    assert(fin.drop_last() =~= Seq::<ClassEv>::empty());
    assert(class_toks(st) =~= Seq::<TokenV>::empty());
    assert(class_toks(fin) =~= Seq::<TokenV>::empty());
    assert(flat_node(t.nodes@, i) == (st + mid) + fin);
    assert(class_toks(flat_node(t.nodes@, i)) =~= toks_view(tok_list_upto(t, i, klen)));
}

/// Over any prefix of a stream, the classified walk's token texts
/// concatenate to the stream's token text.
proof fn lemma_classify_text(ev: Seq<RawEventV>, k: int)
    requires
        0 <= k <= ev.len(),
    ensures
        texts_concat(class_toks(classify_events(ev).take(k))) == events_text(ev, k),
    decreases k,
{
    reveal_with_fuel(class_toks, 3);
    reveal_with_fuel(texts_concat, 3);
    if k > 0 {
        lemma_classify_text(ev, k - 1);
        let ce = classify_events(ev);
        let x = ce.take(k - 1);
        assert(ce.take(k).drop_last() =~= x);
        assert(ce.take(k).last() == ce[k - 1]);
        match ev[k - 1] {
            RawEventV::Tok(rt) => {
                let tv = TokenV { kind: tok_kind_of(rt), text: rt.text };
                assert(ce[k - 1] == ClassEv::Tok(tv));
                assert(class_toks(ce.take(k)) =~= class_toks(x).push(tv));
                assert(class_toks(x).push(tv).drop_last() =~= class_toks(x));
                assert(texts_concat(class_toks(ce.take(k))) == texts_concat(class_toks(x))
                    + tv.text);
            },
            _ => {
                assert(class_toks(ce.take(k)) =~= class_toks(x));
            },
        }
    } else {
        assert(classify_events(ev).take(0) =~= Seq::<ClassEv>::empty());
        assert(texts_concat(class_toks(classify_events(ev).take(0))) =~= Seq::<char>::empty());
    }
}

/// The tree of an event stream covers exactly the stream's text: the
/// subtree text of its root is the concatenation of the stream's token
/// texts.
pub proof fn lemma_tree_text_is_events_text(t: &Tree, ev: Seq<RawEventV>)
    requires
        t.wf(),
        tree_models(t, ev),
    ensures
        crate::tree::text_of(t, 0) == events_text(ev, ev.len() as int),
{
    lemma_toks_match_walk(t, 0);
    lemma_classify_text(ev, ev.len() as int);
    assert(classify_events(ev).take(ev.len() as int) =~= classify_events(ev));
    assert(crate::tree::tok_seq(t, 0) == toks_view(tok_list(t, 0)));
}

/// The classified walk reads only the nodes from `j` on; it is unmoved by
/// any change to the left of `j`.
proof fn lemma_flat_node_frame(s1: Seq<Node>, s2: Seq<Node>, j: int)
    requires
        0 <= j < s1.len(),
        s1.len() <= s2.len(),
        nodes_ok_from(s1, j),
        nodes_ok_from(s2, j),
        forall|x: int| j <= x < s1.len() ==> s2[x] == #[trigger] s1[x],
    ensures
        flat_node(s2, j) == flat_node(s1, j),
    decreases s1.len() - j, s1[j].children@.len() + 1,
{
    lemma_flat_children_frame(s1, s2, j, s1[j].children@.len() as int);
}

/// The walk of a child prefix reads only the nodes from `j` on.
proof fn lemma_flat_children_frame(s1: Seq<Node>, s2: Seq<Node>, j: int, k: int)
    requires
        0 <= j < s1.len(),
        s1.len() <= s2.len(),
        nodes_ok_from(s1, j),
        nodes_ok_from(s2, j),
        forall|x: int| j <= x < s1.len() ==> s2[x] == #[trigger] s1[x],
        0 <= k <= s1[j].children@.len(),
    ensures
        flat_children(s2, j, k) == flat_children(s1, j, k),
    decreases s1.len() - j, k,
{
    if k > 0 {
        lemma_flat_children_frame(s1, s2, j, k - 1);
        assert(node_ok(s1, j));
        assert(child_ok(s1, j, k - 1));
        match s1[j].children@[k - 1] {
            Child::Node(c) => {
                lemma_flat_node_frame(s1, s2, c as int);
            },
            Child::Token(_) => {},
        }
    }
}

/// The walk of a child prefix is also unmoved when the node itself keeps
/// that prefix of its children while gaining more, and everything to its
/// right stands unchanged.
proof fn lemma_flat_prefix_frame(s1: Seq<Node>, s2: Seq<Node>, j: int, k: int)
    requires
        0 <= j < s1.len(),
        s1.len() <= s2.len(),
        nodes_ok_from(s1, j),
        nodes_ok_from(s2, j),
        forall|x: int| j < x < s1.len() ==> s2[x] == #[trigger] s1[x],
        0 <= k <= s1[j].children@.len(),
        k <= s2[j].children@.len(),
        forall|x: int| 0 <= x < k ==> s2[j].children@[x] == #[trigger] s1[j].children@[x],
    ensures
        flat_children(s2, j, k) == flat_children(s1, j, k),
    decreases k,
{
    if k > 0 {
        lemma_flat_prefix_frame(s1, s2, j, k - 1);
        assert(node_ok(s1, j));
        assert(child_ok(s1, j, k - 1));
        match s1[j].children@[k - 1] {
            Child::Node(c) => {
                lemma_flat_node_frame(s1, s2, c as int);
            },
            Child::Token(_) => {},
        }
    }
}

/// The running child position reads only the node's own start, its first
/// `k` children, and the recorded ends of the child nodes among them; it is
/// unmoved by any change elsewhere.
proof fn lemma_span_pos_frame(s1: Seq<Node>, s2: Seq<Node>, j: int, k: int)
    requires
        0 <= j < s1.len(),
        j < s2.len(),
        s2[j].start == s1[j].start,
        0 <= k <= s1[j].children@.len(),
        k <= s2[j].children@.len(),
        forall|x: int| 0 <= x < k ==> s2[j].children@[x] == #[trigger] s1[j].children@[x],
        forall|x: int|
            0 <= x < k ==> ((#[trigger] s1[j].children@[x]) matches Child::Node(c) ==> c < s1.len()
                && c < s2.len() && s2[c as int].end == s1[c as int].end),
    ensures
        node_span_pos(s2, j, k) == node_span_pos(s1, j, k),
    decreases k,
{
    if k > 0 {
        lemma_span_pos_frame(s1, s2, j, k - 1);
    }
}

/// A finished node's exact layout survives any change that leaves the node
/// itself and everything to its right untouched.
proof fn lemma_span_exact_frame(s1: Seq<Node>, s2: Seq<Node>, j: int, idx: int)
    requires
        0 <= idx < j < s1.len(),
        s1.len() <= s2.len(),
        forall|x: int| 0 <= x < s1.len() && x != idx ==> s2[x] == #[trigger] s1[x],
        node_ok(s1, j),
        node_span_exact_at(s1, j),
    ensures
        node_span_exact_at(s2, j),
{
    assert(s2[j] == s1[j]);
    assert forall|x: int|
        0 <= x < s1[j].children@.len() implies ((#[trigger] s1[j].children@[x]) matches Child::Node(
        c,
    ) ==> c < s1.len() && c < s2.len() && s2[c as int].end == s1[c as int].end
        && s2[c as int].start == s1[c as int].start) by {
        assert(child_ok(s1, j, x));
    }
    assert forall|k: int|
        0 <= k < s2[j].children@.len() implies ((#[trigger] s2[j].children@[k]) matches Child::Node(
        c,
    ) ==> s2[c as int].start == node_span_pos(s2, j, k)) by {
        lemma_span_pos_frame(s1, s2, j, k);
        assert(child_ok(s1, j, k));
    }
    lemma_span_pos_frame(s1, s2, j, s1[j].children@.len() as int);
}

/// The still-open node's partial layout: the running position after all the
/// children gathered so far stands at `upto`, and each gathered child node
/// starts where its left siblings left off.
pub open spec fn span_partial(s: Seq<Node>, j: int, upto: int) -> bool {
    &&& node_span_pos(s, j, s[j].children@.len() as int) == upto
    &&& forall|k: int|
        0 <= k < s[j].children@.len() ==> ((#[trigger] s[j].children@[k]) matches Child::Node(c)
            ==> s[c as int].start == node_span_pos(s, j, k))
}

/// Appending nodes to the arena disturbs no finished node.
proof fn lemma_node_ok_grow(s1: Seq<Node>, s2: Seq<Node>, j: int)
    requires
        0 <= j < s1.len(),
        s1.len() <= s2.len(),
        s2.subrange(0, s1.len() as int) == s1,
        node_ok(s1, j),
    ensures
        node_ok(s2, j),
{
    assert(s2[j] == s1[j]);
    assert forall|k: int| 0 <= k < s2[j].children@.len() implies #[trigger] child_ok(s2, j, k) by {
        assert(child_ok(s1, j, k));
        match s1[j].children@[k] {
            Child::Node(c) => {
                assert(s2[c as int] == s1[c as int]);
            },
            Child::Token(_) => {},
        }
    }
}

/// Builds the subtree whose `Start` event stands at `pos`, appending its
/// nodes to `arena` in depth-first pre-order; hands back the position after
/// the subtree's `Finish` and the char offset after its text.  `None` on a
/// stream that is not a well-formed walk.
#[verifier::rlimit(100)]
fn build_from(
    evs: &Vec<RawEvent>,
    pos: usize,
    parent: Option<usize>,
    offset: usize,
    arena: &mut Vec<Node>,
    Ghost(d): Ghost<int>,
) -> (r: Option<(usize, usize)>)
    requires
        pos <= evs@.len(),
        (match parent {
            Some(p) => p < old(arena)@.len(),
            None => old(arena)@.len() == 0,
        }),
        d >= 0,
        depth_at(events_view(evs@), pos as int) == d,
        (parent.is_none() <==> d == 0),
        (parent.is_none() <==> pos == 0),
        0 < pos ==> pos < evs@.len() && (events_view(evs@)[pos as int] matches RawEventV::Start(
            _,
        )),
        offset == text_prefix(events_view(evs@), pos as int),
    ensures
        (match r {
            Some(pr) => {
                let old_len = old(arena)@.len() as int;
                &&& pos < pr.0 <= evs@.len()
                &&& old_len < final(arena)@.len()
                &&& final(arena)@.subrange(0, old_len) == old(arena)@
                &&& final(arena)@[old_len].parent == parent
                &&& (final(arena)@[old_len].kind == Kind::SourceFile <==> parent.is_none())
                &&& forall|j: int|
                    old_len < j < final(arena)@.len() ==> ((#[trigger] final(arena)@[j].parent) matches Some(p) && old_len <= p < j)
                &&& forall|j: int|
                    old_len < j < final(arena)@.len() ==> (#[trigger] final(arena)@[j].kind)
                        != Kind::SourceFile
                &&& forall|j: int|
                    old_len <= j < final(arena)@.len() ==> node_ok(final(arena)@, j)
                &&& depth_at(events_view(evs@), pr.0 as int) == d
                &&& pr.1 == text_prefix(events_view(evs@), pr.0 as int)
                &&& (events_view(evs@)[pos as int] matches RawEventV::Start(n0) && (kind_of_name(
                    n0,
                ) == Kind::SourceFile <==> parent.is_none()))
                &&& forall|k: int|
                    pos < k < pr.0 ==> #[trigger] depth_at(events_view(evs@), k) >= d + 1
                &&& forall|k: int|
                    pos < k < pr.0 ==> ((#[trigger] events_view(
                        evs@,
                    )[k]) matches RawEventV::Start(n) ==> kind_of_name(n) != Kind::SourceFile)
                &&& offset <= pr.1
                &&& final(arena)@[old_len].start == offset
                &&& final(arena)@[old_len].end == pr.1
                &&& forall|j: int|
                    old_len <= j < final(arena)@.len() ==> #[trigger] span_in(
                        final(arena)@,
                        j,
                        offset as int,
                        pr.1 as int,
                    )
                &&& forall|j: int|
                    old_len <= j < final(arena)@.len() ==> #[trigger] node_span_exact_at(
                        final(arena)@,
                        j,
                    )
                &&& flat_node(final(arena)@, old_len) == classify_events(
                    events_view(evs@).subrange(pos as int, pr.0 as int),
                )
            },
            None => !events_wf(events_view(evs@)),
        }),
    decreases evs@.len() - pos,
{
    let ghost ev = events_view(evs@);
    proof {
        assert(forall|k: int| 0 <= k < evs@.len() ==> ev[k] == #[trigger] evs@[k]@);
    }
    if pos >= evs.len() {
        proof {
            assert(pos == 0 && evs@.len() == 0);
            assert(!events_wf(ev));
        }
        return None;
    }
    let idx = arena.len();
    match &evs[pos] {
        RawEvent::Start(name) => {
            let kind = kind_for(name.as_str());
            let is_sf = matches!(kind, Kind::SourceFile);
            if parent.is_some() == is_sf {
                proof {
                    assert(ev[pos as int] matches RawEventV::Start(n) && kind_of_name(n) == kind);
                    assert(!events_wf(ev));
                }
                return None;
            }
            arena.push(
                Node { kind, parent, children: Vec::new(), start: offset, end: offset },
            );
        },
        _ => {
            proof {
                assert(pos == 0);
                assert(!(ev[0] matches RawEventV::Start(n)));
                assert(!events_wf(ev));
            }
            return None;
        },
    }
    let mut p = pos + 1;
    let mut off = offset;
    loop
        invariant
            ev == events_view(evs@),
            forall|k: int| 0 <= k < evs@.len() ==> ev[k] == #[trigger] evs@[k]@,
            d >= 0,
            depth_at(ev, p as int) == d + 1,
            off == text_prefix(ev, p as int),
            (ev[pos as int] matches RawEventV::Start(n0) && (kind_of_name(n0)
                == Kind::SourceFile <==> parent.is_none()) && arena@[idx as int].kind
                == kind_of_name(n0)),
            flat_children(arena@, idx as int, arena@[idx as int].children@.len() as int)
                == classify_events(ev.subrange(pos as int + 1, p as int)),
            forall|k: int| pos < k < p ==> #[trigger] depth_at(ev, k) >= d + 1,
            forall|k: int|
                pos < k < p ==> ((#[trigger] ev[k]) matches RawEventV::Start(n)
                    ==> kind_of_name(n) != Kind::SourceFile),
            p <= evs@.len(),
            pos + 1 <= p,
            idx == old(arena)@.len(),
            idx < arena@.len(),
            arena@.subrange(0, idx as int) == old(arena)@,
            arena@[idx as int].parent == parent,
            (arena@[idx as int].kind == Kind::SourceFile <==> parent.is_none()),
            (match parent {
                Some(q) => q < idx,
                None => idx == 0,
            }),
            offset <= off,
            arena@[idx as int].start == offset,
            forall|j: int|
                idx < j < arena@.len() ==> #[trigger] span_in(arena@, j, offset as int, off as int),
            forall|j: int| idx < j < arena@.len() ==> #[trigger] node_span_exact_at(arena@, j),
            span_partial(arena@, idx as int, off as int),
            forall|j: int|
                idx < j < arena@.len() ==> ((#[trigger] arena@[j].parent) matches Some(q) && idx
                    <= q < j),
            forall|j: int|
                idx < j < arena@.len() ==> (#[trigger] arena@[j].kind) != Kind::SourceFile,
            forall|j: int| idx <= j < arena@.len() ==> node_ok(arena@, j),
        decreases evs@.len() - p,
    {
        if p >= evs.len() {
            proof {
                assert(depth_at(ev, evs@.len() as int) == d + 1);
                assert(!events_wf(ev));
            }
            return None;
        }
        let ghost pre = arena@;
        let ghost off0 = off;
        match &evs[p] {
            RawEvent::Finish => {
                arena[idx].end = off;
                proof {
                    assert(forall|j: int|
                        0 <= j < arena@.len() && j != idx ==> arena@[j] == #[trigger] pre[j]);
                    assert(arena@.subrange(0, idx as int) =~= pre.subrange(0, idx as int));
                    assert(forall|j: int|
                        idx <= j < arena@.len() ==> arena@[j].children == pre[j].children);
                    assert forall|j: int| idx <= j < arena@.len() implies node_ok(arena@, j) by {
                        assert(node_ok(pre, j));
                        assert forall|k: int|
                            0 <= k < arena@[j].children@.len() implies #[trigger] child_ok(
                            arena@,
                            j,
                            k,
                        ) by {
                            assert(child_ok(pre, j, k));
                        }
                    }
                }
                proof {
                    assert(ev[p as int] == evs@[p as int]@);
                    assert(depth_at(ev, p as int + 1) == d);
                    assert(text_prefix(ev, p as int + 1) == off);
                    assert forall|j: int|
                        idx <= j < arena@.len() implies #[trigger] span_in(
                        arena@,
                        j,
                        offset as int,
                        off as int,
                    ) by {
                        if j != idx {
                            assert(span_in(pre, j, offset as int, off0 as int));
                            assert(arena@[j] == pre[j]);
                        }
                    }
                    assert(arena@.subrange(0, idx as int) =~= pre.subrange(0, idx as int));
                    assert(arena@[idx as int].parent == parent);
                    assert forall|j: int|
                        idx < j < arena@.len() implies ((#[trigger] arena@[j].parent) matches Some(
                        q,
                    ) && idx <= q < j) by {
                        assert(arena@[j] == pre[j]);
                    }
                    assert forall|j: int|
                        idx < j < arena@.len() implies (#[trigger] arena@[j].kind)
                        != Kind::SourceFile by {
                        assert(arena@[j] == pre[j]);
                    }
                    assert forall|k: int|
                        pos < k < p + 1 implies #[trigger] depth_at(ev, k) >= d + 1 by {
                        if k == p {
                            assert(depth_at(ev, p as int) == d + 1);
                        }
                    }
                    assert forall|k: int|
                        pos < k < p + 1 implies ((#[trigger] ev[k]) matches RawEventV::Start(n)
                            ==> kind_of_name(n) != Kind::SourceFile) by {
                        if k == p {
                            assert(ev[p as int] is Finish);
                        }
                    }
                    assert forall|j: int|
                        idx <= j < arena@.len() implies #[trigger] node_span_exact_at(
                        arena@,
                        j,
                    ) by {
                        if j != idx {
                            assert(node_ok(pre, j));
                            assert(node_span_exact_at(pre, j));
                            lemma_span_exact_frame(pre, arena@, j, idx as int);
                        } else {
                            assert(span_partial(pre, idx as int, off0 as int));
                            assert(node_ok(pre, idx as int));
                            assert forall|x: int|
                                0 <= x < pre[idx as int].children@.len() implies ((
                            #[trigger] pre[idx as int].children@[x]) matches Child::Node(c)
                                ==> c < pre.len() && c < arena@.len() && arena@[c as int].end
                                    == pre[c as int].end && arena@[c as int].start == pre[
                                c as int].start) by {
                                assert(child_ok(pre, idx as int, x));
                            }
                            assert forall|k2: int|
                                0 <= k2 < arena@[idx as int].children@.len() implies ((
                            #[trigger] arena@[idx as int].children@[k2]) matches Child::Node(c)
                                ==> arena@[c as int].start == node_span_pos(
                                arena@,
                                idx as int,
                                k2,
                            )) by {
                                lemma_span_pos_frame(pre, arena@, idx as int, k2);
                                assert(child_ok(pre, idx as int, k2));
                            }
                            lemma_span_pos_frame(
                                pre,
                                arena@,
                                idx as int,
                                pre[idx as int].children@.len() as int,
                            );
                        }
                    }
                }
                proof {
                    let klen = pre[idx as int].children@.len() as int;
                    let n0 = ev[pos as int]->Start_0;
                    assert(nodes_ok_from(pre, idx as int));
                    assert(nodes_ok_from(arena@, idx as int));
                    lemma_flat_prefix_frame(pre, arena@, idx as int, klen);
                    assert(flat_node(arena@, idx as int) =~= seq![
                        ClassEv::Start(arena@[idx as int].kind),
                    ] + flat_children(arena@, idx as int, klen) + seq![ClassEv::Finish]);
                    assert(classify_events(ev.subrange(pos as int, p as int + 1)) =~= seq![
                        ClassEv::Start(kind_of_name(n0)),
                    ] + classify_events(ev.subrange(pos as int + 1, p as int)) + seq![
                        ClassEv::Finish,
                    ]);
                }
                return Some(((p + 1), off));
            },
            RawEvent::Tok(rt) => {
                let tok = classify_tok(rt);
                let tok_len = tok.text.unicode_len();
                proof {
                    assert(ev[p as int] == evs@[p as int]@);
                    assert(text_prefix(ev, p as int + 1) == off + rt.text@.len());
                }
                if tok_len > usize::MAX - off {
                    proof {
                        lemma_text_prefix_mono(ev, p as int + 1, ev.len() as int);
                        assert(!events_wf(ev));
                    }
                    return None;
                }
                off = off + tok_len;
                arena[idx].children.push(Child::Token(tok));
                proof {
                    assert(forall|j: int|
                        0 <= j < arena@.len() && j != idx ==> arena@[j] == #[trigger] pre[j]);
                    assert(arena@.subrange(0, idx as int) =~= pre.subrange(0, idx as int));
                    assert forall|j: int| idx <= j < arena@.len() implies node_ok(arena@, j) by {
                        assert(node_ok(pre, j));
                        assert forall|k: int|
                            0 <= k < arena@[j].children@.len() implies #[trigger] child_ok(
                            arena@,
                            j,
                            k,
                        ) by {
                            if j != idx || k < pre[j].children@.len() {
                                assert(child_ok(pre, j, k));
                            }
                        }
                    }
                }
                proof {
                    assert(depth_at(ev, p as int + 1) == d + 1);
                    assert forall|j: int|
                        idx < j < arena@.len() implies #[trigger] span_in(
                        arena@,
                        j,
                        offset as int,
                        off as int,
                    ) by {
                        assert(arena@[j] == pre[j]);
                        assert(span_in(pre, j, offset as int, off0 as int));
                        assert(off0 <= off);
                    }
                    assert forall|j: int|
                        idx < j < arena@.len() implies #[trigger] node_span_exact_at(
                        arena@,
                        j,
                    ) by {
                        assert(node_ok(pre, j));
                        assert(node_span_exact_at(pre, j));
                        lemma_span_exact_frame(pre, arena@, j, idx as int);
                    }
                    let ghost klen = pre[idx as int].children@.len() as int;
                    assert(node_ok(pre, idx as int));
                    assert(arena@[idx as int].children@.len() == klen + 1);
                    assert(forall|x: int|
                        0 <= x < klen ==> arena@[idx as int].children@[x] == #[trigger] pre[
                        idx as int].children@[x]);
                    assert forall|x: int|
                        0 <= x < klen implies ((#[trigger] pre[idx as int].children@[x]) matches Child::Node(
                        c,
                    ) ==> c < pre.len() && c < arena@.len() && arena@[c as int].end == pre[
                        c as int].end && arena@[c as int].start == pre[c as int].start) by {
                        assert(child_ok(pre, idx as int, x));
                    }
                    assert(span_partial(pre, idx as int, off0 as int));
                    lemma_span_pos_frame(pre, arena@, idx as int, klen);
                    assert(arena@[idx as int].children@[klen] == Child::Token(tok));
                    assert(node_span_pos(arena@, idx as int, klen + 1) == node_span_pos(
                        arena@,
                        idx as int,
                        klen,
                    ) + tok.text@.len());
                    assert forall|k2: int|
                        0 <= k2 < arena@[idx as int].children@.len() implies ((
                    #[trigger] arena@[idx as int].children@[k2]) matches Child::Node(c)
                        ==> arena@[c as int].start == node_span_pos(arena@, idx as int, k2)) by {
                        if k2 < klen {
                            lemma_span_pos_frame(pre, arena@, idx as int, k2);
                            assert(child_ok(pre, idx as int, k2));
                        }
                    }
                    assert(span_partial(arena@, idx as int, off as int));
                    assert(nodes_ok_from(pre, idx as int));
                    assert(nodes_ok_from(arena@, idx as int));
                    lemma_flat_prefix_frame(pre, arena@, idx as int, klen);
                    assert(flat_children(arena@, idx as int, klen + 1) =~= flat_children(
                        arena@,
                        idx as int,
                        klen,
                    ) + seq![ClassEv::Tok(tok@)]);
                    assert(classify_events(ev.subrange(pos as int + 1, p as int + 1))
                        =~= classify_events(ev.subrange(pos as int + 1, p as int)) + seq![
                        ClassEv::Tok(tok@),
                    ]);
                }
                p = p + 1;
            },
            RawEvent::Start(_) => {
                let child_idx = arena.len();
                proof {
                    assert(ev[p as int] == evs@[p as int]@);
                }
                let sub = build_from(evs, p, Some(idx), off, arena, Ghost(d + 1));
                match sub {
                    None => {
                        return None;
                    },
                    Some(pr) => {
                        let ghost mid = arena@;
                        proof {
                            assert(mid.subrange(0, idx as int) =~= pre.subrange(
                                0,
                                idx as int,
                            ));
                            assert(forall|j: int|
                                0 <= j < pre.len() ==> mid[j] == #[trigger] pre[j]);
                            assert forall|j: int|
                                idx <= j < pre.len() implies node_ok(mid, j) by {
                                lemma_node_ok_grow(pre, mid, j);
                            }
                        }
                        arena[idx].children.push(Child::Node(child_idx));
                        proof {
                            assert(forall|j: int|
                                0 <= j < arena@.len() && j != idx ==> arena@[j] == #[trigger] mid[
                                j]);
                            assert(arena@.subrange(0, idx as int) =~= mid.subrange(
                                0,
                                idx as int,
                            ));
                            assert(arena@.subrange(0, idx as int) =~= pre.subrange(
                                0,
                                idx as int,
                            ));
                            assert forall|j: int|
                                idx <= j < arena@.len() implies node_ok(arena@, j) by {
                                assert(node_ok(mid, j));
                                assert forall|k: int|
                                    0 <= k < arena@[j].children@.len() implies #[trigger] child_ok(
                                    arena@,
                                    j,
                                    k,
                                ) by {
                                    if j != idx || k < mid[j].children@.len() {
                                        assert(child_ok(mid, j, k));
                                        if j != idx {
                                            assert(arena@[j] == mid[j]);
                                        }
                                    } else {
                                        assert(arena@[j].children@[k] == Child::Node(
                                            child_idx,
                                        ));
                                        assert(mid[child_idx as int].parent == Some(idx));
                                    }
                                }
                            }
                        }
                        proof {
                            assert forall|j: int|
                                idx < j < arena@.len() implies #[trigger] span_in(
                                arena@,
                                j,
                                offset as int,
                                pr.1 as int,
                            ) by {
                                assert(arena@[j] == mid[j]);
                                if j < pre.len() {
                                    assert(mid[j] == pre[j]);
                                    assert(span_in(pre, j, offset as int, off0 as int));
                                } else {
                                    assert(span_in(mid, j, off0 as int, pr.1 as int));
                                }
                            }
                            assert forall|j: int|
                                idx < j < arena@.len() && j != child_idx implies (
                            #[trigger] arena@[j].kind) != Kind::SourceFile by {
                                assert(arena@[j] == mid[j]);
                                if j < pre.len() {
                                    assert(mid[j] == pre[j]);
                                    assert(pre[j].kind != Kind::SourceFile);
                                } else {
                                    assert(child_idx < j < mid.len());
                                    assert(mid[j].kind != Kind::SourceFile);
                                }
                            }
                            assert(arena@[child_idx as int].kind != Kind::SourceFile);
                        }
                        proof {
                            assert forall|j: int|
                                idx < j < arena@.len() && j != child_idx implies (
                            #[trigger] node_span_exact_at(arena@, j)) by {
                                if j < pre.len() {
                                    assert(node_ok(pre, j));
                                    assert(node_span_exact_at(pre, j));
                                    lemma_span_exact_frame(pre, mid, j, idx as int);
                                    assert(node_ok(mid, j));
                                    lemma_span_exact_frame(mid, arena@, j, idx as int);
                                } else {
                                    assert(node_span_exact_at(mid, j));
                                    assert(node_ok(mid, j));
                                    lemma_span_exact_frame(mid, arena@, j, idx as int);
                                }
                            }
                            assert(node_span_exact_at(mid, child_idx as int));
                            assert(node_ok(mid, child_idx as int));
                            lemma_span_exact_frame(mid, arena@, child_idx as int, idx as int);
                            let ghost klen = pre[idx as int].children@.len() as int;
                            assert(node_ok(pre, idx as int));
                            assert(span_partial(pre, idx as int, off0 as int));
                            assert(mid[idx as int] == pre[idx as int]);
                            assert(arena@[idx as int].children@.len() == klen + 1);
                            assert(forall|x: int|
                                0 <= x < klen ==> arena@[idx as int].children@[x]
                                    == #[trigger] pre[idx as int].children@[x]);
                            assert forall|x: int|
                                0 <= x < klen implies ((#[trigger] pre[
                            idx as int].children@[x]) matches Child::Node(c) ==> c < pre.len()
                                && c < arena@.len() && arena@[c as int].end == pre[c as int].end
                                && arena@[c as int].start == pre[c as int].start) by {
                                assert(child_ok(pre, idx as int, x));
                            }
                            lemma_span_pos_frame(pre, arena@, idx as int, klen);
                            assert(arena@[idx as int].children@[klen] == Child::Node(child_idx));
                            assert(arena@[child_idx as int].end == pr.1);
                            assert(node_span_pos(arena@, idx as int, klen + 1) == pr.1);
                            assert forall|k2: int|
                                0 <= k2 < arena@[idx as int].children@.len() implies ((
                            #[trigger] arena@[idx as int].children@[k2]) matches Child::Node(c)
                                ==> arena@[c as int].start == node_span_pos(
                                arena@,
                                idx as int,
                                k2,
                            )) by {
                                if k2 < klen {
                                    lemma_span_pos_frame(pre, arena@, idx as int, k2);
                                    assert(child_ok(pre, idx as int, k2));
                                } else {
                                    assert(arena@[child_idx as int].start == off0);
                                }
                            }
                            assert(span_partial(arena@, idx as int, pr.1 as int));
                            assert forall|j: int|
                                idx < j < arena@.len() implies ((#[trigger] arena@[j].parent) matches Some(
                            q,
                            ) && idx <= q < j) by {
                                assert(arena@[j] == mid[j]);
                                if j < pre.len() {
                                    assert(mid[j] == pre[j]);
                                }
                            }
                            let klen = pre[idx as int].children@.len() as int;
                            assert(nodes_ok_from(pre, idx as int));
                            assert(nodes_ok_from(mid, idx as int));
                            assert(nodes_ok_from(arena@, idx as int));
                            assert(nodes_ok_from(mid, child_idx as int));
                            assert(nodes_ok_from(arena@, child_idx as int));
                            lemma_flat_node_frame(mid, arena@, child_idx as int);
                            lemma_flat_prefix_frame(pre, mid, idx as int, klen);
                            lemma_flat_prefix_frame(mid, arena@, idx as int, klen);
                            assert(flat_children(arena@, idx as int, klen + 1)
                                =~= flat_children(arena@, idx as int, klen) + flat_node(
                                arena@,
                                child_idx as int,
                            ));
                            assert(classify_events(ev.subrange(pos as int + 1, pr.0 as int))
                                =~= classify_events(ev.subrange(pos as int + 1, p as int))
                                + classify_events(ev.subrange(p as int, pr.0 as int)));
                        }
                        p = pr.0;
                        off = pr.1;
                    },
                }
            },
        }
    }
}

/// Builds a tree from a depth-first event stream: one source-file node at
/// the top, tokens only inside nodes, every node entered and left exactly
/// once, and nothing after the top node is left.  `None` otherwise; a tree
/// that comes back is well-formed.
#[verifier::rlimit(100)]
pub fn tree_from_events(evs: &Vec<RawEvent>) -> (r: Option<Tree>)
    ensures
        (r matches Some(t) ==> t.wf() && t.spans_nested() && t.spans_exact() && tree_models(
            &t,
            events_view(evs@),
        ) && t.node(0).end == text_prefix(events_view(evs@), evs@.len() as int)),
        r is Some <==> events_wf(events_view(evs@)),
{
    let mut arena: Vec<Node> = Vec::new();
    match build_from(evs, 0, None, 0, &mut arena, Ghost(0)) {
        None => None,
        Some(pr) => {
            if pr.0 != evs.len() {
                proof {
                    let ev = events_view(evs@);
                    assert(depth_at(ev, pr.0 as int) == 0);
                    assert(0 < pr.0 < ev.len());
                    assert(!events_wf(ev));
                }
                return None;
            }
            proof {
                let ev = events_view(evs@);
                assert(ev.len() > 0);
                assert(pr.1 == text_prefix(ev, ev.len() as int));
                assert(text_prefix(ev, ev.len() as int) <= usize::MAX);
                assert(events_wf(ev));
                assert(arena@[0].start == 0 && arena@[0].end == pr.1);
            }
            let ghost ar = arena@;
            let t = Tree { nodes: arena };
            proof {
                assert(t.nodes@ == ar);
                assert(t.node(0).start == 0);
                assert forall|j: int| 0 <= j < t.len() implies #[trigger] t.span_ok(j) by {
                    assert(t.node(j) == ar[j]);
                    assert(span_in(ar, j, 0, pr.1 as int));
                    assert(ar[0].end == pr.1);
                }
                assert(t.spans_nested());
                assert forall|j: int|
                    0 <= j < t.len() implies #[trigger] node_span_exact_at(t.nodes@, j) by {
                    assert(node_span_exact_at(ar, j));
                }
                assert(t.spans_exact());
                assert(nodes_ok_from(ar, 0));
                assert(events_view(evs@).subrange(0, evs@.len() as int) =~= events_view(evs@));
                assert(t.nodes@ == ar);
                assert(flat_node(t.nodes@, 0) == classify_events(events_view(evs@)));
                assert(tree_models(&t, events_view(evs@)));
                assert forall|i: int| 0 <= i < t.len() implies t.wf_at(i) by {
                    assert(node_ok(t.nodes@, i));
                    assert forall|k: int|
                        0 <= k < t.node(i).children@.len() implies (match #[trigger] t.node(
                        i,
                    ).children@[k] {
                        Child::Node(c) => i < c < t.len() && t.node(c as int).parent == Some(
                            i as usize,
                        ),
                        Child::Token(_) => true,
                    }) by {
                        assert(child_ok(t.nodes@, i, k));
                    }
                }
            }
            Some(t)
        },
    }
}

/// Parses one file's text through the outside parser and mirrors the parse
/// into the arena model.  `None` exactly when the parser reports syntax
/// errors or hands back a walk that is not a well-formed event stream.
/// The length bound keeps the text within the parser's 32-bit positions.
pub fn parse_source_tree(text: &str) -> (r: Option<Tree>)
    requires
        text@.len() <= u32::MAX as nat / 4,
    ensures
        (r matches Some(t) ==> t.wf() && t.spans_nested() && t.spans_exact()),
        (r matches Some(t) ==> (parse_of(text@) matches Some(ev) && tree_models(&t, ev)
            && t.node(0).end == text_prefix(ev, ev.len() as int))),
        (parse_of(text@) matches Some(ev) ==> events_text(ev, ev.len() as int) == text@),
        r is Some ==> parse_of(text@) is Some,
        r is None ==> (match parse_of(text@) {
            Some(ev) => !events_wf(ev),
            None => true,
        }),
        parse_of(text@) is None ==> r is None,
{
    match parse_to_events(text) {
        Option::None => None,
        Option::Some(evs) => tree_from_events(&evs),
    }
}

} // verus!
