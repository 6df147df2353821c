//! The concrete-syntax-tree model: an arena of nodes addressed by index.
//!
//! A node has a kind, a half-open char-offset span, a parent index (absent
//! only at the root) and a list of children, each either another node or a
//! token.  The arena holds the nodes in depth-first pre-order: every child of
//! a node stands at a strictly larger index than the node itself, which also
//! grounds termination of every walk over the tree.

use vstd::prelude::*;

verus! {

/// The syntactic category of a tree node.
///
/// Categories the checks and the visitor never tell apart share a variant:
/// every type stands as `Type`, an expression without children of its own to
/// walk stands as `OtherExpr`, such a pattern as `OtherPat`, and anything else
/// as `Other`.
#[derive(Clone, Copy, Debug, PartialEq, Eq, Structural)]
pub enum Kind {
    SourceFile,
    Error,
    // items
    Const,
    Enum,
    ExternBlock,
    ExternCrate,
    Fn,
    Impl,
    MacroCall,
    MacroDef,
    MacroRules,
    Module,
    Static,
    Struct,
    Trait,
    TypeAlias,
    Union,
    Use,
    // named parts of items
    Name,
    Visibility,
    Attr,
    GenericParamList,
    GenericParam,
    VariantList,
    Variant,
    ExternItemList,
    RetType,
    ParamList,
    Param,
    WhereClause,
    WherePred,
    MatchArmList,
    MatchArm,
    ArgList,
    RecordFieldList,
    RecordField,
    TupleFieldList,
    TupleField,
    UseTree,
    StmtList,
    ItemList,
    AssocItemList,
    TokenTreeNode,
    Type,
    Path,
    // expressions
    ArrayExpr,
    AwaitExpr,
    BinExpr,
    BlockExpr,
    BreakExpr,
    CallExpr,
    CastExpr,
    ClosureExpr,
    ForExpr,
    IfExpr,
    LetExpr,
    OtherExpr,
    // patterns
    IdentPat,
    BoxPat,
    MacroPat,
    OrPat,
    ParenPat,
    PathPat,
    OtherPat,
    // statements
    ExprStmt,
    LetStmt,
    Other,
}

/// The kind of a token.
///
/// The delimiters, terminators and operators that the formatting checks read
/// each have a variant of their own; all other punctuation is `Punct`.
#[derive(Clone, Copy, Debug, PartialEq, Eq, Structural)]
pub enum TokKind {
    Whitespace,
    Comment,
    Ident,
    Keyword,
    Literal,
    Lifetime,
    LCurly,
    RCurly,
    LParen,
    RParen,
    Semicolon,
    Arrow,
    Eq,
    FatArrow,
    Punct,
    Other,
}

/// A token: a kind and the literal text it covers.
#[derive(Debug)]
pub struct Token {
    pub kind: TokKind,
    pub text: String,
}

impl Clone for Token {
    fn clone(&self) -> (r: Token)
        ensures
            r == *self,
    {
        Token { kind: self.kind, text: self.text.clone() }
    }
}

/// The mathematical image of a token: its kind and its text as a char sequence.
pub struct TokenV {
    pub kind: TokKind,
    pub text: Seq<char>,
}

impl View for Token {
    type V = TokenV;

    open spec fn view(&self) -> TokenV {
        TokenV { kind: self.kind, text: self.text@ }
    }
}

/// One child of a node: a sub-node, named by its arena index, or a token.
#[derive(Clone, Debug)]
pub enum Child {
    Node(usize),
    Token(Token),
}

/// A node of the tree.
#[derive(Clone, Debug)]
pub struct Node {
    pub kind: Kind,
    /// Index of the parent node; `None` only at the root.
    pub parent: Option<usize>,
    /// The children in source order.
    pub children: Vec<Child>,
    /// Char offset of the first char covered by this node.
    pub start: usize,
    /// Char offset one past the last char covered by this node.
    pub end: usize,
}

/// A concrete syntax tree: an arena of nodes in depth-first pre-order,
/// the root at index 0.
#[derive(Clone, Debug)]
pub struct Tree {
    pub nodes: Vec<Node>,
}

// ---------------------------------------------------------------------------
// Well-formedness
// ---------------------------------------------------------------------------

impl Tree {
    /// The node count.
    pub open spec fn len(&self) -> int {
        self.nodes@.len() as int
    }

    /// The node at index `i`.
    pub open spec fn node(&self, i: int) -> Node {
        self.nodes@[i]
    }

    /// The structural part of well-formedness at one node: every child node
    /// stands further right in the arena, below the arena's end, and points
    /// back at this node as its parent.
    pub open spec fn wf_at(&self, i: int) -> bool {
        forall|k: int|
            0 <= k < self.node(i).children@.len() ==> match #[trigger] self.node(
                i,
            ).children@[k] {
                Child::Node(c) => i < c < self.len() && self.node(c as int).parent == Some(
                    i as usize,
                ),
                Child::Token(_) => true,
            }
    }

    /// Well-formedness of the whole tree: non-empty, rooted in the one
    /// source-file node, which has no parent, every other node with a parent
    /// to its left, and every node locally well-formed.
    pub open spec fn wf(&self) -> bool {
        &&& 0 < self.len()
        &&& self.node(0).kind == Kind::SourceFile
        &&& self.node(0).parent.is_none()
        &&& forall|i: int|
            0 < i < self.len() ==> ((#[trigger] self.node(i).parent) matches Some(p) && p < i)
        &&& forall|i: int| 0 < i < self.len() ==> (#[trigger] self.node(i).kind) != Kind::SourceFile
        &&& forall|i: int| 0 <= i < self.len() ==> self.wf_at(i)
    }

    /// Whether node `j`'s span is an ordered range inside the root's.
    pub open spec fn span_ok(&self, j: int) -> bool {
        self.node(j).start <= self.node(j).end && self.node(j).end <= self.node(0).end
    }

    /// The recorded spans nest: the root covers the text from offset 0, and
    /// every node's span is an ordered range inside the root's.
    pub open spec fn spans_nested(&self) -> bool {
        &&& self.node(0).start == 0
        &&& forall|j: int| 0 <= j < self.len() ==> #[trigger] self.span_ok(j)
    }

    /// The recorded spans are exact: every node's span is laid out by the
    /// running char position of its children, so each span measures exactly
    /// the text its subtree covers.
    pub open spec fn spans_exact(&self) -> bool {
        &&& self.node(0).start == 0
        &&& forall|j: int| 0 <= j < self.len() ==> #[trigger] node_span_exact_at(self.nodes@, j)
    }
}

/// The char position after the first `k` children of node `j`, starting at
/// the node's own start: a token advances it by its text, a child node
/// jumps it to that child's recorded end.
pub open spec fn node_span_pos(s: Seq<Node>, j: int, k: int) -> int
    decreases k,
{
    if k <= 0 {
        s[j].start as int
    } else {
        match s[j].children@[k - 1] {
            Child::Token(tok) => node_span_pos(s, j, k - 1) + tok.text@.len(),
            Child::Node(c) => s[c as int].end as int,
        }
    }
}

/// Whether node `j`'s recorded span agrees with its children's layout:
/// every child node starts at the running position its left siblings leave,
/// and the node ends where its last child does.
pub open spec fn node_span_exact_at(s: Seq<Node>, j: int) -> bool {
    &&& forall|k: int|
        0 <= k < s[j].children@.len() ==> ((#[trigger] s[j].children@[k]) matches Child::Node(c)
            ==> s[c as int].start == node_span_pos(s, j, k))
    &&& s[j].end == node_span_pos(s, j, s[j].children@.len() as int)
}

// ---------------------------------------------------------------------------
// The token sequence and text of a subtree
// ---------------------------------------------------------------------------

/// The images of a sequence of tokens.
pub open spec fn toks_view(s: Seq<Token>) -> Seq<TokenV> {
    s.map_values(|t: Token| t@)
}

/// The tokens under the first `k` children of node `i`, in source order.
pub open spec fn tok_list_upto(t: &Tree, i: int, k: int) -> Seq<Token>
    decreases t.len() - i, k,
        when t.wf() && 0 <= i < t.len() && k <= t.node(i).children@.len()
{
    if k <= 0 {
        Seq::empty()
    } else {
        proof {
            assert(t.wf_at(i));
        }
        tok_list_upto(t, i, k - 1) + match t.node(i).children@[k - 1] {
            Child::Token(tok) => seq![tok],
            Child::Node(c) => tok_list(t, c as int),
        }
    }
}

/// The tokens of the whole subtree rooted at node `i`, in source order.
pub open spec fn tok_list(t: &Tree, i: int) -> Seq<Token>
    decreases t.len() - i, t.node(i).children@.len() + 1,
        when t.wf() && 0 <= i < t.len()
{
    tok_list_upto(t, i, t.node(i).children@.len() as int)
}

/// The images of the tokens of the subtree rooted at node `i`.
pub open spec fn tok_seq(t: &Tree, i: int) -> Seq<TokenV> {
    toks_view(tok_list(t, i))
}

/// The chars covered by a sequence of tokens.
pub open spec fn texts_concat(s: Seq<TokenV>) -> Seq<char>
    decreases s.len(),
{
    if s.len() == 0 {
        Seq::empty()
    } else {
        texts_concat(s.drop_last()) + s.last().text
    }
}

/// Concatenation distributes over `texts_concat`.
pub proof fn lemma_texts_concat_add(a: Seq<TokenV>, b: Seq<TokenV>)
    ensures
        texts_concat(a + b) == texts_concat(a) + texts_concat(b),
    decreases b.len(),
{
    if b.len() == 0 {
        assert(a + b =~= a);
        assert(texts_concat(b) =~= Seq::<char>::empty());
        assert(texts_concat(a) + texts_concat(b) =~= texts_concat(a));
    } else {
        lemma_texts_concat_add(a, b.drop_last());
        assert((a + b).drop_last() =~= a + b.drop_last());
        assert((a + b).last() == b.last());
        assert(texts_concat(a) + texts_concat(b.drop_last()) + b.last().text =~= texts_concat(a)
            + texts_concat(b));
    }
}

/// The text of the subtree rooted at node `i`.
pub open spec fn text_of(t: &Tree, i: int) -> Seq<char> {
    texts_concat(tok_seq(t, i))
}

/// In a tree with exact spans, the running child position of node `i` after
/// `k` children measures exactly the text those children cover.
pub proof fn lemma_span_measures_upto(t: &Tree, i: int, k: int)
    requires
        t.wf(),
        t.spans_exact(),
        0 <= i < t.len(),
        0 <= k <= t.node(i).children@.len(),
    ensures
        node_span_pos(t.nodes@, i, k) == t.node(i).start + texts_concat(
            toks_view(tok_list_upto(t, i, k)),
        ).len(),
    decreases t.len() - i, 0int, k,
{
    reveal_with_fuel(texts_concat, 3);
    if k == 0 {
        assert(texts_concat(toks_view(tok_list_upto(t, i, 0))) =~= Seq::<char>::empty());
    } else {
        lemma_span_measures_upto(t, i, k - 1);
        assert(t.wf_at(i));
        let a = toks_view(tok_list_upto(t, i, k - 1));
        match t.node(i).children@[k - 1] {
            Child::Token(tok) => {
                let b = toks_view(seq![tok]);
                assert(b =~= seq![tok@]);
                assert(b.drop_last() =~= Seq::<TokenV>::empty());
                assert(toks_view(tok_list_upto(t, i, k)) =~= a + b);
                lemma_texts_concat_add(a, b);
                assert(texts_concat(b) =~= tok.text@);
            },
            Child::Node(c) => {
                assert(node_span_exact_at(t.nodes@, i));
                assert(t.node(c as int).start == node_span_pos(t.nodes@, i, k - 1));
                lemma_span_measures_text(t, c as int);
                let b = toks_view(tok_list(t, c as int));
                assert(toks_view(tok_list_upto(t, i, k)) =~= a + b);
                lemma_texts_concat_add(a, b);
            },
        }
    }
}

/// In a tree with exact spans, every node's span measures exactly the text
/// its subtree covers.
pub proof fn lemma_span_measures_text(t: &Tree, i: int)
    requires
        t.wf(),
        t.spans_exact(),
        0 <= i < t.len(),
    ensures
        t.node(i).end == t.node(i).start + text_of(t, i).len(),
    decreases t.len() - i, 1int, 0int,
{
    assert(node_span_exact_at(t.nodes@, i));
    lemma_span_measures_upto(t, i, t.node(i).children@.len() as int);
}

impl Tree {
    /// Collects the tokens of the subtree rooted at `i`, in source order,
    /// onto the end of `out`.
    pub fn tokens_into(&self, i: usize, out: &mut Vec<Token>)
        requires
            self.wf(),
            i < self.len(),
        ensures
            final(out)@ == old(out)@ + tok_list(self, i as int),
        decreases self.len() - i,
    {
        let ghost base = out@;
        let n = self.nodes[i].children.len();
        let mut k: usize = 0;
        while k < n
            invariant
                self.wf(),
                i < self.len(),
                n == self.node(i as int).children@.len(),
                k <= n,
                out@ == base + tok_list_upto(self, i as int, k as int),
            decreases n - k,
        {
            match &self.nodes[i].children[k] {
                Child::Token(tok) => {
                    out.push(tok.clone());
                    proof {
                        assert(out@ =~= base + tok_list_upto(self, i as int, k as int + 1));
                    }
                },
                Child::Node(c) => {
                    proof {
                        assert(self.wf_at(i as int));
                        assert(self.node(i as int).children@[k as int] == Child::Node(*c));
                    }
                    self.tokens_into(*c, out);
                    proof {
                        assert(out@ =~= base + tok_list_upto(self, i as int, k as int + 1));
                    }
                },
            }
            k = k + 1;
        }
    }

    /// The tokens of the subtree rooted at `i`, in source order.
    pub fn subtree_tokens(&self, i: usize) -> (r: Vec<Token>)
        requires
            self.wf(),
            i < self.len(),
        ensures
            r@ == tok_list(self, i as int),
    {
        let mut out: Vec<Token> = Vec::new();
        self.tokens_into(i, &mut out);
        out
    }

    /// The text covered by the subtree rooted at `i`.
    pub fn node_text(&self, i: usize) -> (r: String)
        requires
            self.wf(),
            i < self.len(),
        ensures
            r@ == text_of(self, i as int),
    {
        let toks = self.subtree_tokens(i);
        let mut buffer = String::new();
        let n = toks.len();
        let mut k: usize = 0;
        while k < n
            invariant
                n == toks@.len(),
                toks@ == tok_list(self, i as int),
                k <= n,
                buffer@ == texts_concat(toks_view(toks@).take(k as int)),
            decreases n - k,
        {
            proof {
                assert(toks_view(toks@).take(k as int + 1).drop_last() =~= toks_view(toks@).take(
                    k as int,
                ));
            }
            buffer.append(toks[k].text.as_str());
            k = k + 1;
        }
        proof {
            assert(toks_view(toks@).take(n as int) =~= toks_view(toks@));
        }
        buffer
    }
}

} // verus!
