//! The generic visitor: a structured, recursive descent over semantic
//! categories (items, expressions, patterns, statements) rather than raw
//! node kinds.
//!
//! A rule implements [`RuleVisitor`]: one hook per construct, plus a
//! spec-level trace, [`RuleVisitor::events`], that every hook extends by
//! exactly its own visit.  The `walk_*` functions drive the traversal, and
//! each carries the component's real contract: walking a construct reports
//! to the visitor exactly the visit sequence of [`walk_souce_file_events`]
//! and its companions — each construct's semantically relevant children, in
//! the fixed source order, each exactly once.  Constructs with no children
//! of interest are leaves, proved to leave the visitor untouched.
//! [`VisitLog`] is the library's own implementation: it does nothing but
//! stand witness to the trace.
//!
//! Overriding here means implementing hooks.  The traversal itself is
//! fixed by the walks — an implementation can act on any construct but
//! cannot replace or prune the descent beneath it.  That is deliberately
//! narrower than a classic overridable default walk: in exchange, the
//! visit sequence is a proved contract rather than a convention.

use vstd::prelude::*;

use crate::tree::{Child, Kind, TokKind, Token, Tree};

verus! {

/// Whether a node kind is an item.
pub open spec fn is_item_kind(k: Kind) -> bool {
    match k {
        Kind::Const => true,
        Kind::Enum => true,
        Kind::ExternBlock => true,
        Kind::ExternCrate => true,
        Kind::Fn => true,
        Kind::Impl => true,
        Kind::MacroCall => true,
        Kind::MacroDef => true,
        Kind::MacroRules => true,
        Kind::Module => true,
        Kind::Static => true,
        Kind::Struct => true,
        Kind::Trait => true,
        Kind::TypeAlias => true,
        Kind::Union => true,
        Kind::Use => true,
        _ => false,
    }
}

/// Whether a node kind is an expression.
pub open spec fn is_expr_kind(k: Kind) -> bool {
    match k {
        Kind::ArrayExpr => true,
        Kind::AwaitExpr => true,
        Kind::BinExpr => true,
        Kind::BlockExpr => true,
        Kind::BreakExpr => true,
        Kind::CallExpr => true,
        Kind::CastExpr => true,
        Kind::ClosureExpr => true,
        Kind::ForExpr => true,
        Kind::IfExpr => true,
        Kind::LetExpr => true,
        Kind::OtherExpr => true,
        _ => false,
    }
}

/// Whether a node kind is a pattern.
pub open spec fn is_pat_kind(k: Kind) -> bool {
    match k {
        Kind::IdentPat => true,
        Kind::BoxPat => true,
        Kind::MacroPat => true,
        Kind::OrPat => true,
        Kind::ParenPat => true,
        Kind::PathPat => true,
        Kind::OtherPat => true,
        _ => false,
    }
}

/// Whether a node kind is an item.
pub fn item_kind(k: Kind) -> (r: bool)
    ensures
        r == is_item_kind(k),
{
    match k {
        Kind::Const => true,
        Kind::Enum => true,
        Kind::ExternBlock => true,
        Kind::ExternCrate => true,
        Kind::Fn => true,
        Kind::Impl => true,
        Kind::MacroCall => true,
        Kind::MacroDef => true,
        Kind::MacroRules => true,
        Kind::Module => true,
        Kind::Static => true,
        Kind::Struct => true,
        Kind::Trait => true,
        Kind::TypeAlias => true,
        Kind::Union => true,
        Kind::Use => true,
        _ => false,
    }
}

/// Whether a node kind is an expression.
pub fn expr_kind(k: Kind) -> (r: bool)
    ensures
        r == is_expr_kind(k),
{
    match k {
        Kind::ArrayExpr => true,
        Kind::AwaitExpr => true,
        Kind::BinExpr => true,
        Kind::BlockExpr => true,
        Kind::BreakExpr => true,
        Kind::CallExpr => true,
        Kind::CastExpr => true,
        Kind::ClosureExpr => true,
        Kind::ForExpr => true,
        Kind::IfExpr => true,
        Kind::LetExpr => true,
        Kind::OtherExpr => true,
        _ => false,
    }
}

/// Whether a node kind is a pattern.
pub fn pat_kind(k: Kind) -> (r: bool)
    ensures
        r == is_pat_kind(k),
{
    match k {
        Kind::IdentPat => true,
        Kind::BoxPat => true,
        Kind::MacroPat => true,
        Kind::OrPat => true,
        Kind::ParenPat => true,
        Kind::PathPat => true,
        Kind::OtherPat => true,
        _ => false,
    }
}

// ---------------------------------------------------------------------------
// Child access
// ---------------------------------------------------------------------------

/// The first child node of `i` at or after child position `q` with kind
/// `k`, if any.
pub open spec fn first_child_from(t: &Tree, i: int, q: int, k: Kind) -> Option<usize>
    decreases t.node(i).children@.len() - q,
        when 0 <= q
{
    if q >= t.node(i).children@.len() {
        Option::<usize>::None
    } else {
        match t.node(i).children@[q] {
            Child::Node(c) => if t.node(c as int).kind == k {
                Some(c)
            } else {
                first_child_from(t, i, q + 1, k)
            },
            Child::Token(_) => first_child_from(t, i, q + 1, k),
        }
    }
}

/// The first child node of `i` with kind `k`, if any.
pub open spec fn first_child_kind(t: &Tree, i: int, k: Kind) -> Option<usize> {
    first_child_from(t, i, 0, k)
}

/// The first expression child of `i` at or after child position `q`, a
/// block passed over when `skip_block` is set.
pub open spec fn first_expr_from(t: &Tree, i: int, q: int, skip_block: bool) -> Option<usize>
    decreases t.node(i).children@.len() - q,
        when 0 <= q
{
    if q >= t.node(i).children@.len() {
        Option::<usize>::None
    } else {
        match t.node(i).children@[q] {
            Child::Node(c) => if is_expr_kind(t.node(c as int).kind) && !(skip_block && t.node(
                c as int,
            ).kind == Kind::BlockExpr) {
                Some(c)
            } else {
                first_expr_from(t, i, q + 1, skip_block)
            },
            Child::Token(_) => first_expr_from(t, i, q + 1, skip_block),
        }
    }
}

/// The first expression child of `i`, if any.
pub open spec fn first_expr_child(t: &Tree, i: int, skip_block: bool) -> Option<usize> {
    first_expr_from(t, i, 0, skip_block)
}

/// The first pattern child of `i` at or after child position `q`, if any.
pub open spec fn first_pat_from(t: &Tree, i: int, q: int) -> Option<usize>
    decreases t.node(i).children@.len() - q,
        when 0 <= q
{
    if q >= t.node(i).children@.len() {
        Option::<usize>::None
    } else {
        match t.node(i).children@[q] {
            Child::Node(c) => if is_pat_kind(t.node(c as int).kind) {
                Some(c)
            } else {
                first_pat_from(t, i, q + 1)
            },
            Child::Token(_) => first_pat_from(t, i, q + 1),
        }
    }
}

/// The first pattern child of `i`, if any.
pub open spec fn first_pat_child(t: &Tree, i: int) -> Option<usize> {
    first_pat_from(t, i, 0)
}

/// The comment tokens among the first `k` children of `i`, in order.
pub open spec fn comment_list_upto(t: &Tree, i: int, k: int) -> Seq<Token>
    decreases k,
{
    if k <= 0 {
        Seq::empty()
    } else {
        comment_list_upto(t, i, k - 1) + (match t.node(i).children@[k - 1] {
            Child::Token(tok) => if tok.kind == TokKind::Comment {
                seq![tok]
            } else {
                Seq::<Token>::empty()
            },
            Child::Node(_) => Seq::<Token>::empty(),
        })
    }
}

/// The comment tokens among the children of `i`, in order.
pub open spec fn comment_list(t: &Tree, i: int) -> Seq<Token> {
    comment_list_upto(t, i, t.node(i).children@.len() as int)
}

/// The attribute children among the first `k` children of `i`, in order.
pub open spec fn attr_list_upto(t: &Tree, i: int, k: int) -> Seq<usize>
    decreases k,
{
    if k <= 0 {
        Seq::empty()
    } else {
        attr_list_upto(t, i, k - 1) + (match t.node(i).children@[k - 1] {
            Child::Node(c) => if t.node(c as int).kind == Kind::Attr {
                seq![c]
            } else {
                Seq::<usize>::empty()
            },
            Child::Token(_) => Seq::<usize>::empty(),
        })
    }
}

/// The attribute children of `i`, in order.
pub open spec fn attr_list(t: &Tree, i: int) -> Seq<usize> {
    attr_list_upto(t, i, t.node(i).children@.len() as int)
}

/// The first child node of `i` with kind `k`, if any: `None` exactly when
/// no child of that kind exists.
pub fn find_child(t: &Tree, i: usize, k: Kind) -> (r: Option<usize>)
    requires
        t.wf(),
        i < t.len(),
    ensures
        r == first_child_kind(t, i as int, k),
        (r matches Some(c) ==> i < c < t.len() && t.node(c as int).kind == k),
{
    let n = t.nodes[i].children.len();
    let mut q: usize = 0;
    while q < n
        invariant
            t.wf(),
            i < t.len(),
            n == t.node(i as int).children@.len(),
            q <= n,
            first_child_kind(t, i as int, k) == first_child_from(t, i as int, q as int, k),
        decreases n - q,
    {
        proof {
            assert(t.wf_at(i as int));
        }
        match &t.nodes[i].children[q] {
            Child::Node(c) => {
                if t.nodes[*c].kind == k {
                    return Some(*c);
                }
            },
            Child::Token(_) => {},
        }
        q = q + 1;
    }
    None
}

/// The first expression child of `i`, if any — `None` exactly when there
/// is none; a block is passed over when `skip_block` is set (to tell a
/// loop's header expression from its body).
pub fn find_child_expr(t: &Tree, i: usize, skip_block: bool) -> (r: Option<usize>)
    requires
        t.wf(),
        i < t.len(),
    ensures
        r == first_expr_child(t, i as int, skip_block),
        (r matches Some(c) ==> i < c < t.len() && is_expr_kind(t.node(c as int).kind)),
{
    let n = t.nodes[i].children.len();
    let mut q: usize = 0;
    while q < n
        invariant
            t.wf(),
            i < t.len(),
            n == t.node(i as int).children@.len(),
            q <= n,
            first_expr_child(t, i as int, skip_block) == first_expr_from(
                t,
                i as int,
                q as int,
                skip_block,
            ),
        decreases n - q,
    {
        proof {
            assert(t.wf_at(i as int));
        }
        match &t.nodes[i].children[q] {
            Child::Node(c) => {
                let hit = expr_kind(t.nodes[*c].kind) && !(skip_block && matches!(
                    t.nodes[*c].kind,
                    Kind::BlockExpr,
                ));
                if hit {
                    return Some(*c);
                }
            },
            Child::Token(_) => {},
        }
        q = q + 1;
    }
    None
}

/// The first pattern child of `i`, if any — `None` exactly when there is
/// none.
pub fn find_child_pat(t: &Tree, i: usize) -> (r: Option<usize>)
    requires
        t.wf(),
        i < t.len(),
    ensures
        r == first_pat_child(t, i as int),
        (r matches Some(c) ==> i < c < t.len() && is_pat_kind(t.node(c as int).kind)),
{
    let n = t.nodes[i].children.len();
    let mut q: usize = 0;
    while q < n
        invariant
            t.wf(),
            i < t.len(),
            n == t.node(i as int).children@.len(),
            q <= n,
            first_pat_child(t, i as int) == first_pat_from(t, i as int, q as int),
        decreases n - q,
    {
        proof {
            assert(t.wf_at(i as int));
        }
        match &t.nodes[i].children[q] {
            Child::Node(c) => {
                if pat_kind(t.nodes[*c].kind) {
                    return Some(*c);
                }
            },
            Child::Token(_) => {},
        }
        q = q + 1;
    }
    None
}

/// The comment tokens among the immediate children of `i`, in source order.
pub fn comment_tokens(t: &Tree, i: usize) -> (r: Vec<Token>)
    requires
        t.wf(),
        i < t.len(),
    ensures
        r@ == comment_list(t, i as int),
{
    let n = t.nodes[i].children.len();
    let mut out: Vec<Token> = Vec::new();
    let mut q: usize = 0;
    while q < n
        invariant
            t.wf(),
            i < t.len(),
            n == t.node(i as int).children@.len(),
            q <= n,
            out@ == comment_list_upto(t, i as int, q as int),
        decreases n - q,
    {
        match &t.nodes[i].children[q] {
            Child::Token(tok) => {
                if matches!(tok.kind, TokKind::Comment) {
                    out.push(tok.clone());
                }
            },
            Child::Node(_) => {},
        }
        proof {
            assert(out@ =~= comment_list_upto(t, i as int, q as int + 1));
        }
        q = q + 1;
    }
    out
}

/// The attribute children of `i`, in source order.
pub fn attr_children(t: &Tree, i: usize) -> (r: Vec<usize>)
    requires
        t.wf(),
        i < t.len(),
    ensures
        r@ == attr_list(t, i as int),
        forall|x: int| 0 <= x < r@.len() ==> (#[trigger] r@[x]) < t.len(),
{
    let n = t.nodes[i].children.len();
    let mut out: Vec<usize> = Vec::new();
    let mut q: usize = 0;
    while q < n
        invariant
            t.wf(),
            i < t.len(),
            n == t.node(i as int).children@.len(),
            q <= n,
            out@ == attr_list_upto(t, i as int, q as int),
            forall|x: int| 0 <= x < out@.len() ==> (#[trigger] out@[x]) < t.len(),
        decreases n - q,
    {
        proof {
            assert(t.wf_at(i as int));
        }
        match &t.nodes[i].children[q] {
            Child::Node(c) => {
                if matches!(t.nodes[*c].kind, Kind::Attr) {
                    out.push(*c);
                }
            },
            Child::Token(_) => {},
        }
        proof {
            assert(out@ =~= attr_list_upto(t, i as int, q as int + 1));
        }
        q = q + 1;
    }
    out
}

// ---------------------------------------------------------------------------
// The visit trace
// ---------------------------------------------------------------------------

/// One visit reported to a rule: which entry was reached, and on what —
/// a node by its arena index, doc comments by their tokens, attributes by
/// their node indices.
pub enum VisitEv {
    SourceFile(usize),
    Item(usize),
    Comment(Seq<Token>),
    Const(usize),
    Enum(usize),
    ExternBlock(usize),
    ExternCrate(usize),
    Fn(usize),
    Impl(usize),
    MacCall(usize),
    MacDef(usize),
    MacRules(usize),
    Mod(usize),
    Static(usize),
    Struct(usize),
    Trait(usize),
    TypeAlias(usize),
    Union(usize),
    Use(usize),
    Attr(Seq<usize>),
    Vis(usize),
    Type(usize),
    Variant(usize),
    StructFields(usize),
    Block(usize),
    Stmt(usize),
    Params(usize),
    Arm(usize),
    Pat(usize),
    Expr(usize),
    ArgList(usize),
    GenParam(usize),
    WhereClause(usize),
    WherePredicate(usize),
    FnReturn(usize),
    AssocTy(usize),
    Name(usize),
    Path(usize),
}

/// The visits a construct's doc comments and attributes earn, in order.
pub open spec fn intro_ev(t: &Tree, i: int) -> Seq<VisitEv> {
    seq![VisitEv::Comment(comment_list(t, i)), VisitEv::Attr(attr_list(t, i))]
}

/// The visit a construct's visibility earns, if it has one.
pub open spec fn vis_ev(t: &Tree, i: int) -> Seq<VisitEv> {
    match first_child_kind(t, i, Kind::Visibility) {
        Some(x) => seq![VisitEv::Vis(x)],
        Option::None => Seq::empty(),
    }
}

/// The visit a construct's name earns, if it has one.
pub open spec fn name_ev(t: &Tree, i: int) -> Seq<VisitEv> {
    match first_child_kind(t, i, Kind::Name) {
        Some(x) => seq![VisitEv::Name(x)],
        Option::None => Seq::empty(),
    }
}

/// The visit a construct's type earns, if it has one.
pub open spec fn type_ev(t: &Tree, i: int) -> Seq<VisitEv> {
    match first_child_kind(t, i, Kind::Type) {
        Some(x) => seq![VisitEv::Type(x)],
        Option::None => Seq::empty(),
    }
}

/// The visits the first `k` children of a generic-parameter list earn.
pub open spec fn gen_params_upto(t: &Tree, gp: int, k: int) -> Seq<VisitEv>
    decreases k,
{
    if k <= 0 {
        Seq::empty()
    } else {
        gen_params_upto(t, gp, k - 1) + (match t.node(gp).children@[k - 1] {
            Child::Node(c) => if t.node(c as int).kind == Kind::GenericParam {
                seq![VisitEv::GenParam(c)]
            } else {
                Seq::<VisitEv>::empty()
            },
            Child::Token(_) => Seq::<VisitEv>::empty(),
        })
    }
}

/// The visits a construct's generic parameters earn, in order.
pub open spec fn gen_params_ev(t: &Tree, i: int) -> Seq<VisitEv> {
    match first_child_kind(t, i, Kind::GenericParamList) {
        Some(gp) => gen_params_upto(t, gp as int, t.node(gp as int).children@.len() as int),
        Option::None => Seq::empty(),
    }
}

/// The visits the first `k` children of a variant list earn.
pub open spec fn variants_upto(t: &Tree, vl: int, k: int) -> Seq<VisitEv>
    decreases k,
{
    if k <= 0 {
        Seq::empty()
    } else {
        variants_upto(t, vl, k - 1) + (match t.node(vl).children@[k - 1] {
            Child::Node(c) => if t.node(c as int).kind == Kind::Variant {
                seq![VisitEv::Variant(c)]
            } else {
                Seq::<VisitEv>::empty()
            },
            Child::Token(_) => Seq::<VisitEv>::empty(),
        })
    }
}

/// The visits the first `k` fields of a field list earn: for each field,
/// its comments, attributes, visibility, name (record fields only) and
/// type, in that order.
pub open spec fn fields_upto(t: &Tree, i: int, k: int) -> Seq<VisitEv>
    decreases k,
{
    if k <= 0 {
        Seq::empty()
    } else {
        fields_upto(t, i, k - 1) + (match t.node(i).children@[k - 1] {
            Child::Node(c) => if t.node(c as int).kind == Kind::RecordField {
                intro_ev(t, c as int) + vis_ev(t, c as int) + name_ev(t, c as int) + type_ev(
                    t,
                    c as int,
                )
            } else if t.node(c as int).kind == Kind::TupleField {
                intro_ev(t, c as int) + vis_ev(t, c as int) + type_ev(t, c as int)
            } else {
                Seq::<VisitEv>::empty()
            },
            Child::Token(_) => Seq::<VisitEv>::empty(),
        })
    }
}

/// The visit sequence of a field list: one callback set per field, in
/// declaration order.
pub open spec fn walk_struct_fields_events(t: &Tree, i: int) -> Seq<VisitEv> {
    fields_upto(t, i, t.node(i).children@.len() as int)
}

/// The visit sequence of an `enum`: comments, attributes, visibility,
/// name, generic parameters, then each variant in declaration order.
pub open spec fn walk_enum_events(t: &Tree, i: int) -> Seq<VisitEv> {
    intro_ev(t, i) + vis_ev(t, i) + name_ev(t, i) + gen_params_ev(t, i) + (
    match first_child_kind(t, i, Kind::VariantList) {
        Some(vl) => variants_upto(t, vl as int, t.node(vl as int).children@.len() as int),
        Option::None => Seq::empty(),
    })
}

/// The visit sequence of an `extern crate` item: attributes, then its
/// visibility.
pub open spec fn walk_extern_crate_events(t: &Tree, i: int) -> Seq<VisitEv> {
    seq![VisitEv::Attr(attr_list(t, i))] + vis_ev(t, i)
}

/// The visit sequence of a `struct`: comments, attributes, visibility,
/// name, generic parameters, then its field list if it has one.
pub open spec fn walk_struct_events(t: &Tree, i: int) -> Seq<VisitEv> {
    intro_ev(t, i) + vis_ev(t, i) + name_ev(t, i) + gen_params_ev(t, i) + (
    match first_child_kind(t, i, Kind::RecordFieldList) {
        Some(x) => seq![VisitEv::StructFields(x)] + walk_struct_fields_events(t, x as int),
        Option::None => match first_child_kind(t, i, Kind::TupleFieldList) {
            Some(x) => seq![VisitEv::StructFields(x)] + walk_struct_fields_events(t, x as int),
            Option::None => Seq::empty(),
        },
    })
}


/// The visit sequence of an item, by its kind: the matching entry exactly
/// once, then that construct's own descent.  A non-item kind earns
/// nothing.
pub open spec fn walk_item_events(t: &Tree, i: int) -> Seq<VisitEv>
    decreases t.len() - i, 3int, 0int,
        when t.wf() && 0 <= i < t.len()
{
    match t.node(i).kind {
        Kind::Const => seq![VisitEv::Const(i as usize)] + walk_const_events(t, i),
        Kind::Enum => seq![VisitEv::Enum(i as usize)] + walk_enum_events(t, i),
        Kind::ExternBlock => seq![VisitEv::ExternBlock(i as usize)] + walk_extern_block_events(
            t,
            i,
        ),
        Kind::ExternCrate => seq![VisitEv::ExternCrate(i as usize)] + walk_extern_crate_events(
            t,
            i,
        ),
        Kind::Fn => seq![VisitEv::Fn(i as usize)] + walk_fn_events(t, i),
        Kind::Impl => seq![VisitEv::Impl(i as usize)] + walk_impl_events(t, i),
        Kind::MacroCall => seq![VisitEv::MacCall(i as usize)],
        Kind::MacroDef => seq![VisitEv::MacDef(i as usize)],
        Kind::MacroRules => seq![VisitEv::MacRules(i as usize)],
        Kind::Module => seq![VisitEv::Mod(i as usize)] + walk_mod_events(t, i),
        Kind::Static => seq![VisitEv::Static(i as usize)],
        Kind::Struct => seq![VisitEv::Struct(i as usize)] + walk_struct_events(t, i),
        Kind::Trait => seq![VisitEv::Trait(i as usize)] + walk_trait_events(t, i),
        Kind::TypeAlias => seq![VisitEv::TypeAlias(i as usize)],
        Kind::Union => seq![VisitEv::Union(i as usize)],
        Kind::Use => seq![VisitEv::Use(i as usize)],
        _ => Seq::empty(),
    }
}

/// The visit sequence of a `const`: comments, attributes, visibility,
/// type, name, then its body expression if present.
pub open spec fn walk_const_events(t: &Tree, i: int) -> Seq<VisitEv>
    decreases t.len() - i, 2int, 0int,
        when t.wf() && 0 <= i < t.len()
{
    proof {
        lemma_first_expr_bounds(t, i, 0, false);
    }
    intro_ev(t, i) + vis_ev(t, i) + type_ev(t, i) + name_ev(t, i) + (match first_expr_child(
        t,
        i,
        false,
    ) {
        Some(b) => seq![VisitEv::Expr(b)] + walk_expr_events(t, b as int),
        Option::None => Seq::empty(),
    })
}

/// The visits the first `k` children of an extern-item list earn: each
/// declared function, macro invocation, static or type alias, with the
/// functions descended into.
pub open spec fn eb_items_upto(t: &Tree, il: int, k: int) -> Seq<VisitEv>
    decreases t.len() - il, 2int, k,
        when t.wf() && 0 <= il < t.len() && k <= t.node(il).children@.len()
{
    if k <= 0 {
        Seq::empty()
    } else {
        proof {
            assert(t.wf_at(il));
        }
        eb_items_upto(t, il, k - 1) + (match t.node(il).children@[k - 1] {
            Child::Node(c) => match t.node(c as int).kind {
                Kind::Fn => seq![VisitEv::Fn(c)] + walk_fn_events(t, c as int),
                Kind::MacroCall => seq![VisitEv::MacCall(c)],
                Kind::Static => seq![VisitEv::Static(c)],
                Kind::TypeAlias => seq![VisitEv::TypeAlias(c)],
                _ => Seq::<VisitEv>::empty(),
            },
            Child::Token(_) => Seq::<VisitEv>::empty(),
        })
    }
}

/// The visit sequence of an `extern` block: attributes, then each item it
/// declares.
pub open spec fn walk_extern_block_events(t: &Tree, i: int) -> Seq<VisitEv>
    decreases t.len() - i, 2int, 0int,
        when t.wf() && 0 <= i < t.len()
{
    proof {
        lemma_first_child_bounds(t, i, 0, Kind::ExternItemList);
    }
    seq![VisitEv::Attr(attr_list(t, i))] + (match first_child_kind(t, i, Kind::ExternItemList) {
        Some(il) => eb_items_upto(t, il as int, t.node(il as int).children@.len() as int),
        Option::None => Seq::empty(),
    })
}

/// The visit sequence of a function: comments, attributes, visibility,
/// name, generic parameters, return type, then its body.
pub open spec fn walk_fn_events(t: &Tree, i: int) -> Seq<VisitEv>
    decreases t.len() - i, 2int, 0int,
        when t.wf() && 0 <= i < t.len()
{
    proof {
        lemma_first_child_bounds(t, i, 0, Kind::BlockExpr);
    }
    intro_ev(t, i) + vis_ev(t, i) + name_ev(t, i) + gen_params_ev(t, i) + (
    match first_child_kind(t, i, Kind::RetType) {
        Some(x) => seq![VisitEv::FnReturn(x)],
        Option::None => Seq::empty(),
    }) + (match first_child_kind(t, i, Kind::BlockExpr) {
        Some(b) => seq![VisitEv::Block(b)] + walk_block_events(t, b as int),
        Option::None => Seq::empty(),
    })
}

/// The visits the first `k` children of an item list earn: each item, in
/// source order, with its descent.
pub open spec fn item_list_upto(t: &Tree, il: int, k: int) -> Seq<VisitEv>
    decreases t.len() - il, 2int, k,
        when t.wf() && 0 <= il < t.len() && k <= t.node(il).children@.len()
{
    if k <= 0 {
        Seq::empty()
    } else {
        proof {
            assert(t.wf_at(il));
        }
        item_list_upto(t, il, k - 1) + (match t.node(il).children@[k - 1] {
            Child::Node(c) => if is_item_kind(t.node(c as int).kind) {
                seq![VisitEv::Item(c)] + walk_item_events(t, c as int)
            } else {
                Seq::<VisitEv>::empty()
            },
            Child::Token(_) => Seq::<VisitEv>::empty(),
        })
    }
}

/// The visit sequence of an `impl` block: each item of its
/// associated-item list.
pub open spec fn walk_impl_events(t: &Tree, i: int) -> Seq<VisitEv>
    decreases t.len() - i, 2int, 0int,
        when t.wf() && 0 <= i < t.len()
{
    proof {
        lemma_first_child_bounds(t, i, 0, Kind::AssocItemList);
    }
    match first_child_kind(t, i, Kind::AssocItemList) {
        Some(il) => item_list_upto(t, il as int, t.node(il as int).children@.len() as int),
        Option::None => Seq::empty(),
    }
}

/// The visit sequence of a module: each item of its inline item list,
/// when it has one.
pub open spec fn walk_mod_events(t: &Tree, i: int) -> Seq<VisitEv>
    decreases t.len() - i, 2int, 0int,
        when t.wf() && 0 <= i < t.len()
{
    proof {
        lemma_first_child_bounds(t, i, 0, Kind::ItemList);
    }
    match first_child_kind(t, i, Kind::ItemList) {
        Some(il) => item_list_upto(t, il as int, t.node(il as int).children@.len() as int),
        Option::None => Seq::empty(),
    }
}

/// The visit sequence of a `trait`: each item of its associated-item
/// list.
pub open spec fn walk_trait_events(t: &Tree, i: int) -> Seq<VisitEv>
    decreases t.len() - i, 2int, 0int,
        when t.wf() && 0 <= i < t.len()
{
    proof {
        lemma_first_child_bounds(t, i, 0, Kind::AssocItemList);
    }
    match first_child_kind(t, i, Kind::AssocItemList) {
        Some(il) => item_list_upto(t, il as int, t.node(il as int).children@.len() as int),
        Option::None => Seq::empty(),
    }
}

/// The visits the first `k` children of a statement list earn: each
/// statement in source order, then any tail expression where it stands.
pub open spec fn stmts_upto(t: &Tree, sl: int, k: int) -> Seq<VisitEv>
    decreases t.len() - sl, 0int, k,
        when t.wf() && 0 <= sl < t.len() && k <= t.node(sl).children@.len()
{
    if k <= 0 {
        Seq::empty()
    } else {
        proof {
            assert(t.wf_at(sl));
        }
        stmts_upto(t, sl, k - 1) + (match t.node(sl).children@[k - 1] {
            Child::Node(c) => if t.node(c as int).kind == Kind::ExprStmt || t.node(
                c as int,
            ).kind == Kind::LetStmt || is_item_kind(t.node(c as int).kind) {
                seq![VisitEv::Stmt(c)] + walk_stmt_events(t, c as int)
            } else if is_expr_kind(t.node(c as int).kind) {
                seq![VisitEv::Expr(c)] + walk_expr_events(t, c as int)
            } else {
                Seq::<VisitEv>::empty()
            },
            Child::Token(_) => Seq::<VisitEv>::empty(),
        })
    }
}

/// The visit sequence of a block: its attributes, each statement, then
/// the tail expression.
pub open spec fn walk_block_events(t: &Tree, i: int) -> Seq<VisitEv>
    decreases t.len() - i, 1int, 0int,
        when t.wf() && 0 <= i < t.len()
{
    proof {
        lemma_first_child_bounds(t, i, 0, Kind::StmtList);
    }
    seq![VisitEv::Attr(attr_list(t, i))] + (match first_child_kind(t, i, Kind::StmtList) {
        Some(sl) => stmts_upto(t, sl as int, t.node(sl as int).children@.len() as int),
        Option::None => Seq::empty(),
    })
}

/// The visit sequence of a statement: an expression statement walks its
/// expression, an item statement the item, a `let` its pattern, type and
/// initializer, each where present and in that order.
pub open spec fn walk_stmt_events(t: &Tree, i: int) -> Seq<VisitEv>
    decreases t.len() - i, 4int, 0int,
        when t.wf() && 0 <= i < t.len()
{
    proof {
        lemma_first_expr_bounds(t, i, 0, false);
        lemma_first_pat_bounds(t, i, 0);
    }
    if t.node(i).kind == Kind::ExprStmt {
        match first_expr_child(t, i, false) {
            Some(x) => seq![VisitEv::Expr(x)] + walk_expr_events(t, x as int),
            Option::None => Seq::empty(),
        }
    } else if is_item_kind(t.node(i).kind) {
        seq![VisitEv::Item(i as usize)] + walk_item_events(t, i)
    } else if t.node(i).kind == Kind::LetStmt {
        (match first_pat_child(t, i) {
            Some(x) => seq![VisitEv::Pat(x)] + walk_pat_events(t, x as int),
            Option::None => Seq::empty(),
        }) + type_ev(t, i) + (match first_expr_child(t, i, false) {
            Some(x) => seq![VisitEv::Expr(x)] + walk_expr_events(t, x as int),
            Option::None => Seq::empty(),
        })
    } else {
        Seq::empty()
    }
}

/// The visits the expression children among the first `k` children earn.
pub open spec fn expr_children_upto(t: &Tree, i: int, k: int) -> Seq<VisitEv>
    decreases t.len() - i, 2int, k,
        when t.wf() && 0 <= i < t.len() && k <= t.node(i).children@.len()
{
    if k <= 0 {
        Seq::empty()
    } else {
        proof {
            assert(t.wf_at(i));
        }
        expr_children_upto(t, i, k - 1) + (match t.node(i).children@[k - 1] {
            Child::Node(c) => if is_expr_kind(t.node(c as int).kind) {
                seq![VisitEv::Expr(c)] + walk_expr_events(t, c as int)
            } else {
                Seq::<VisitEv>::empty()
            },
            Child::Token(_) => Seq::<VisitEv>::empty(),
        })
    }
}

/// The optional visit of a construct's first expression child, with its
/// descent.
pub open spec fn opt_expr_ev(t: &Tree, i: int) -> Seq<VisitEv>
    decreases t.len() - i, 2int, 1int,
        when t.wf() && 0 <= i < t.len()
{
    match first_expr_child(t, i, false) {
        Some(x) => {
            proof {
                assert(t.wf_at(i));
                lemma_first_expr_bounds(t, i, 0, false);
            }
            seq![VisitEv::Expr(x)] + walk_expr_events(t, x as int)
        },
        Option::None => Seq::empty(),
    }
}

/// The optional visit of a construct's first pattern child, with its
/// descent.
pub open spec fn opt_pat_ev(t: &Tree, i: int) -> Seq<VisitEv>
    decreases t.len() - i, 2int, 1int,
        when t.wf() && 0 <= i < t.len()
{
    match first_pat_child(t, i) {
        Some(x) => {
            proof {
                lemma_first_pat_bounds(t, i, 0);
            }
            seq![VisitEv::Pat(x)] + walk_pat_events(t, x as int)
        },
        Option::None => Seq::empty(),
    }
}

/// The visit sequence of an expression: its attributes first, then its
/// children by kind; kinds the walk does not take apart earn nothing
/// more.
pub open spec fn walk_expr_events(t: &Tree, i: int) -> Seq<VisitEv>
    decreases t.len() - i, 2int, t.node(i).children@.len() + 2,
        when t.wf() && 0 <= i < t.len()
{
    seq![VisitEv::Attr(attr_list(t, i))] + (match t.node(i).kind {
        Kind::ArrayExpr => expr_children_upto(t, i, t.node(i).children@.len() as int),
        Kind::AwaitExpr => opt_expr_ev(t, i),
        Kind::BreakExpr => opt_expr_ev(t, i),
        Kind::BlockExpr => seq![VisitEv::Block(i as usize)] + walk_block_events(t, i),
        Kind::CallExpr => (match first_child_kind(t, i, Kind::ArgList) {
            Some(x) => seq![VisitEv::ArgList(x)],
            Option::None => Seq::empty(),
        }) + opt_expr_ev(t, i),
        Kind::CastExpr => opt_expr_ev(t, i) + type_ev(t, i),
        Kind::ClosureExpr => (match first_child_kind(t, i, Kind::ParamList) {
            Some(x) => seq![VisitEv::Params(x)],
            Option::None => Seq::empty(),
        }) + opt_expr_ev(t, i),
        Kind::ForExpr => opt_pat_ev(t, i) + (match first_expr_child(t, i, true) {
            Some(x) => {
                proof {
                    lemma_first_expr_bounds(t, i, 0, true);
                }
                seq![VisitEv::Expr(x)] + walk_expr_events(t, x as int)
            },
            Option::None => Seq::empty(),
        }) + (match first_child_kind(t, i, Kind::BlockExpr) {
            Some(x) => {
                proof {
                    lemma_first_child_bounds(t, i, 0, Kind::BlockExpr);
                }
                seq![VisitEv::Block(x)] + walk_block_events(t, x as int)
            },
            Option::None => Seq::empty(),
        }),
        Kind::IfExpr => (match first_expr_child(t, i, false) {
            Some(cond) => {
                proof {
                    lemma_first_expr_bounds(t, i, 0, false);
                }
                if t.node(cond as int).kind == Kind::LetExpr {
                    opt_pat_ev(t, cond as int) + opt_expr_ev(t, cond as int)
                } else {
                    seq![VisitEv::Expr(cond)] + walk_expr_events(t, cond as int)
                }
            },
            Option::None => Seq::empty(),
        }),
        Kind::LetExpr => opt_pat_ev(t, i) + opt_expr_ev(t, i),
        _ => Seq::empty(),
    })
}

/// The visit sequence of a pattern, by its kind; kinds the walk does not
/// take apart earn nothing.
pub open spec fn walk_pat_events(t: &Tree, i: int) -> Seq<VisitEv>
    decreases t.len() - i, 2int, t.node(i).children@.len() + 2,
        when t.wf() && 0 <= i < t.len()
{
    match t.node(i).kind {
        Kind::IdentPat => seq![VisitEv::Attr(attr_list(t, i))] + name_ev(t, i) + opt_pat_ev(t, i),
        Kind::BoxPat => opt_pat_ev(t, i),
        Kind::ParenPat => opt_pat_ev(t, i),
        Kind::MacroPat => match first_child_kind(t, i, Kind::MacroCall) {
            Some(x) => seq![VisitEv::MacCall(x)],
            Option::None => Seq::empty(),
        },
        Kind::OrPat => or_pats_upto(t, i, t.node(i).children@.len() as int),
        Kind::PathPat => match first_child_kind(t, i, Kind::Path) {
            Some(x) => seq![VisitEv::Path(x)],
            Option::None => Seq::empty(),
        },
        _ => Seq::empty(),
    }
}

/// The visits the pattern children among the first `k` children earn.
pub open spec fn or_pats_upto(t: &Tree, i: int, k: int) -> Seq<VisitEv>
    decreases t.len() - i, 2int, k,
        when t.wf() && 0 <= i < t.len() && k <= t.node(i).children@.len()
{
    if k <= 0 {
        Seq::empty()
    } else {
        proof {
            assert(t.wf_at(i));
        }
        or_pats_upto(t, i, k - 1) + (match t.node(i).children@[k - 1] {
            Child::Node(c) => if is_pat_kind(t.node(c as int).kind) {
                seq![VisitEv::Pat(c)] + walk_pat_events(t, c as int)
            } else {
                Seq::<VisitEv>::empty()
            },
            Child::Token(_) => Seq::<VisitEv>::empty(),
        })
    }
}

/// The visits the item children among the first `k` children of a source
/// file earn.
pub open spec fn sf_items_upto(t: &Tree, i: int, k: int) -> Seq<VisitEv>
    decreases k,
{
    if k <= 0 {
        Seq::empty()
    } else {
        sf_items_upto(t, i, k - 1) + (match t.node(i).children@[k - 1] {
            Child::Node(c) => if is_item_kind(t.node(c as int).kind) {
                seq![VisitEv::Item(c)] + walk_item_events(t, c as int)
            } else {
                Seq::<VisitEv>::empty()
            },
            Child::Token(_) => Seq::<VisitEv>::empty(),
        })
    }
}

/// The visit sequence of a source file: each of its items, in source
/// order, each visited exactly once with its full descent.
pub open spec fn walk_souce_file_events(t: &Tree, i: int) -> Seq<VisitEv> {
    sf_items_upto(t, i, t.node(i).children@.len() as int)
}

/// A found first child of a kind lies inside the tree, to the right.
pub proof fn lemma_first_child_bounds(t: &Tree, i: int, q: int, k: Kind)
    requires
        t.wf(),
        0 <= i < t.len(),
        0 <= q,
    ensures
        (first_child_from(t, i, q, k) matches Some(c) ==> i < c < t.len()),
    decreases t.node(i).children@.len() - q,
{
    if q < t.node(i).children@.len() {
        assert(t.wf_at(i));
        lemma_first_child_bounds(t, i, q + 1, k);
    }
}

/// A found first expression child lies inside the tree, to the right.
pub proof fn lemma_first_expr_bounds(t: &Tree, i: int, q: int, skip_block: bool)
    requires
        t.wf(),
        0 <= i < t.len(),
        0 <= q,
    ensures
        (first_expr_from(t, i, q, skip_block) matches Some(c) ==> i < c < t.len()),
    decreases t.node(i).children@.len() - q,
{
    if q < t.node(i).children@.len() {
        assert(t.wf_at(i));
        lemma_first_expr_bounds(t, i, q + 1, skip_block);
    }
}

/// A found first pattern child lies inside the tree, to the right.
pub proof fn lemma_first_pat_bounds(t: &Tree, i: int, q: int)
    requires
        t.wf(),
        0 <= i < t.len(),
        0 <= q,
    ensures
        (first_pat_from(t, i, q) matches Some(c) ==> i < c < t.len()),
    decreases t.node(i).children@.len() - q,
{
    if q < t.node(i).children@.len() {
        assert(t.wf_at(i));
        lemma_first_pat_bounds(t, i, q + 1);
    }
}

// ---------------------------------------------------------------------------
// The visitor
// ---------------------------------------------------------------------------

/// One entry per semantic construct, plus the trace that binds them: every
/// hook reports exactly its own visit on [`RuleVisitor::events`], so the
/// `walk_*` contracts below pin, for every implementation, which constructs
/// a walk reports and in what order.  A rule implements the hooks it cares
/// about with real work and the rest as recorded no-ops; [`VisitLog`] shows
/// the bare minimum.
pub trait RuleVisitor: Sized {
    /// The visits reported to this rule so far, in order.  The default is
    /// a placeholder for implementations outside the verifier's sight; an
    /// implementation that wants the walk contracts to say anything about
    /// it provides its own, as [`VisitLog`] does.
    open spec fn events(&self) -> Seq<VisitEv> {
        Seq::empty()
    }

    /// A source file is being walked.
    fn visit_source_file(&mut self, t: &Tree, i: usize)
        requires
            t.wf(),
            i < t.len(),
        ensures
            final(self).events() == old(self).events().push(VisitEv::SourceFile(i)),
    ;

    /// An item of any kind.
    fn visit_item(&mut self, t: &Tree, i: usize)
        requires
            t.wf(),
            i < t.len(),
        ensures
            final(self).events() == old(self).events().push(VisitEv::Item(i)),
    ;

    /// The doc comments attached to a construct.
    fn visit_comment(&mut self, comments: &Vec<Token>)
        ensures
            final(self).events() == old(self).events().push(VisitEv::Comment(comments@)),
    ;

    /// A `const` item.
    fn visit_const(&mut self, t: &Tree, i: usize)
        requires
            t.wf(),
            i < t.len(),
        ensures
            final(self).events() == old(self).events().push(VisitEv::Const(i)),
    ;

    /// An `enum` item.
    fn visit_enum(&mut self, t: &Tree, i: usize)
        requires
            t.wf(),
            i < t.len(),
        ensures
            final(self).events() == old(self).events().push(VisitEv::Enum(i)),
    ;

    /// An `extern` block.
    fn visit_extern_block(&mut self, t: &Tree, i: usize)
        requires
            t.wf(),
            i < t.len(),
        ensures
            final(self).events() == old(self).events().push(VisitEv::ExternBlock(i)),
    ;

    /// An `extern crate` item.
    fn visit_extern_crate(&mut self, t: &Tree, i: usize)
        requires
            t.wf(),
            i < t.len(),
        ensures
            final(self).events() == old(self).events().push(VisitEv::ExternCrate(i)),
    ;

    /// A function item.
    fn visit_fn(&mut self, t: &Tree, i: usize)
        requires
            t.wf(),
            i < t.len(),
        ensures
            final(self).events() == old(self).events().push(VisitEv::Fn(i)),
    ;

    /// An `impl` block.
    fn visit_impl(&mut self, t: &Tree, i: usize)
        requires
            t.wf(),
            i < t.len(),
        ensures
            final(self).events() == old(self).events().push(VisitEv::Impl(i)),
    ;

    /// A macro invocation.
    fn visit_mac_call(&mut self, t: &Tree, i: usize)
        requires
            t.wf(),
            i < t.len(),
        ensures
            final(self).events() == old(self).events().push(VisitEv::MacCall(i)),
    ;

    /// A `macro` definition.
    fn visit_mac_def(&mut self, t: &Tree, i: usize)
        requires
            t.wf(),
            i < t.len(),
        ensures
            final(self).events() == old(self).events().push(VisitEv::MacDef(i)),
    ;

    /// A `macro_rules!` definition.
    fn visit_mac_rules(&mut self, t: &Tree, i: usize)
        requires
            t.wf(),
            i < t.len(),
        ensures
            final(self).events() == old(self).events().push(VisitEv::MacRules(i)),
    ;

    /// A module item.
    fn visit_mod(&mut self, t: &Tree, i: usize)
        requires
            t.wf(),
            i < t.len(),
        ensures
            final(self).events() == old(self).events().push(VisitEv::Mod(i)),
    ;

    /// A `static` item.
    fn visit_static(&mut self, t: &Tree, i: usize)
        requires
            t.wf(),
            i < t.len(),
        ensures
            final(self).events() == old(self).events().push(VisitEv::Static(i)),
    ;

    /// A `struct` item.
    fn visit_struct(&mut self, t: &Tree, i: usize)
        requires
            t.wf(),
            i < t.len(),
        ensures
            final(self).events() == old(self).events().push(VisitEv::Struct(i)),
    ;

    /// A `trait` item.
    fn visit_trait(&mut self, t: &Tree, i: usize)
        requires
            t.wf(),
            i < t.len(),
        ensures
            final(self).events() == old(self).events().push(VisitEv::Trait(i)),
    ;

    /// A type alias.
    fn visit_type_alias(&mut self, t: &Tree, i: usize)
        requires
            t.wf(),
            i < t.len(),
        ensures
            final(self).events() == old(self).events().push(VisitEv::TypeAlias(i)),
    ;

    /// A `union` item.
    fn visit_union(&mut self, t: &Tree, i: usize)
        requires
            t.wf(),
            i < t.len(),
        ensures
            final(self).events() == old(self).events().push(VisitEv::Union(i)),
    ;

    /// A `use` item.
    fn visit_use(&mut self, t: &Tree, i: usize)
        requires
            t.wf(),
            i < t.len(),
        ensures
            final(self).events() == old(self).events().push(VisitEv::Use(i)),
    ;

    /// The attributes attached to a construct, as node indices.
    fn visit_attr(&mut self, t: &Tree, attrs: &Vec<usize>)
        requires
            t.wf(),
            forall|x: int| 0 <= x < attrs@.len() ==> (#[trigger] attrs@[x]) < t.len(),
        ensures
            final(self).events() == old(self).events().push(VisitEv::Attr(attrs@)),
    ;

    /// A visibility marker.
    fn visit_vis(&mut self, t: &Tree, i: usize)
        requires
            t.wf(),
            i < t.len(),
        ensures
            final(self).events() == old(self).events().push(VisitEv::Vis(i)),
    ;

    /// A type.
    fn visit_type(&mut self, t: &Tree, i: usize)
        requires
            t.wf(),
            i < t.len(),
        ensures
            final(self).events() == old(self).events().push(VisitEv::Type(i)),
    ;

    /// One variant of an enum.
    fn visit_variant(&mut self, t: &Tree, i: usize)
        requires
            t.wf(),
            i < t.len(),
        ensures
            final(self).events() == old(self).events().push(VisitEv::Variant(i)),
    ;

    /// The field list of a struct.
    fn visit_struct_fields(&mut self, t: &Tree, i: usize)
        requires
            t.wf(),
            i < t.len(),
        ensures
            final(self).events() == old(self).events().push(VisitEv::StructFields(i)),
    ;

    /// A block expression.
    fn visit_block(&mut self, t: &Tree, i: usize)
        requires
            t.wf(),
            i < t.len(),
        ensures
            final(self).events() == old(self).events().push(VisitEv::Block(i)),
    ;

    /// A statement.
    fn visit_stmt(&mut self, t: &Tree, i: usize)
        requires
            t.wf(),
            i < t.len(),
        ensures
            final(self).events() == old(self).events().push(VisitEv::Stmt(i)),
    ;

    /// A parameter list.
    fn visit_params(&mut self, t: &Tree, i: usize)
        requires
            t.wf(),
            i < t.len(),
        ensures
            final(self).events() == old(self).events().push(VisitEv::Params(i)),
    ;

    /// One arm of a match.
    fn visit_arm(&mut self, t: &Tree, i: usize)
        requires
            t.wf(),
            i < t.len(),
        ensures
            final(self).events() == old(self).events().push(VisitEv::Arm(i)),
    ;

    /// A pattern.
    fn visit_pat(&mut self, t: &Tree, i: usize)
        requires
            t.wf(),
            i < t.len(),
        ensures
            final(self).events() == old(self).events().push(VisitEv::Pat(i)),
    ;

    /// An expression.
    fn visit_expr(&mut self, t: &Tree, i: usize)
        requires
            t.wf(),
            i < t.len(),
        ensures
            final(self).events() == old(self).events().push(VisitEv::Expr(i)),
    ;

    /// A call's argument list.
    fn visit_arg_list(&mut self, t: &Tree, i: usize)
        requires
            t.wf(),
            i < t.len(),
        ensures
            final(self).events() == old(self).events().push(VisitEv::ArgList(i)),
    ;

    /// One generic parameter.
    fn visit_gen_param(&mut self, t: &Tree, i: usize)
        requires
            t.wf(),
            i < t.len(),
        ensures
            final(self).events() == old(self).events().push(VisitEv::GenParam(i)),
    ;

    /// A `where` clause.
    fn visit_where_clause(&mut self, t: &Tree, i: usize)
        requires
            t.wf(),
            i < t.len(),
        ensures
            final(self).events() == old(self).events().push(VisitEv::WhereClause(i)),
    ;

    /// One predicate of a `where` clause.
    fn visit_where_predicate(&mut self, t: &Tree, i: usize)
        requires
            t.wf(),
            i < t.len(),
        ensures
            final(self).events() == old(self).events().push(VisitEv::WherePredicate(i)),
    ;

    /// A function's return type.
    fn visit_fn_return(&mut self, t: &Tree, i: usize)
        requires
            t.wf(),
            i < t.len(),
        ensures
            final(self).events() == old(self).events().push(VisitEv::FnReturn(i)),
    ;

    /// An associated-type argument.
    fn visit_assoc_ty(&mut self, t: &Tree, i: usize)
        requires
            t.wf(),
            i < t.len(),
        ensures
            final(self).events() == old(self).events().push(VisitEv::AssocTy(i)),
    ;

    /// A name.
    fn visit_name(&mut self, t: &Tree, i: usize)
        requires
            t.wf(),
            i < t.len(),
        ensures
            final(self).events() == old(self).events().push(VisitEv::Name(i)),
    ;

    /// A path.
    fn visit_path(&mut self, t: &Tree, i: usize)
        requires
            t.wf(),
            i < t.len(),
        ensures
            final(self).events() == old(self).events().push(VisitEv::Path(i)),
    ;

}

/// A visitor that does nothing but stand witness to the trace: every hook
/// records its visit and nothing else.
pub struct VisitLog {
    trace: Ghost<Seq<VisitEv>>,
}

impl VisitLog {
    /// A log with nothing reported yet.
    pub fn new() -> (r: VisitLog)
        ensures
            r.events() =~= Seq::<VisitEv>::empty(),
    {
        VisitLog { trace: Ghost(Seq::empty()) }
    }
}

impl RuleVisitor for VisitLog {
    closed spec fn events(&self) -> Seq<VisitEv> {
        self.trace@
    }

    fn visit_source_file(&mut self, t: &Tree, i: usize) {
        proof {
            self.trace@ = self.trace@.push(VisitEv::SourceFile(i));
        }
    }

    fn visit_item(&mut self, t: &Tree, i: usize) {
        proof {
            self.trace@ = self.trace@.push(VisitEv::Item(i));
        }
    }

    fn visit_comment(&mut self, comments: &Vec<Token>) {
        proof {
            self.trace@ = self.trace@.push(VisitEv::Comment(comments@));
        }
    }

    fn visit_const(&mut self, t: &Tree, i: usize) {
        proof {
            self.trace@ = self.trace@.push(VisitEv::Const(i));
        }
    }

    fn visit_enum(&mut self, t: &Tree, i: usize) {
        proof {
            self.trace@ = self.trace@.push(VisitEv::Enum(i));
        }
    }

    fn visit_extern_block(&mut self, t: &Tree, i: usize) {
        proof {
            self.trace@ = self.trace@.push(VisitEv::ExternBlock(i));
        }
    }

    fn visit_extern_crate(&mut self, t: &Tree, i: usize) {
        proof {
            self.trace@ = self.trace@.push(VisitEv::ExternCrate(i));
        }
    }

    fn visit_fn(&mut self, t: &Tree, i: usize) {
        proof {
            self.trace@ = self.trace@.push(VisitEv::Fn(i));
        }
    }

    fn visit_impl(&mut self, t: &Tree, i: usize) {
        proof {
            self.trace@ = self.trace@.push(VisitEv::Impl(i));
        }
    }

    fn visit_mac_call(&mut self, t: &Tree, i: usize) {
        proof {
            self.trace@ = self.trace@.push(VisitEv::MacCall(i));
        }
    }

    fn visit_mac_def(&mut self, t: &Tree, i: usize) {
        proof {
            self.trace@ = self.trace@.push(VisitEv::MacDef(i));
        }
    }

    fn visit_mac_rules(&mut self, t: &Tree, i: usize) {
        proof {
            self.trace@ = self.trace@.push(VisitEv::MacRules(i));
        }
    }

    fn visit_mod(&mut self, t: &Tree, i: usize) {
        proof {
            self.trace@ = self.trace@.push(VisitEv::Mod(i));
        }
    }

    fn visit_static(&mut self, t: &Tree, i: usize) {
        proof {
            self.trace@ = self.trace@.push(VisitEv::Static(i));
        }
    }

    fn visit_struct(&mut self, t: &Tree, i: usize) {
        proof {
            self.trace@ = self.trace@.push(VisitEv::Struct(i));
        }
    }

    fn visit_trait(&mut self, t: &Tree, i: usize) {
        proof {
            self.trace@ = self.trace@.push(VisitEv::Trait(i));
        }
    }

    fn visit_type_alias(&mut self, t: &Tree, i: usize) {
        proof {
            self.trace@ = self.trace@.push(VisitEv::TypeAlias(i));
        }
    }

    fn visit_union(&mut self, t: &Tree, i: usize) {
        proof {
            self.trace@ = self.trace@.push(VisitEv::Union(i));
        }
    }

    fn visit_use(&mut self, t: &Tree, i: usize) {
        proof {
            self.trace@ = self.trace@.push(VisitEv::Use(i));
        }
    }

    fn visit_attr(&mut self, t: &Tree, attrs: &Vec<usize>) {
        proof {
            self.trace@ = self.trace@.push(VisitEv::Attr(attrs@));
        }
    }

    fn visit_vis(&mut self, t: &Tree, i: usize) {
        proof {
            self.trace@ = self.trace@.push(VisitEv::Vis(i));
        }
    }

    fn visit_type(&mut self, t: &Tree, i: usize) {
        proof {
            self.trace@ = self.trace@.push(VisitEv::Type(i));
        }
    }

    fn visit_variant(&mut self, t: &Tree, i: usize) {
        proof {
            self.trace@ = self.trace@.push(VisitEv::Variant(i));
        }
    }

    fn visit_struct_fields(&mut self, t: &Tree, i: usize) {
        proof {
            self.trace@ = self.trace@.push(VisitEv::StructFields(i));
        }
    }

    fn visit_block(&mut self, t: &Tree, i: usize) {
        proof {
            self.trace@ = self.trace@.push(VisitEv::Block(i));
        }
    }

    fn visit_stmt(&mut self, t: &Tree, i: usize) {
        proof {
            self.trace@ = self.trace@.push(VisitEv::Stmt(i));
        }
    }

    fn visit_params(&mut self, t: &Tree, i: usize) {
        proof {
            self.trace@ = self.trace@.push(VisitEv::Params(i));
        }
    }

    fn visit_arm(&mut self, t: &Tree, i: usize) {
        proof {
            self.trace@ = self.trace@.push(VisitEv::Arm(i));
        }
    }

    fn visit_pat(&mut self, t: &Tree, i: usize) {
        proof {
            self.trace@ = self.trace@.push(VisitEv::Pat(i));
        }
    }

    fn visit_expr(&mut self, t: &Tree, i: usize) {
        proof {
            self.trace@ = self.trace@.push(VisitEv::Expr(i));
        }
    }

    fn visit_arg_list(&mut self, t: &Tree, i: usize) {
        proof {
            self.trace@ = self.trace@.push(VisitEv::ArgList(i));
        }
    }

    fn visit_gen_param(&mut self, t: &Tree, i: usize) {
        proof {
            self.trace@ = self.trace@.push(VisitEv::GenParam(i));
        }
    }

    fn visit_where_clause(&mut self, t: &Tree, i: usize) {
        proof {
            self.trace@ = self.trace@.push(VisitEv::WhereClause(i));
        }
    }

    fn visit_where_predicate(&mut self, t: &Tree, i: usize) {
        proof {
            self.trace@ = self.trace@.push(VisitEv::WherePredicate(i));
        }
    }

    fn visit_fn_return(&mut self, t: &Tree, i: usize) {
        proof {
            self.trace@ = self.trace@.push(VisitEv::FnReturn(i));
        }
    }

    fn visit_assoc_ty(&mut self, t: &Tree, i: usize) {
        proof {
            self.trace@ = self.trace@.push(VisitEv::AssocTy(i));
        }
    }

    fn visit_name(&mut self, t: &Tree, i: usize) {
        proof {
            self.trace@ = self.trace@.push(VisitEv::Name(i));
        }
    }

    fn visit_path(&mut self, t: &Tree, i: usize) {
        proof {
            self.trace@ = self.trace@.push(VisitEv::Path(i));
        }
    }

}
// ---------------------------------------------------------------------------
// The default walks
// ---------------------------------------------------------------------------

/// Reports a construct's doc comments and attributes to the visitor.
fn visit_intro<V: RuleVisitor>(v: &mut V, t: &Tree, i: usize)
    requires
        t.wf(),
        i < t.len(),
    ensures
        final(v).events() == old(v).events() + intro_ev(t, i as int),
{
    let comments = comment_tokens(t, i);
    v.visit_comment(&comments);
    let attrs = attr_children(t, i);
    v.visit_attr(t, &attrs);
    proof {
        assert(v.events() =~= old(v).events() + intro_ev(t, i as int));
    }
}

/// Reports a construct's visibility, if it has one.
fn visit_vis_of<V: RuleVisitor>(v: &mut V, t: &Tree, i: usize)
    requires
        t.wf(),
        i < t.len(),
    ensures
        final(v).events() == old(v).events() + vis_ev(t, i as int),
{
    match find_child(t, i, Kind::Visibility) {
        Some(x) => {
            v.visit_vis(t, x);
            walk_vis(v, t, x);
        },
        Option::None => {},
    }
    proof {
        assert(v.events() =~= old(v).events() + vis_ev(t, i as int));
    }
}

/// Reports a construct's name, if it has one.  A construct the grammar
/// guarantees a name that nevertheless lacks one is passed over.
fn visit_name_of<V: RuleVisitor>(v: &mut V, t: &Tree, i: usize)
    requires
        t.wf(),
        i < t.len(),
    ensures
        final(v).events() == old(v).events() + name_ev(t, i as int),
{
    match find_child(t, i, Kind::Name) {
        Some(x) => {
            v.visit_name(t, x);
            walk_name(v, t, x);
        },
        Option::None => {},
    }
    proof {
        assert(v.events() =~= old(v).events() + name_ev(t, i as int));
    }
}

/// Reports each generic parameter of a construct.
fn visit_gen_params_of<V: RuleVisitor>(v: &mut V, t: &Tree, i: usize)
    requires
        t.wf(),
        i < t.len(),
    ensures
        final(v).events() == old(v).events() + gen_params_ev(t, i as int),
{
    let gp = match find_child(t, i, Kind::GenericParamList) {
        Some(x) => x,
        Option::None => {
            proof {
                assert(v.events() =~= old(v).events() + gen_params_ev(t, i as int));
            }
            return ;
        },
    };
    let n = t.nodes[gp].children.len();
    proof {
        assert(v.events() =~= old(v).events() + gen_params_upto(t, gp as int, 0));
    }
    let mut q: usize = 0;
    while q < n
        invariant
            t.wf(),
            gp < t.len(),
            n == t.node(gp as int).children@.len(),
            q <= n,
            v.events() == old(v).events() + gen_params_upto(t, gp as int, q as int),
        decreases n - q,
    {
        proof {
            assert(t.wf_at(gp as int));
        }
        match &t.nodes[gp].children[q] {
            Child::Node(c) => {
                if matches!(t.nodes[*c].kind, Kind::GenericParam) {
                    v.visit_gen_param(t, *c);
                    walk_gen_param(v, t, *c);
                }
            },
            Child::Token(_) => {},
        }
        proof {
            assert(v.events() =~= old(v).events() + gen_params_upto(t, gp as int, q as int + 1));
        }
        q = q + 1;
    }
    proof {
        assert(v.events() =~= old(v).events() + gen_params_ev(t, i as int));
    }
}

/// Walks a source file: each of its items, in source order, each exactly
/// once with its full descent.
pub fn walk_souce_file<V: RuleVisitor>(v: &mut V, t: &Tree, file: usize)
    requires
        t.wf(),
        file < t.len(),
    ensures
        final(v).events() == old(v).events() + walk_souce_file_events(t, file as int),
    decreases t.len() - file, 5int,
{
    let n = t.nodes[file].children.len();
    proof {
        assert(v.events() =~= old(v).events() + sf_items_upto(t, file as int, 0));
    }
    let mut q: usize = 0;
    while q < n
        invariant
            t.wf(),
            file < t.len(),
            n == t.node(file as int).children@.len(),
            q <= n,
            v.events() == old(v).events() + sf_items_upto(t, file as int, q as int),
        decreases n - q,
    {
        proof {
            assert(t.wf_at(file as int));
        }
        match &t.nodes[file].children[q] {
            Child::Node(c) => {
                if item_kind(t.nodes[*c].kind) {
                    v.visit_item(t, *c);
                    walk_item(v, t, *c);
                }
            },
            Child::Token(_) => {},
        }
        proof {
            assert(v.events() =~= old(v).events() + sf_items_upto(t, file as int, q as int + 1));
        }
        q = q + 1;
    }
    proof {
        assert(v.events() =~= old(v).events() + walk_souce_file_events(t, file as int));
    }
}

/// Walks an item by its kind: the matching entry exactly once, then that
/// construct's own descent.
pub fn walk_item<V: RuleVisitor>(v: &mut V, t: &Tree, i: usize)
    requires
        t.wf(),
        i < t.len(),
    ensures
        final(v).events() == old(v).events() + walk_item_events(t, i as int),
    decreases t.len() - i, 3int,
{
    match t.nodes[i].kind {
        Kind::Const => {
            v.visit_const(t, i);
            walk_const(v, t, i);
        },
        Kind::Enum => {
            v.visit_enum(t, i);
            walk_enum(v, t, i);
        },
        Kind::ExternBlock => {
            v.visit_extern_block(t, i);
            walk_extern_block(v, t, i);
        },
        Kind::ExternCrate => {
            v.visit_extern_crate(t, i);
            walk_extern_crate(v, t, i);
        },
        Kind::Fn => {
            v.visit_fn(t, i);
            walk_fn(v, t, i);
        },
        Kind::Impl => {
            v.visit_impl(t, i);
            walk_impl(v, t, i);
        },
        Kind::MacroCall => {
            v.visit_mac_call(t, i);
            walk_mac_call(v, t, i);
        },
        Kind::MacroDef => {
            v.visit_mac_def(t, i);
            walk_mac_def(v, t, i);
        },
        Kind::MacroRules => {
            v.visit_mac_rules(t, i);
            walk_mac_rules(v, t, i);
        },
        Kind::Module => {
            v.visit_mod(t, i);
            walk_mod(v, t, i);
        },
        Kind::Static => {
            v.visit_static(t, i);
            walk_static(v, t, i);
        },
        Kind::Struct => {
            v.visit_struct(t, i);
            walk_struct(v, t, i);
        },
        Kind::Trait => {
            v.visit_trait(t, i);
            walk_trait(v, t, i);
        },
        Kind::TypeAlias => {
            v.visit_type_alias(t, i);
            walk_type_alias(v, t, i);
        },
        Kind::Union => {
            v.visit_union(t, i);
            walk_union(v, t, i);
        },
        Kind::Use => {
            v.visit_use(t, i);
            walk_use(v, t, i);
        },
        _ => {},
    }
    proof {
        assert(v.events() =~= old(v).events() + walk_item_events(t, i as int));
    }
}

/// Walks a `const`: comments, attributes, visibility, type, name, body.
pub fn walk_const<V: RuleVisitor>(v: &mut V, t: &Tree, i: usize)
    requires
        t.wf(),
        i < t.len(),
    ensures
        final(v).events() == old(v).events() + walk_const_events(t, i as int),
    decreases t.len() - i, 2int,
{
    visit_intro(v, t, i);
    visit_vis_of(v, t, i);
    match find_child(t, i, Kind::Type) {
        Some(x) => {
            v.visit_type(t, x);
            walk_type(v, t, x);
        },
        Option::None => {},
    }
    proof {
        assert(v.events() =~= old(v).events() + intro_ev(t, i as int) + vis_ev(t, i as int)
            + type_ev(t, i as int));
    }
    visit_name_of(v, t, i);
    match find_child_expr(t, i, false) {
        Some(b) => {
            v.visit_expr(t, b);
            walk_expr(v, t, b);
        },
        Option::None => {},
    }
    proof {
        assert(v.events() =~= old(v).events() + walk_const_events(t, i as int));
    }
}

/// Walks an `enum`: comments, attributes, visibility, name, generic
/// parameters, variants.
pub fn walk_enum<V: RuleVisitor>(v: &mut V, t: &Tree, i: usize)
    requires
        t.wf(),
        i < t.len(),
    ensures
        final(v).events() == old(v).events() + walk_enum_events(t, i as int),
    decreases t.len() - i, 2int,
{
    visit_intro(v, t, i);
    visit_vis_of(v, t, i);
    visit_name_of(v, t, i);
    visit_gen_params_of(v, t, i);
    let ghost head = old(v).events() + intro_ev(t, i as int) + vis_ev(t, i as int) + name_ev(
        t,
        i as int,
    ) + gen_params_ev(t, i as int);
    proof {
        assert(v.events() =~= head);
    }
    let vl = match find_child(t, i, Kind::VariantList) {
        Some(x) => x,
        Option::None => {
            proof {
                assert(v.events() =~= old(v).events() + walk_enum_events(t, i as int));
            }
            return ;
        },
    };
    let n = t.nodes[vl].children.len();
    proof {
        assert(v.events() =~= head + variants_upto(t, vl as int, 0));
    }
    let mut q: usize = 0;
    while q < n
        invariant
            t.wf(),
            vl < t.len(),
            n == t.node(vl as int).children@.len(),
            q <= n,
            v.events() == head + variants_upto(t, vl as int, q as int),
        decreases n - q,
    {
        proof {
            assert(t.wf_at(vl as int));
        }
        match &t.nodes[vl].children[q] {
            Child::Node(c) => {
                if matches!(t.nodes[*c].kind, Kind::Variant) {
                    v.visit_variant(t, *c);
                    walk_variant(v, t, *c);
                }
            },
            Child::Token(_) => {},
        }
        proof {
            assert(v.events() =~= head + variants_upto(t, vl as int, q as int + 1));
        }
        q = q + 1;
    }
    proof {
        assert(v.events() =~= old(v).events() + walk_enum_events(t, i as int));
    }
}

/// A variant is a leaf of the default walk.
pub fn walk_variant<V: RuleVisitor>(v: &mut V, t: &Tree, i: usize)
    requires
        t.wf(),
        i < t.len(),
    ensures
        *final(v) == *old(v),
{
}

/// Walks an `extern` block: attributes, then each item it declares.
pub fn walk_extern_block<V: RuleVisitor>(v: &mut V, t: &Tree, i: usize)
    requires
        t.wf(),
        i < t.len(),
    ensures
        final(v).events() == old(v).events() + walk_extern_block_events(t, i as int),
    decreases t.len() - i, 2int,
{
    let attrs = attr_children(t, i);
    v.visit_attr(t, &attrs);
    let ghost head = old(v).events() + seq![VisitEv::Attr(attr_list(t, i as int))];
    proof {
        assert(v.events() =~= head);
    }
    let il = match find_child(t, i, Kind::ExternItemList) {
        Some(x) => x,
        Option::None => {
            proof {
                assert(v.events() =~= old(v).events() + walk_extern_block_events(t, i as int));
            }
            return ;
        },
    };
    let n = t.nodes[il].children.len();
    proof {
        assert(v.events() =~= head + eb_items_upto(t, il as int, 0));
    }
    let mut q: usize = 0;
    while q < n
        invariant
            t.wf(),
            i < il < t.len(),
            n == t.node(il as int).children@.len(),
            q <= n,
            v.events() == head + eb_items_upto(t, il as int, q as int),
        decreases n - q,
    {
        proof {
            assert(t.wf_at(il as int));
        }
        match &t.nodes[il].children[q] {
            Child::Node(c) => {
                match t.nodes[*c].kind {
                    Kind::Fn => {
                        v.visit_fn(t, *c);
                        walk_fn(v, t, *c);
                    },
                    Kind::MacroCall => {
                        v.visit_mac_call(t, *c);
                        walk_mac_call(v, t, *c);
                    },
                    Kind::Static => {
                        v.visit_static(t, *c);
                        walk_static(v, t, *c);
                    },
                    Kind::TypeAlias => {
                        v.visit_type_alias(t, *c);
                        walk_type_alias(v, t, *c);
                    },
                    _ => {},
                }
            },
            Child::Token(_) => {},
        }
        proof {
            assert(v.events() =~= head + eb_items_upto(t, il as int, q as int + 1));
        }
        q = q + 1;
    }
    proof {
        assert(v.events() =~= old(v).events() + walk_extern_block_events(t, i as int));
    }
}

/// Walks an `extern crate` item: attributes and visibility.
pub fn walk_extern_crate<V: RuleVisitor>(v: &mut V, t: &Tree, i: usize)
    requires
        t.wf(),
        i < t.len(),
    ensures
        final(v).events() == old(v).events() + walk_extern_crate_events(t, i as int),
    decreases t.len() - i, 2int,
{
    let attrs = attr_children(t, i);
    v.visit_attr(t, &attrs);
    visit_vis_of(v, t, i);
    proof {
        assert(v.events() =~= old(v).events() + walk_extern_crate_events(t, i as int));
    }
}

/// Walks a function: comments, attributes, visibility, name, generic
/// parameters, return type, body.
pub fn walk_fn<V: RuleVisitor>(v: &mut V, t: &Tree, i: usize)
    requires
        t.wf(),
        i < t.len(),
    ensures
        final(v).events() == old(v).events() + walk_fn_events(t, i as int),
    decreases t.len() - i, 2int,
{
    visit_intro(v, t, i);
    visit_vis_of(v, t, i);
    visit_name_of(v, t, i);
    visit_gen_params_of(v, t, i);
    let ghost head = old(v).events() + intro_ev(t, i as int) + vis_ev(t, i as int) + name_ev(
        t,
        i as int,
    ) + gen_params_ev(t, i as int);
    proof {
        assert(v.events() =~= head);
    }
    match find_child(t, i, Kind::RetType) {
        Some(x) => {
            v.visit_fn_return(t, x);
            walk_fn_ret(v, t, x);
        },
        Option::None => {},
    }
    match find_child(t, i, Kind::BlockExpr) {
        Some(body) => {
            v.visit_block(t, body);
            walk_block_expr(v, t, body);
        },
        Option::None => {},
    }
    proof {
        assert(v.events() =~= old(v).events() + walk_fn_events(t, i as int));
    }
}


/// Walks each item declared in an `impl` block's associated-item list, in source order.
pub fn walk_impl<V: RuleVisitor>(v: &mut V, t: &Tree, i: usize)
    requires
        t.wf(),
        i < t.len(),
    ensures
        final(v).events() == old(v).events() + walk_impl_events(t, i as int),
    decreases t.len() - i, 2int,
{
    let il = match find_child(t, i, Kind::AssocItemList) {
        Some(x) => x,
        Option::None => {
            proof {
                assert(v.events() =~= old(v).events() + walk_impl_events(t, i as int));
            }
            return ;
        },
    };
    let n = t.nodes[il].children.len();
    proof {
        assert(v.events() =~= old(v).events() + item_list_upto(t, il as int, 0));
    }
    let mut q: usize = 0;
    while q < n
        invariant
            t.wf(),
            i < il < t.len(),
            n == t.node(il as int).children@.len(),
            q <= n,
            v.events() == old(v).events() + item_list_upto(t, il as int, q as int),
        decreases n - q,
    {
        proof {
            assert(t.wf_at(il as int));
        }
        match &t.nodes[il].children[q] {
            Child::Node(c) => {
                if item_kind(t.nodes[*c].kind) {
                    v.visit_item(t, *c);
                    walk_item(v, t, *c);
                }
            },
            Child::Token(_) => {},
        }
        proof {
            assert(v.events() =~= old(v).events() + item_list_upto(t, il as int, q as int + 1));
        }
        q = q + 1;
    }
    proof {
        assert(v.events() =~= old(v).events() + walk_impl_events(t, i as int));
    }
}

/// Walks each item declared in a module's inline item list, when it has one, in source order.
pub fn walk_mod<V: RuleVisitor>(v: &mut V, t: &Tree, i: usize)
    requires
        t.wf(),
        i < t.len(),
    ensures
        final(v).events() == old(v).events() + walk_mod_events(t, i as int),
    decreases t.len() - i, 2int,
{
    let il = match find_child(t, i, Kind::ItemList) {
        Some(x) => x,
        Option::None => {
            proof {
                assert(v.events() =~= old(v).events() + walk_mod_events(t, i as int));
            }
            return ;
        },
    };
    let n = t.nodes[il].children.len();
    proof {
        assert(v.events() =~= old(v).events() + item_list_upto(t, il as int, 0));
    }
    let mut q: usize = 0;
    while q < n
        invariant
            t.wf(),
            i < il < t.len(),
            n == t.node(il as int).children@.len(),
            q <= n,
            v.events() == old(v).events() + item_list_upto(t, il as int, q as int),
        decreases n - q,
    {
        proof {
            assert(t.wf_at(il as int));
        }
        match &t.nodes[il].children[q] {
            Child::Node(c) => {
                if item_kind(t.nodes[*c].kind) {
                    v.visit_item(t, *c);
                    walk_item(v, t, *c);
                }
            },
            Child::Token(_) => {},
        }
        proof {
            assert(v.events() =~= old(v).events() + item_list_upto(t, il as int, q as int + 1));
        }
        q = q + 1;
    }
    proof {
        assert(v.events() =~= old(v).events() + walk_mod_events(t, i as int));
    }
}

/// Walks each item declared in a `trait`'s associated-item list, in source order.
pub fn walk_trait<V: RuleVisitor>(v: &mut V, t: &Tree, i: usize)
    requires
        t.wf(),
        i < t.len(),
    ensures
        final(v).events() == old(v).events() + walk_trait_events(t, i as int),
    decreases t.len() - i, 2int,
{
    let il = match find_child(t, i, Kind::AssocItemList) {
        Some(x) => x,
        Option::None => {
            proof {
                assert(v.events() =~= old(v).events() + walk_trait_events(t, i as int));
            }
            return ;
        },
    };
    let n = t.nodes[il].children.len();
    proof {
        assert(v.events() =~= old(v).events() + item_list_upto(t, il as int, 0));
    }
    let mut q: usize = 0;
    while q < n
        invariant
            t.wf(),
            i < il < t.len(),
            n == t.node(il as int).children@.len(),
            q <= n,
            v.events() == old(v).events() + item_list_upto(t, il as int, q as int),
        decreases n - q,
    {
        proof {
            assert(t.wf_at(il as int));
        }
        match &t.nodes[il].children[q] {
            Child::Node(c) => {
                if item_kind(t.nodes[*c].kind) {
                    v.visit_item(t, *c);
                    walk_item(v, t, *c);
                }
            },
            Child::Token(_) => {},
        }
        proof {
            assert(v.events() =~= old(v).events() + item_list_upto(t, il as int, q as int + 1));
        }
        q = q + 1;
    }
    proof {
        assert(v.events() =~= old(v).events() + walk_trait_events(t, i as int));
    }
}

/// Walks a `struct`: comments, attributes, visibility, name, generic
/// parameters, fields.
pub fn walk_struct<V: RuleVisitor>(v: &mut V, t: &Tree, i: usize)
    requires
        t.wf(),
        i < t.len(),
    ensures
        final(v).events() == old(v).events() + walk_struct_events(t, i as int),
    decreases t.len() - i, 2int,
{
    visit_intro(v, t, i);
    visit_vis_of(v, t, i);
    visit_name_of(v, t, i);
    visit_gen_params_of(v, t, i);
    proof {
        assert(v.events() =~= old(v).events() + intro_ev(t, i as int) + vis_ev(t, i as int)
            + name_ev(t, i as int) + gen_params_ev(t, i as int));
    }
    match find_child(t, i, Kind::RecordFieldList) {
        Some(x) => {
            v.visit_struct_fields(t, x);
            walk_struct_fields(v, t, x);
            proof {
                assert(v.events() =~= old(v).events() + walk_struct_events(t, i as int));
            }
            return ;
        },
        Option::None => {},
    }
    match find_child(t, i, Kind::TupleFieldList) {
        Some(x) => {
            v.visit_struct_fields(t, x);
            walk_struct_fields(v, t, x);
        },
        Option::None => {},
    }
    proof {
        assert(v.events() =~= old(v).events() + walk_struct_events(t, i as int));
    }
}

/// Walks a field list: for each field its comments, attributes,
/// visibility, name (for record fields) and type.
pub fn walk_struct_fields<V: RuleVisitor>(v: &mut V, t: &Tree, i: usize)
    requires
        t.wf(),
        i < t.len(),
    ensures
        final(v).events() == old(v).events() + walk_struct_fields_events(t, i as int),
    decreases t.len() - i, 2int,
{
    let n = t.nodes[i].children.len();
    proof {
        assert(v.events() =~= old(v).events() + fields_upto(t, i as int, 0));
    }
    let mut q: usize = 0;
    while q < n
        invariant
            t.wf(),
            i < t.len(),
            n == t.node(i as int).children@.len(),
            q <= n,
            v.events() == old(v).events() + fields_upto(t, i as int, q as int),
        decreases n - q,
    {
        proof {
            assert(t.wf_at(i as int));
        }
        let ghost mid = v.events();
        match &t.nodes[i].children[q] {
            Child::Node(c) => {
                let field = *c;
                let is_record = matches!(t.nodes[field].kind, Kind::RecordField);
                let is_tuple = matches!(t.nodes[field].kind, Kind::TupleField);
                if is_record || is_tuple {
                    visit_intro(v, t, field);
                    visit_vis_of(v, t, field);
                    if is_record {
                        visit_name_of(v, t, field);
                    }
                    match find_child(t, field, Kind::Type) {
                        Some(x) => {
                            v.visit_type(t, x);
                            walk_type(v, t, x);
                        },
                        Option::None => {},
                    }
                    proof {
                        if is_record {
                            assert(v.events() =~= mid + intro_ev(t, field as int) + vis_ev(
                                t,
                                field as int,
                            ) + name_ev(t, field as int) + type_ev(t, field as int));
                        } else {
                            assert(v.events() =~= mid + intro_ev(t, field as int) + vis_ev(
                                t,
                                field as int,
                            ) + type_ev(t, field as int));
                        }
                    }
                }
            },
            Child::Token(_) => {},
        }
        proof {
            assert(v.events() =~= old(v).events() + fields_upto(t, i as int, q as int + 1));
        }
        q = q + 1;
    }
    proof {
        assert(v.events() =~= old(v).events() + walk_struct_fields_events(t, i as int));
    }
}

/// A macro invocation is a leaf of the default walk.
pub fn walk_mac_call<V: RuleVisitor>(v: &mut V, t: &Tree, i: usize)
    requires
        t.wf(),
        i < t.len(),
    ensures
        *final(v) == *old(v),
{
}

/// A `macro` definition is a leaf of the default walk.
pub fn walk_mac_def<V: RuleVisitor>(v: &mut V, t: &Tree, i: usize)
    requires
        t.wf(),
        i < t.len(),
    ensures
        *final(v) == *old(v),
{
}

/// A `macro_rules!` definition is a leaf of the default walk.
pub fn walk_mac_rules<V: RuleVisitor>(v: &mut V, t: &Tree, i: usize)
    requires
        t.wf(),
        i < t.len(),
    ensures
        *final(v) == *old(v),
{
}

/// A `static` is a leaf of the default walk.
pub fn walk_static<V: RuleVisitor>(v: &mut V, t: &Tree, i: usize)
    requires
        t.wf(),
        i < t.len(),
    ensures
        *final(v) == *old(v),
{
}

/// A type alias is a leaf of the default walk.
pub fn walk_type_alias<V: RuleVisitor>(v: &mut V, t: &Tree, i: usize)
    requires
        t.wf(),
        i < t.len(),
    ensures
        *final(v) == *old(v),
{
}

/// A `union` is a leaf of the default walk.
pub fn walk_union<V: RuleVisitor>(v: &mut V, t: &Tree, i: usize)
    requires
        t.wf(),
        i < t.len(),
    ensures
        *final(v) == *old(v),
{
}

/// A `use` item is a leaf of the default walk.
pub fn walk_use<V: RuleVisitor>(v: &mut V, t: &Tree, i: usize)
    requires
        t.wf(),
        i < t.len(),
    ensures
        *final(v) == *old(v),
{
}

/// A visibility marker is a leaf of the default walk.
pub fn walk_vis<V: RuleVisitor>(v: &mut V, t: &Tree, i: usize)
    requires
        t.wf(),
        i < t.len(),
    ensures
        *final(v) == *old(v),
{
}

/// A type is a leaf of the default walk.
pub fn walk_type<V: RuleVisitor>(v: &mut V, t: &Tree, i: usize)
    requires
        t.wf(),
        i < t.len(),
    ensures
        *final(v) == *old(v),
{
}

/// A name is a leaf of the default walk.
pub fn walk_name<V: RuleVisitor>(v: &mut V, t: &Tree, i: usize)
    requires
        t.wf(),
        i < t.len(),
    ensures
        *final(v) == *old(v),
{
}

/// A generic parameter is a leaf of the default walk.
pub fn walk_gen_param<V: RuleVisitor>(v: &mut V, t: &Tree, i: usize)
    requires
        t.wf(),
        i < t.len(),
    ensures
        *final(v) == *old(v),
{
}

/// A parameter list is a leaf of the default walk.
pub fn walk_param<V: RuleVisitor>(v: &mut V, t: &Tree, i: usize)
    requires
        t.wf(),
        i < t.len(),
    ensures
        *final(v) == *old(v),
{
}

/// A path is a leaf of the default walk.
pub fn walk_path<V: RuleVisitor>(v: &mut V, t: &Tree, i: usize)
    requires
        t.wf(),
        i < t.len(),
    ensures
        *final(v) == *old(v),
{
}

/// A match arm is a leaf of the default walk.
pub fn walk_arm<V: RuleVisitor>(v: &mut V, t: &Tree, i: usize)
    requires
        t.wf(),
        i < t.len(),
    ensures
        *final(v) == *old(v),
{
}

/// A `where` clause is a leaf of the default walk.
pub fn walk_where_clause<V: RuleVisitor>(v: &mut V, t: &Tree, i: usize)
    requires
        t.wf(),
        i < t.len(),
    ensures
        *final(v) == *old(v),
{
}

/// A `where` predicate is a leaf of the default walk.
pub fn walk_where_pred<V: RuleVisitor>(v: &mut V, t: &Tree, i: usize)
    requires
        t.wf(),
        i < t.len(),
    ensures
        *final(v) == *old(v),
{
}

/// An associated-type argument is a leaf of the default walk.
pub fn walk_assoc_ty<V: RuleVisitor>(v: &mut V, t: &Tree, i: usize)
    requires
        t.wf(),
        i < t.len(),
    ensures
        *final(v) == *old(v),
{
}

/// An argument list is a leaf of the default walk.
pub fn walk_args<V: RuleVisitor>(v: &mut V, t: &Tree, i: usize)
    requires
        t.wf(),
        i < t.len(),
    ensures
        *final(v) == *old(v),
{
}

/// A return type is a leaf of the default walk.
pub fn walk_fn_ret<V: RuleVisitor>(v: &mut V, t: &Tree, i: usize)
    requires
        t.wf(),
        i < t.len(),
    ensures
        *final(v) == *old(v),
{
}

/// Doc comments carry no further structure.
pub fn walk_comment<V: RuleVisitor>(v: &mut V, comments: &Vec<Token>)
    ensures
        *final(v) == *old(v),
{
}

/// Attributes carry no further structure in the default walk.
pub fn walk_attr<V: RuleVisitor>(v: &mut V, t: &Tree, attrs: &Vec<usize>)
    requires
        t.wf(),
    ensures
        *final(v) == *old(v),
{
}

/// Walks a block: its attributes, each statement, then the tail
/// expression.
pub fn walk_block_expr<V: RuleVisitor>(v: &mut V, t: &Tree, i: usize)
    requires
        t.wf(),
        i < t.len(),
    ensures
        final(v).events() == old(v).events() + walk_block_events(t, i as int),
    decreases t.len() - i, 1int,
{
    let attrs = attr_children(t, i);
    v.visit_attr(t, &attrs);
    let ghost head = old(v).events() + seq![VisitEv::Attr(attr_list(t, i as int))];
    proof {
        assert(v.events() =~= head);
    }
    let sl = match find_child(t, i, Kind::StmtList) {
        Some(x) => x,
        Option::None => {
            proof {
                assert(v.events() =~= old(v).events() + walk_block_events(t, i as int));
            }
            return ;
        },
    };
    let n = t.nodes[sl].children.len();
    proof {
        assert(v.events() =~= head + stmts_upto(t, sl as int, 0));
    }
    let mut q: usize = 0;
    while q < n
        invariant
            t.wf(),
            i < sl < t.len(),
            n == t.node(sl as int).children@.len(),
            q <= n,
            v.events() == head + stmts_upto(t, sl as int, q as int),
        decreases n - q,
    {
        proof {
            assert(t.wf_at(sl as int));
        }
        match &t.nodes[sl].children[q] {
            Child::Node(c) => {
                let c = *c;
                let k = t.nodes[c].kind;
                let is_stmt = matches!(k, Kind::ExprStmt) || matches!(k, Kind::LetStmt)
                    || item_kind(k);
                if is_stmt {
                    v.visit_stmt(t, c);
                    walk_stmt(v, t, c);
                } else if expr_kind(k) {
                    v.visit_expr(t, c);
                    walk_expr(v, t, c);
                }
            },
            Child::Token(_) => {},
        }
        proof {
            assert(v.events() =~= head + stmts_upto(t, sl as int, q as int + 1));
        }
        q = q + 1;
    }
    proof {
        assert(v.events() =~= old(v).events() + walk_block_events(t, i as int));
    }
}

/// Walks a statement: an expression statement walks its expression, an
/// item statement walks the item, a `let` walks pattern, type and
/// initializer.
pub fn walk_stmt<V: RuleVisitor>(v: &mut V, t: &Tree, i: usize)
    requires
        t.wf(),
        i < t.len(),
    ensures
        final(v).events() == old(v).events() + walk_stmt_events(t, i as int),
    decreases t.len() - i, 4int,
{
    let k = t.nodes[i].kind;
    if matches!(k, Kind::ExprStmt) {
        match find_child_expr(t, i, false) {
            Some(x) => {
                v.visit_expr(t, x);
                walk_expr(v, t, x);
            },
            Option::None => {},
        }
    } else if item_kind(k) {
        v.visit_item(t, i);
        walk_item(v, t, i);
    } else if matches!(k, Kind::LetStmt) {
        match find_child_pat(t, i) {
            Some(x) => {
                v.visit_pat(t, x);
                walk_pat(v, t, x);
            },
            Option::None => {},
        }
        match find_child(t, i, Kind::Type) {
            Some(x) => {
                v.visit_type(t, x);
                walk_type(v, t, x);
            },
            Option::None => {},
        }
        match find_child_expr(t, i, false) {
            Some(x) => {
                v.visit_expr(t, x);
                walk_expr(v, t, x);
            },
            Option::None => {},
        }
    }
    proof {
        assert(v.events() =~= old(v).events() + walk_stmt_events(t, i as int));
    }
}

/// Walks an expression: its attributes, then its children by kind.
/// Expressions whose insides the default walk does not descend into are
/// explicit no-ops, as is the binary expression, which the walk does not
/// yet take apart.
#[verifier::rlimit(100)]
pub fn walk_expr<V: RuleVisitor>(v: &mut V, t: &Tree, i: usize)
    requires
        t.wf(),
        i < t.len(),
    ensures
        final(v).events() == old(v).events() + walk_expr_events(t, i as int),
    decreases t.len() - i, 2int,
{
    let attrs = attr_children(t, i);
    v.visit_attr(t, &attrs);
    let ghost head = old(v).events() + seq![VisitEv::Attr(attr_list(t, i as int))];
    proof {
        assert(v.events() =~= head);
    }
    let k = t.nodes[i].kind;
    match k {
        Kind::ArrayExpr => {
            let n = t.nodes[i].children.len();
            proof {
                assert(v.events() =~= head + expr_children_upto(t, i as int, 0));
            }
            let mut q: usize = 0;
            while q < n
                invariant
                    t.wf(),
                    i < t.len(),
                    n == t.node(i as int).children@.len(),
                    q <= n,
                    v.events() == head + expr_children_upto(t, i as int, q as int),
                decreases n - q,
            {
                proof {
                    assert(t.wf_at(i as int));
                }
                match &t.nodes[i].children[q] {
                    Child::Node(c) => {
                        if expr_kind(t.nodes[*c].kind) {
                            v.visit_expr(t, *c);
                            walk_expr(v, t, *c);
                        }
                    },
                    Child::Token(_) => {},
                }
                proof {
                    assert(v.events() =~= head + expr_children_upto(t, i as int, q as int + 1));
                }
                q = q + 1;
            }
        },
        Kind::AwaitExpr => {
            match find_child_expr(t, i, false) {
                Some(x) => {
                    v.visit_expr(t, x);
                    walk_expr(v, t, x);
                },
                Option::None => {},
            }
            proof {
                assert(v.events() =~= head + opt_expr_ev(t, i as int));
            }
        },
        Kind::BinExpr => {},
        Kind::BlockExpr => {
            v.visit_block(t, i);
            walk_block_expr(v, t, i);
        },
        Kind::BreakExpr => {
            match find_child_expr(t, i, false) {
                Some(x) => {
                    v.visit_expr(t, x);
                    walk_expr(v, t, x);
                },
                Option::None => {},
            }
            proof {
                assert(v.events() =~= head + opt_expr_ev(t, i as int));
            }
        },
        Kind::CallExpr => {
            match find_child(t, i, Kind::ArgList) {
                Some(x) => {
                    v.visit_arg_list(t, x);
                    walk_args(v, t, x);
                },
                Option::None => {},
            }
            let ghost mid = head + (match first_child_kind(t, i as int, Kind::ArgList) {
                Some(x) => seq![VisitEv::ArgList(x)],
                Option::None => Seq::<VisitEv>::empty(),
            });
            proof {
                assert(v.events() =~= mid);
            }
            match find_child_expr(t, i, false) {
                Some(x) => {
                    v.visit_expr(t, x);
                    walk_expr(v, t, x);
                },
                Option::None => {},
            }
            proof {
                assert(v.events() =~= mid + opt_expr_ev(t, i as int));
            }
        },
        Kind::CastExpr => {
            match find_child_expr(t, i, false) {
                Some(x) => {
                    v.visit_expr(t, x);
                    walk_expr(v, t, x);
                },
                Option::None => {},
            }
            let ghost mid = head + opt_expr_ev(t, i as int);
            proof {
                assert(v.events() =~= mid);
            }
            match find_child(t, i, Kind::Type) {
                Some(x) => {
                    v.visit_type(t, x);
                    walk_type(v, t, x);
                },
                Option::None => {},
            }
            proof {
                assert(v.events() =~= mid + type_ev(t, i as int));
            }
        },
        Kind::ClosureExpr => {
            match find_child(t, i, Kind::ParamList) {
                Some(x) => {
                    v.visit_params(t, x);
                    walk_param(v, t, x);
                },
                Option::None => {},
            }
            let ghost mid = head + (match first_child_kind(t, i as int, Kind::ParamList) {
                Some(x) => seq![VisitEv::Params(x)],
                Option::None => Seq::<VisitEv>::empty(),
            });
            proof {
                assert(v.events() =~= mid);
            }
            match find_child_expr(t, i, false) {
                Some(x) => {
                    v.visit_expr(t, x);
                    walk_expr(v, t, x);
                },
                Option::None => {},
            }
            proof {
                assert(v.events() =~= mid + opt_expr_ev(t, i as int));
            }
        },
        Kind::ForExpr => {
            match find_child_pat(t, i) {
                Some(x) => {
                    v.visit_pat(t, x);
                    walk_pat(v, t, x);
                },
                Option::None => {},
            }
            let ghost mid = head + opt_pat_ev(t, i as int);
            proof {
                assert(v.events() =~= mid);
            }
            match find_child_expr(t, i, true) {
                Some(x) => {
                    v.visit_expr(t, x);
                    walk_expr(v, t, x);
                },
                Option::None => {},
            }
            let ghost mid2 = mid + (match first_expr_child(t, i as int, true) {
                Some(x) => seq![VisitEv::Expr(x)] + walk_expr_events(t, x as int),
                Option::None => Seq::<VisitEv>::empty(),
            });
            proof {
                assert(v.events() =~= mid2);
            }
            match find_child(t, i, Kind::BlockExpr) {
                Some(x) => {
                    v.visit_block(t, x);
                    walk_block_expr(v, t, x);
                },
                Option::None => {},
            }
            proof {
                assert(v.events() =~= mid2 + (match first_child_kind(
                    t,
                    i as int,
                    Kind::BlockExpr,
                ) {
                    Some(x) => seq![VisitEv::Block(x)] + walk_block_events(t, x as int),
                    Option::None => Seq::<VisitEv>::empty(),
                }));
            }
        },
        Kind::IfExpr => {
            match find_child_expr(t, i, false) {
                Some(cond) => {
                    if matches!(t.nodes[cond].kind, Kind::LetExpr) {
                        match find_child_pat(t, cond) {
                            Some(x) => {
                                v.visit_pat(t, x);
                                walk_pat(v, t, x);
                            },
                            Option::None => {},
                        }
                        let ghost mid = head + opt_pat_ev(t, cond as int);
                        proof {
                            assert(v.events() =~= mid);
                        }
                        match find_child_expr(t, cond, false) {
                            Some(x) => {
                                v.visit_expr(t, x);
                                walk_expr(v, t, x);
                            },
                            Option::None => {},
                        }
                        proof {
                            assert(v.events() =~= mid + opt_expr_ev(t, cond as int));
                        }
                    } else {
                        v.visit_expr(t, cond);
                        walk_expr(v, t, cond);
                    }
                },
                Option::None => {},
            }
        },
        Kind::LetExpr => {
            match find_child_pat(t, i) {
                Some(x) => {
                    v.visit_pat(t, x);
                    walk_pat(v, t, x);
                },
                Option::None => {},
            }
            let ghost mid = head + opt_pat_ev(t, i as int);
            proof {
                assert(v.events() =~= mid);
            }
            match find_child_expr(t, i, false) {
                Some(x) => {
                    v.visit_expr(t, x);
                    walk_expr(v, t, x);
                },
                Option::None => {},
            }
            proof {
                assert(v.events() =~= mid + opt_expr_ev(t, i as int));
            }
        },
        _ => {},
    }
    proof {
        assert(v.events() =~= old(v).events() + walk_expr_events(t, i as int));
    }
}

/// Walks a pattern by its kind.  Patterns whose insides the default walk
/// does not descend into are explicit no-ops.
pub fn walk_pat<V: RuleVisitor>(v: &mut V, t: &Tree, i: usize)
    requires
        t.wf(),
        i < t.len(),
    ensures
        final(v).events() == old(v).events() + walk_pat_events(t, i as int),
    decreases t.len() - i, 2int,
{
    let k = t.nodes[i].kind;
    match k {
        Kind::IdentPat => {
            let attrs = attr_children(t, i);
            v.visit_attr(t, &attrs);
            visit_name_of(v, t, i);
            match find_child_pat(t, i) {
                Some(x) => {
                    v.visit_pat(t, x);
                    walk_pat(v, t, x);
                },
                Option::None => {},
            }
        },
        Kind::BoxPat => {
            match find_child_pat(t, i) {
                Some(x) => {
                    v.visit_pat(t, x);
                    walk_pat(v, t, x);
                },
                Option::None => {},
            }
        },
        Kind::MacroPat => {
            match find_child(t, i, Kind::MacroCall) {
                Some(x) => {
                    v.visit_mac_call(t, x);
                    walk_mac_call(v, t, x);
                },
                Option::None => {},
            }
        },
        Kind::OrPat => {
            let n = t.nodes[i].children.len();
            let ghost head = v.events();
            proof {
                assert(v.events() =~= head + or_pats_upto(t, i as int, 0));
            }
            let mut q: usize = 0;
            while q < n
                invariant
                    t.wf(),
                    i < t.len(),
                    n == t.node(i as int).children@.len(),
                    q <= n,
                    v.events() == head + or_pats_upto(t, i as int, q as int),
                decreases n - q,
            {
                proof {
                    assert(t.wf_at(i as int));
                }
                match &t.nodes[i].children[q] {
                    Child::Node(c) => {
                        if pat_kind(t.nodes[*c].kind) {
                            v.visit_pat(t, *c);
                            walk_pat(v, t, *c);
                        }
                    },
                    Child::Token(_) => {},
                }
                proof {
                    assert(v.events() =~= head + or_pats_upto(t, i as int, q as int + 1));
                }
                q = q + 1;
            }
        },
        Kind::ParenPat => {
            match find_child_pat(t, i) {
                Some(x) => {
                    v.visit_pat(t, x);
                    walk_pat(v, t, x);
                },
                Option::None => {},
            }
        },
        Kind::PathPat => {
            match find_child(t, i, Kind::Path) {
                Some(x) => {
                    v.visit_path(t, x);
                    walk_path(v, t, x);
                },
                Option::None => {},
            }
        },
        _ => {},
    }
    proof {
        assert(v.events() =~= old(v).events() + walk_pat_events(t, i as int));
    }
}

} // verus!
