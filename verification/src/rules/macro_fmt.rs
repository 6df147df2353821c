//! The formatting check for macro-style invocations: a maximum printable
//! line width of 80 chars, and an indentation that must track the nesting
//! depth of braces and parentheses used as line-break points, 4 spaces per
//! level.
//!
//! The whole scan is specified by [`nf_scan`]; the checker is proved to
//! return exactly its verdict.  The running line count is capped just beyond
//! the width limit, which leaves every width test unchanged.  When a scan
//! reaches the end of the stream without an early verdict the construct is
//! still reported as needing formatting; whether a clean scan should mean
//! "well-formatted" instead is an open policy question, kept open here and
//! made visible by `lemma_fallback_flags_everything` rather than silently
//! decided.

use vstd::prelude::*;

use crate::error::{Diagnostic, Emitter, Span};
use crate::rules::NodeRule;
use crate::pretty::{is_punct, is_punct_kind};
use crate::strutil::{
    count_char, count_char_in, find_last, has_char, last_pos, lemma_count_char_add,
    lemma_last_pos, str_has_char,
};
use crate::tree::{toks_view, Child, Kind, TokKind, Token, TokenV, Tree};

verus! {

/// The line-width limit.
pub open spec fn line_limit() -> nat {
    80
}

/// The width of one indentation level, in spaces.
pub open spec fn indent_unit() -> nat {
    4
}

/// The running line count, capped just beyond the width limit: every
/// comparison against the limit gives the same answer as for the uncapped
/// count.
pub open spec fn cap_line(n: int) -> nat {
    if n > 81 {
        81nat
    } else if n < 0 {
        0nat
    } else {
        n as nat
    }
}

/// The nesting level after one token, where `next` is the following token,
/// if any: an opening brace not directly closed again opens a level; a
/// closing brace not directly after its opener and not followed by
/// punctuation closes one; parentheses open and close a level only when a
/// line break follows them directly.
pub open spec fn nf_level(tok: TokenV, next: Option<TokenV>, level: nat) -> nat {
    let next_is_nl = match next {
        Option::None => false,
        Option::Some(nx) => nx.kind == TokKind::Whitespace && has_char(nx.text, '\n'),
    };
    match tok.kind {
        TokKind::LCurly => {
            let open = match next {
                Option::None => true,
                Option::Some(nx) => nx.kind != TokKind::RCurly,
            };
            if open {
                level + 1
            } else {
                level
            }
        },
        TokKind::RCurly => {
            let close = match next {
                Option::None => true,
                Option::Some(nx) => !is_punct_kind(nx.kind),
            };
            if close {
                if level == 0 {
                    0nat
                } else {
                    (level - 1) as nat
                }
            } else {
                level
            }
        },
        TokKind::LParen => {
            if next_is_nl {
                level + 1
            } else {
                level
            }
        },
        TokKind::RParen => {
            if next_is_nl {
                if level == 0 {
                    0nat
                } else {
                    (level - 1) as nat
                }
            } else {
                level
            }
        },
        _ => level,
    }
}

/// The text after the last line break of `s`; the whole of `s` when it
/// holds none.
pub open spec fn after_last_nl(s: Seq<char>) -> Seq<char> {
    s.subrange(last_pos(s, '\n') + 1, s.len() as int)
}

/// The scan from token `j` on: at a token holding a line break, the verdict
/// is "needs formatting" when the line before the break ran past the limit
/// or the whitespace following the break (the token's text after its last
/// break) does not hold exactly `level * 4` spaces; otherwise the line
/// count restarts at the length of the text after the last break.  A scan
/// that runs off the end gives "needs formatting" (the unconditional
/// fallback).
pub open spec fn nf_scan(toks: Seq<TokenV>, j: int, line_len: nat, level: nat) -> bool
    decreases toks.len() - j,
        when 0 <= j
{
    if j >= toks.len() {
        true
    } else {
        let tok = toks[j];
        let nl = has_char(tok.text, '\n');
        if nl && (line_len > line_limit() || count_char(after_last_nl(tok.text), ' ') != level
            * indent_unit()) {
            true
        } else {
            let line2 = if nl {
                cap_line(after_last_nl(tok.text).len() as int)
            } else {
                cap_line(line_len + tok.text.len() as int)
            };
            let next = if j + 1 < toks.len() {
                Some(toks[j + 1])
            } else {
                Option::<TokenV>::None
            };
            nf_scan(toks, j + 1, line2, nf_level(tok, next, level))
        }
    }
}

/// The early verdicts alone: like [`nf_scan`], but a scan that runs off
/// the end of the stream gives `false` instead of falling back to "needs
/// formatting".  What [`nf_scan`] adds over this is exactly the
/// unconditional end-of-stream fallback.
pub open spec fn nf_early(toks: Seq<TokenV>, j: int, line_len: nat, level: nat) -> bool
    decreases toks.len() - j,
        when 0 <= j
{
    if j >= toks.len() {
        false
    } else {
        let tok = toks[j];
        let nl = has_char(tok.text, '\n');
        if nl && (line_len > line_limit() || count_char(after_last_nl(tok.text), ' ') != level
            * indent_unit()) {
            true
        } else {
            let line2 = if nl {
                cap_line(after_last_nl(tok.text).len() as int)
            } else {
                cap_line(line_len + tok.text.len() as int)
            };
            let next = if j + 1 < toks.len() {
                Some(toks[j + 1])
            } else {
                Option::<TokenV>::None
            };
            nf_early(toks, j + 1, line2, nf_level(tok, next, level))
        }
    }
}

/// The checker's verdict on a token stream laid out at `indent` leading
/// spaces.
pub open spec fn needs_formatting_spec(toks: Seq<TokenV>, indent: nat) -> bool {
    nf_scan(toks, 0, 0, indent / indent_unit())
}

/// Decides whether the construct covered by `toks`, whose enclosing line is
/// indented by `indent` spaces, is laid out according to the width and
/// indentation policy.
pub fn needs_formatting(toks: &Vec<Token>, indent: u128) -> (r: bool)
    ensures
        r == needs_formatting_spec(toks_view(toks@), indent as nat),
{
    let ghost tv = toks_view(toks@);
    let n = toks.len();
    let mut line_len: usize = 0;
    let mut level: u128 = indent / 4;
    let mut j: usize = 0;
    while j < n
        invariant
            n == toks@.len(),
            tv == toks_view(toks@),
            tv.len() == n,
            j <= n,
            line_len <= 81,
            level <= indent / 4 + j,
            nf_scan(tv, 0, 0, (indent / 4) as nat) == nf_scan(
                tv,
                j as int,
                line_len as nat,
                level as nat,
            ),
        decreases n - j,
    {
        let ghost old_line = line_len as nat;
        let ghost old_level = level as nat;
        let tok = &toks[j];
        proof {
            assert(tv[j as int] == toks@[j as int]@);
            assert(j + 1 < n ==> tv[j as int + 1] == toks@[j as int + 1]@);
            crate::strutil::lemma_count_char_le_len(tv[j as int].text, '\n');
        }
        let text_len = tok.text.unicode_len();
        let nl_count = count_char_in(tok.text.as_str(), '\n');
        let nl = nl_count != 0;
        if nl {
            proof {
                lemma_last_pos(tok.text@, '\n');
            }
            let suffix = match find_last(tok.text.as_str(), '\n') {
                Some(jn) => tok.text.as_str().substring_char(jn + 1, text_len),
                Option::None => tok.text.as_str().substring_char(0, text_len),
            };
            proof {
                assert(suffix@ == after_last_nl(tv[j as int].text));
            }
            let spaces = count_char_in(suffix, ' ');
            let level_match = (spaces / 4) as u128 == level && spaces % 4 == 0;
            proof {
                assert((count_char(after_last_nl(tv[j as int].text), ' ') == old_level * 4)
                    == level_match) by (nonlinear_arith)
                    requires
                        spaces == count_char(after_last_nl(tv[j as int].text), ' '),
                        old_level == level as nat,
                        level_match == ((spaces / 4) as u128 == level && spaces % 4 == 0),
                ;
            }
            if line_len > 80 || !level_match {
                proof {
                    assert(nf_scan(tv, j as int, old_line, old_level));
                }
                return true;
            }
            let suffix_len = suffix.unicode_len();
            line_len = if suffix_len > 81 {
                81
            } else {
                suffix_len
            };
        } else {
            line_len = if text_len > 81 - line_len {
                81
            } else {
                line_len + text_len
            };
        }
        let next_is_nl_tok = if j + 1 < n {
            matches!(toks[j + 1].kind, TokKind::Whitespace) && str_has_char(
                toks[j + 1].text.as_str(),
                '\n',
            )
        } else {
            false
        };
        match tok.kind {
            TokKind::LCurly => {
                let open = if j + 1 < n {
                    !matches!(toks[j + 1].kind, TokKind::RCurly)
                } else {
                    true
                };
                if open {
                    level = level + 1;
                }
            },
            TokKind::RCurly => {
                let close = if j + 1 < n {
                    !is_punct(toks[j + 1].kind)
                } else {
                    true
                };
                if close && level > 0 {
                    level = level - 1;
                }
            },
            TokKind::LParen => {
                if next_is_nl_tok {
                    level = level + 1;
                }
            },
            TokKind::RParen => {
                if next_is_nl_tok && level > 0 {
                    level = level - 1;
                }
            },
            _ => {},
        }
        proof {
            let ghost nextv = if j + 1 < tv.len() {
                Some(tv[j as int + 1])
            } else {
                Option::<TokenV>::None
            };
            assert(level as nat == nf_level(tv[j as int], nextv, old_level));
            assert(line_len as nat == (if has_char(tv[j as int].text, '\n') {
                cap_line(after_last_nl(tv[j as int].text).len() as int)
            } else {
                cap_line(old_line + tv[j as int].text.len() as int)
            }));
            assert(nf_scan(tv, j as int, old_line, old_level) == nf_scan(
                tv,
                j as int + 1,
                line_len as nat,
                level as nat,
            ));
        }
        j = j + 1;
    }
    true
}

// ---------------------------------------------------------------------------
// Deriving the enclosing line's indentation
// ---------------------------------------------------------------------------

/// The first position at or after `k` holding the child node `c`, or -1.
pub open spec fn node_pos_from(children: Seq<Child>, c: usize, k: int) -> int
    decreases children.len() - k,
        when 0 <= k
{
    if k >= children.len() {
        -1
    } else if children[k] == Child::Node(c) {
        k
    } else {
        node_pos_from(children, c, k + 1)
    }
}

/// The nearest line-break token strictly before position `k`, scanning
/// backwards: a whitespace token holding a line break.  Nodes, other
/// tokens and break-less whitespace are passed over.
pub open spec fn back_ws(children: Seq<Child>, k: int) -> Option<Token>
    decreases k,
{
    if k <= 0 || k > children.len() {
        Option::<Token>::None
    } else {
        match children[k - 1] {
            Child::Token(tok) => if tok.kind == TokKind::Whitespace && has_char(
                tok.text@,
                '\n',
            ) {
                Some(tok)
            } else {
                back_ws(children, k - 1)
            },
            Child::Node(_) => back_ws(children, k - 1),
        }
    }
}

/// The line break that precedes node `i`: the nearest line-break token
/// before `i` among its siblings, or, failing that, before any of its
/// ancestors among theirs.
pub open spec fn prev_ws(t: &Tree, i: int) -> Option<Token>
    decreases i,
        when t.wf() && 0 <= i < t.len()
{
    match t.node(i).parent {
        Option::None => Option::<Token>::None,
        Option::Some(p) => {
            let kids = t.node(p as int).children@;
            let pos = node_pos_from(kids, i as usize, 0);
            let from = if pos < 0 {
                0
            } else {
                pos
            };
            match back_ws(kids, from) {
                Some(tok) => Some(tok),
                Option::None => prev_ws(t, p as int),
            }
        },
    }
}

/// The longest suffix of `s` made of spaces and tabs: the trailing
/// space/tab run.
pub open spec fn trailing_ws_run(s: Seq<char>) -> Seq<char>
    decreases s.len(),
{
    if s.len() == 0 {
        Seq::empty()
    } else if s.last() == ' ' || s.last() == '\t' {
        trailing_ws_run(s.drop_last()).push(s.last())
    } else {
        Seq::empty()
    }
}

/// The indentation the line-break token `ws` gives the following line: the
/// spaces of its trailing space/tab run, with each tab counted as 4 spaces.
pub open spec fn indent_width(ws: Option<Token>) -> nat {
    match ws {
        Option::None => 0,
        Some(tok) => count_char(trailing_ws_run(tok.text@), ' ') + 4 * count_char(
            trailing_ws_run(tok.text@),
            '\t',
        ),
    }
}

/// The indentation of the line enclosing node `i`.
pub open spec fn indent_of(t: &Tree, i: int) -> nat {
    indent_width(prev_ws(t, i))
}

/// The first position at or after `from` holding the child node `c`, or -1.
fn find_node_pos(children: &Vec<Child>, c: usize) -> (r: Option<usize>)
    ensures
        (match r {
            Some(k) => k == node_pos_from(children@, c, 0),
            None => node_pos_from(children@, c, 0) == -1,
        }),
{
    let n = children.len();
    let mut k: usize = 0;
    while k < n
        invariant
            n == children@.len(),
            k <= n,
            node_pos_from(children@, c, 0) == node_pos_from(children@, c, k as int),
        decreases n - k,
    {
        let hit = match &children[k] {
            Child::Node(x) => *x == c,
            Child::Token(_) => false,
        };
        if hit {
            return Some(k);
        }
        k = k + 1;
    }
    None
}

/// The nearest line-break token strictly before position `from`.
fn find_back_ws(children: &Vec<Child>, from: usize) -> (r: Option<Token>)
    requires
        from <= children@.len(),
    ensures
        r == back_ws(children@, from as int),
{
    let mut k: usize = from;
    while k > 0
        invariant
            k <= children@.len(),
            back_ws(children@, from as int) == back_ws(children@, k as int),
        decreases k,
    {
        match &children[k - 1] {
            Child::Token(tok) => {
                if matches!(tok.kind, TokKind::Whitespace) && str_has_char(
                    tok.text.as_str(),
                    '\n',
                ) {
                    return Some(tok.clone());
                }
            },
            Child::Node(_) => {},
        }
        k = k - 1;
    }
    None
}

/// Walks ancestors and their preceding siblings for the nearest line-break
/// token before node `i`.
pub fn find_prev_ws(t: &Tree, i: usize) -> (r: Option<Token>)
    requires
        t.wf(),
        i < t.len(),
    ensures
        r == prev_ws(t, i as int),
{
    let mut cur = i;
    loop
        invariant
            t.wf(),
            cur < t.len(),
            prev_ws(t, i as int) == prev_ws(t, cur as int),
        ensures
            prev_ws(t, i as int) == prev_ws(t, cur as int),
            t.node(cur as int).parent.is_none(),
        decreases cur,
    {
        match t.nodes[cur].parent {
            Option::None => {
                break ;
            },
            Option::Some(p) => {
                let kids = &t.nodes[p].children;
                let from = match find_node_pos(kids, cur) {
                    Some(pos) => pos,
                    Option::None => 0,
                };
                proof {
                    lemma_node_pos_bounds(kids@, cur, 0);
                }
                match find_back_ws(kids, from) {
                    Some(tok) => {
                        return Some(tok);
                    },
                    Option::None => {},
                }
                cur = p;
            },
        }
    }
    None
}

/// `node_pos_from` stays inside the children list.
proof fn lemma_node_pos_bounds(children: Seq<Child>, c: usize, k: int)
    requires
        0 <= k,
    ensures
        node_pos_from(children, c, k) == -1 || k <= node_pos_from(children, c, k)
            < children.len(),
    decreases children.len() - k,
{
    if k < children.len() && children[k] != Child::Node(c) {
        lemma_node_pos_bounds(children, c, k + 1);
    }
}

/// The indentation the trailing space/tab run of `s` carries: its spaces,
/// with each tab counted as 4 spaces.
fn trailing_indent(s: &str) -> (r: u128)
    ensures
        r as nat == count_char(trailing_ws_run(s@), ' ') + 4 * count_char(
            trailing_ws_run(s@),
            '\t',
        ),
{
    let n = s.unicode_len();
    let mut sp: usize = 0;
    let mut tb: usize = 0;
    let mut i: usize = n;
    proof {
        assert(s@.take(n as int) =~= s@);
        assert(s@.subrange(n as int, n as int) =~= Seq::<char>::empty());
        assert(trailing_ws_run(s@.take(n as int)) + s@.subrange(n as int, n as int)
            =~= trailing_ws_run(s@));
    }
    loop
        invariant
            n == s@.len(),
            i <= n,
            trailing_ws_run(s@) == trailing_ws_run(s@.take(i as int)) + s@.subrange(
                i as int,
                n as int,
            ),
            sp == count_char(s@.subrange(i as int, n as int), ' '),
            tb == count_char(s@.subrange(i as int, n as int), '\t'),
            sp + tb <= n - i,
        ensures
            trailing_ws_run(s@) == s@.subrange(i as int, n as int),
            sp == count_char(trailing_ws_run(s@), ' '),
            tb == count_char(trailing_ws_run(s@), '\t'),
        decreases i,
    {
        if i == 0 {
            proof {
                assert(s@.take(0int) =~= Seq::<char>::empty());
                assert(trailing_ws_run(s@) =~= s@.subrange(0int, n as int));
            }
            break ;
        }
        let c = s.get_char(i - 1);
        if !(c == ' ' || c == '\t') {
            proof {
                assert(s@.take(i as int).last() == c);
                assert(trailing_ws_run(s@.take(i as int)) =~= Seq::<char>::empty());
                assert(trailing_ws_run(s@) =~= s@.subrange(i as int, n as int));
            }
            break ;
        }
        proof {
            reveal_with_fuel(count_char, 3);
            assert(s@.take(i as int).drop_last() =~= s@.take(i as int - 1));
            assert(s@.take(i as int).last() == c);
            assert(trailing_ws_run(s@.take(i as int)) == trailing_ws_run(
                s@.take(i as int - 1),
            ).push(c));
            assert(trailing_ws_run(s@.take(i as int - 1)).push(c) + s@.subrange(
                i as int,
                n as int,
            ) =~= trailing_ws_run(s@.take(i as int - 1)) + s@.subrange(i as int - 1, n as int));
            assert(s@.subrange(i as int - 1, n as int) =~= seq![c] + s@.subrange(
                i as int,
                n as int,
            ));
            lemma_count_char_add(seq![c], s@.subrange(i as int, n as int), ' ');
            lemma_count_char_add(seq![c], s@.subrange(i as int, n as int), '\t');
            assert(seq![c].drop_last() =~= Seq::<char>::empty());
        }
        if c == ' ' {
            sp = sp + 1;
        } else {
            tb = tb + 1;
        }
        i = i - 1;
    }
    sp as u128 + 4 * (tb as u128)
}

/// The indentation of the line enclosing node `i`: the trailing space/tab
/// run of the nearest preceding line break, tabs counted as 4 spaces each.
pub fn derive_indent(t: &Tree, i: usize) -> (r: u128)
    requires
        t.wf(),
        i < t.len(),
    ensures
        r as nat == indent_of(t, i as int),
{
    match find_prev_ws(t, i) {
        Option::None => 0,
        Some(tok) => trailing_indent(tok.text.as_str()),
    }
}

// ---------------------------------------------------------------------------
// The rule
// ---------------------------------------------------------------------------

/// Whether the formatting check flags node `i`: a macro invocation whose
/// token layout violates the width or indentation policy.
pub open spec fn macro_flagged(t: &Tree, i: int) -> bool {
    t.node(i).kind == Kind::MacroCall && needs_formatting_spec(
        crate::tree::tok_seq(t, i),
        indent_of(t, i),
    )
}

/// The nodes among the first `n` that the formatting check flags, in index
/// order.
pub open spec fn flagged_upto(t: &Tree, n: int) -> Seq<usize>
    decreases n,
{
    if n <= 0 {
        Seq::empty()
    } else if macro_flagged(t, n - 1) {
        flagged_upto(t, n - 1).push((n - 1) as usize)
    } else {
        flagged_upto(t, n - 1)
    }
}

/// Every flagged index lies below `n`.
pub proof fn lemma_flagged_bounds(t: &Tree, n: int)
    ensures
        forall|k: int|
            0 <= k < flagged_upto(t, n).len() ==> (#[trigger] flagged_upto(t, n)[k]) < n,
    decreases n,
{
    if n > 0 {
        lemma_flagged_bounds(t, n - 1);
        if macro_flagged(t, n - 1) {
            assert(flagged_upto(t, n) == flagged_upto(t, n - 1).push((n - 1) as usize));
            assert(forall|k: int|
                0 <= k < flagged_upto(t, n - 1).len() ==> (#[trigger] flagged_upto(t, n)[k])
                    == flagged_upto(t, n - 1)[k]);
        }
    }
}

/// What one diagnostic of this check looks like: a spanned diagnostic at
/// node `i`'s span, with the fixed message, an empty suggestion, and the
/// node's text as excerpt.
pub open spec fn spanned_for(d: Diagnostic, t: &Tree, i: int, path: Seq<char>) -> bool {
    &&& d matches Diagnostic::Spanned(e)
    &&& (d matches Diagnostic::Spanned(e) ==> {
        &&& e.msg@ == macro_fmt_msg_text()
        &&& e.suggestion@ == ""@
        &&& e.span == (Span { start: t.node(i).start, end: t.node(i).end })
        &&& e.file@ == path
        &&& e.root_text@ == crate::tree::text_of(t, 0)
        &&& e.excerpt@ == crate::tree::text_of(t, i)
    })
}

/// The message every diagnostic of this check carries.
pub open spec fn macro_fmt_msg_text() -> Seq<char> {
    "Hello message"@
}

/// Checks the layout of macro invocations.
pub struct MacroFmt {
    found: Vec<usize>,
    accumulated: Ghost<nat>,
}

impl MacroFmt {
    /// The nodes recorded as needing reformatting, in traversal order.
    pub closed spec fn found(&self) -> Seq<usize> {
        self.found@
    }

    /// How many nodes this check has been applied to.
    pub closed spec fn calls(&self) -> nat {
        self.accumulated@
    }

    /// A fresh instance with no findings.
    pub fn new() -> (r: Box<Self>)
        ensures
            r.found() =~= Seq::<usize>::empty(),
            r.calls() == 0,
    {
        Box::new(MacroFmt { found: Vec::new(), accumulated: Ghost(0) })
    }
}

impl Default for MacroFmt {
    /// A fresh instance with no findings.
    fn default() -> (r: MacroFmt)
        ensures
            r.found() =~= Seq::<usize>::empty(),
            r.calls() == 0,
    {
        MacroFmt { found: Vec::new(), accumulated: Ghost(0) }
    }
}

impl NodeRule for MacroFmt {
    /// `validate` walks the recorded nodes, so each must lie in the tree.
    open spec fn pre(&self, t: &Tree) -> bool {
        forall|x: int| 0 <= x < self.found().len() ==> (#[trigger] self.found()[x]) < t.len()
    }

    fn name(&self) -> (r: &'static str)
        ensures
            r@ == "Correct formatting of macro calls."@,
    {
        "Correct formatting of macro calls."
    }

    fn apply_rule(&mut self, t: &Tree, i: usize)
        ensures
            final(self).calls() == old(self).calls() + 1,
            final(self).found() == if macro_flagged(t, i as int) {
                old(self).found().push(i)
            } else {
                old(self).found()
            },
    {
        proof {
            self.accumulated@ = self.accumulated@ + 1;
        }
        if matches!(t.nodes[i].kind, Kind::MacroCall) {
            let indent = derive_indent(t, i);
            let toks = t.subtree_tokens(i);
            if needs_formatting(&toks, indent) {
                self.found.push(i);
            }
        }
    }

    fn match_node(&self, t: &Tree, i: usize) -> (r: bool)
        ensures
            r == (t.node(i as int).kind == Kind::MacroCall),
    {
        matches!(t.nodes[i].kind, Kind::MacroCall)
    }

    fn validate(&self, t: &Tree, path: &str, emitter: &mut Emitter) -> (r: Result<(), String>)
        ensures
            r.is_ok(),
            final(emitter)@.len() == old(emitter)@.len() + self.found().len(),
            final(emitter)@.subrange(0, old(emitter)@.len() as int) == old(emitter)@,
            forall|k: int|
                0 <= k < self.found().len() ==> spanned_for(
                    #[trigger] final(emitter)@[old(emitter)@.len() + k],
                    t,
                    self.found()[k] as int,
                    path@,
                ),
    {
        let ghost base = emitter@;
        let n = self.found.len();
        let mut k: usize = 0;
        while k < n
            invariant
                t.wf(),
                forall|x: int| 0 <= x < self.found@.len() ==> (#[trigger] self.found@[x]) < t.len(),
                n == self.found@.len(),
                k <= n,
                emitter@.len() == base.len() + k,
                emitter@.subrange(0, base.len() as int) == base,
                forall|x: int|
                    0 <= x < k ==> spanned_for(
                        #[trigger] emitter@[base.len() + x],
                        t,
                        self.found@[x] as int,
                        path@,
                    ),
            decreases n - k,
        {
            let mac = self.found[k];
            let span = Span { start: t.nodes[mac].start, end: t.nodes[mac].end };
            let ghost prev = emitter@;
            emitter.sugg_with_span("Hello message", "", span, t, mac, path);
            proof {
                assert(emitter@.drop_last() == prev);
                assert(forall|x: int|
                    0 <= x < prev.len() ==> #[trigger] emitter@[x] == prev[x]);
                assert(emitter@.subrange(0, base.len() as int) =~= base);
                assert(emitter@[base.len() + k] == emitter@.last());
            }
            k = k + 1;
        }
        Ok(())
    }
}

} // verus!
