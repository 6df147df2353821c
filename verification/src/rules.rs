//! The rule engine: a fixed, ordered set of checks is driven over every
//! node of one tree in depth-first pre-order, then each check reports its
//! findings, in registration order.

pub mod ban_mod;
pub mod macro_fmt;

use vstd::prelude::*;

use crate::error::{Diagnostic, Emitter};
use crate::rules::ban_mod::{ban_mod_needle, simple_ban_for, BanMod};
use crate::rules::macro_fmt::{
    flagged_upto, lemma_flagged_bounds, macro_flagged, spanned_for, MacroFmt,
};
use crate::parse::{
    events_text, events_view, events_wf, parse_of, parse_to_events, tree_from_events, tree_models,
};
use crate::strutil::contains_seq;
use crate::tree::{Kind, Tree};

verus! {

/// A check driven per node: `match_node` picks the nodes it cares about,
/// `apply_rule` is called once per matching node in traversal order, and
/// `validate` reports the findings once per file, after the traversal.
pub trait NodeRule: Sized {
    /// What `validate` needs of the accumulated state against the tree it
    /// is reported on.
    spec fn pre(&self, t: &Tree) -> bool;

    /// A short statement of what the check enforces.
    fn name(&self) -> (r: &'static str);

    /// Records one matching node.
    fn apply_rule(&mut self, t: &Tree, i: usize)
        requires
            t.wf(),
            i < t.len(),
    ;

    /// Whether the check cares about node `i`.
    fn match_node(&self, t: &Tree, i: usize) -> (r: bool)
        requires
            t.wf(),
            i < t.len(),
    ;

    /// Reports the findings into `emitter`.
    fn validate(&self, t: &Tree, path: &str, emitter: &mut Emitter) -> (r: Result<(), String>)
        requires
            t.wf(),
            self.pre(t),
    ;
}

/// A check driven per token, for checks that need token-level detail.
pub trait TokenRule: Sized {
    /// Records one matching token.
    fn apply_rule(&mut self, tok: &crate::tree::Token);

    /// Whether the check cares about token `tok`.
    fn match_node(&self, tok: &crate::tree::Token) -> (r: bool);

    /// Reports the findings into `emitter`.
    fn validate(&self, emitter: &mut Emitter) -> (r: Result<(), String>);
}

/// The fixed, ordered set of registered checks.
pub struct RuleSet {
    pub ban_mod: Box<BanMod>,
    pub macro_fmt: Box<MacroFmt>,
}

/// The registered checks, fresh for one file.
fn init_rules() -> (r: RuleSet)
    ensures
        r.ban_mod.calls() == 0,
        r.macro_fmt.calls() == 0,
        r.macro_fmt.found() =~= Seq::<usize>::empty(),
{
    RuleSet { ban_mod: BanMod::new(), macro_fmt: MacroFmt::new() }
}

/// How many of the first `n` nodes the macro-formatting check matches.
pub open spec fn macro_match_count(t: &Tree, n: int) -> nat
    decreases n,
{
    if n <= 0 {
        0
    } else {
        macro_match_count(t, n - 1) + if t.node(n - 1).kind == Kind::MacroCall {
            1nat
        } else {
            0nat
        }
    }
}

/// Drives every registered check over every node of `t`, in depth-first
/// pre-order (the arena's index order).
///
/// Every node is visited exactly once, so each check's `apply_rule` runs
/// exactly once per node its `match_node` accepts: afterwards the
/// macro-formatting check has been applied to exactly its matching nodes,
/// and the module-file check, which matches nothing, to none.
pub fn apply_rules(t: &Tree, rules: &mut RuleSet)
    requires
        t.wf(),
    ensures
        final(rules).ban_mod.calls() == old(rules).ban_mod.calls(),
        final(rules).macro_fmt.calls() == old(rules).macro_fmt.calls() + macro_match_count(
            t,
            t.len(),
        ),
        final(rules).macro_fmt.found() == old(rules).macro_fmt.found() + flagged_upto(t, t.len()),
{
    let n = t.nodes.len();
    let mut i: usize = 0;
    while i < n
        invariant
            t.wf(),
            n == t.len(),
            i <= n,
            rules.ban_mod.calls() == old(rules).ban_mod.calls(),
            rules.macro_fmt.calls() == old(rules).macro_fmt.calls() + macro_match_count(
                t,
                i as int,
            ),
            rules.macro_fmt.found() == old(rules).macro_fmt.found() + flagged_upto(t, i as int),
        decreases n - i,
    {
        if rules.ban_mod.match_node(t, i) {
            rules.ban_mod.apply_rule(t, i);
        }
        if rules.macro_fmt.match_node(t, i) {
            rules.macro_fmt.apply_rule(t, i);
        }
        proof {
            assert(rules.macro_fmt.found() =~= old(rules).macro_fmt.found() + flagged_upto(
                t,
                i as int + 1,
            ));
        }
        i = i + 1;
    }
}

/// A run of spanned diagnostics of the formatting check: starting at
/// position `base` of `after`, one per flagged node, in order.
pub open spec fn spanned_block(
    t: &Tree,
    path: Seq<char>,
    after: Seq<Diagnostic>,
    base: int,
    fl: Seq<usize>,
) -> bool {
    forall|k: int|
        0 <= k < fl.len() ==> #[trigger] spanned_for(after[base + k], t, fl[k] as int, path)
}

/// What one validation pass adds to the emitter for tree `t` at `path`:
/// first, when the path holds the reserved module filename, one simple
/// diagnostic naming it; then one spanned diagnostic per flagged macro
/// invocation, in traversal order.
pub open spec fn validate_adds(t: &Tree, path: Seq<char>, before: Seq<Diagnostic>, after: Seq<
    Diagnostic,
>) -> bool {
    let ban: int = if contains_seq(path, ban_mod_needle()) {
        1
    } else {
        0
    };
    let fl = flagged_upto(t, t.len());
    &&& after.len() == before.len() + ban + fl.len()
    &&& after.subrange(0, before.len() as int) == before
    &&& (contains_seq(path, ban_mod_needle()) ==> simple_ban_for(
        after[before.len() as int],
        path,
    ))
    &&& spanned_block(t, path, after, before.len() + ban, fl)
}

/// Runs one validation pass over `t`: instantiates the registered checks,
/// drives them over every node, then collects each check's findings into
/// `emitter`, in registration order.
///
/// The pass never fails on a well-formed tree; a file with no violations
/// adds nothing, and that is success.
pub fn validate_tree(t: &Tree, path: &str, emitter: &mut Emitter) -> (r: Result<(), String>)
    requires
        t.wf(),
    ensures
        r.is_ok(),
        validate_adds(t, path@, old(emitter)@, final(emitter)@),
{
    let mut rules = init_rules();
    apply_rules(t, &mut rules);
    proof {
        lemma_flagged_bounds(t, t.len());
    }
    let r1 = rules.ban_mod.validate(t, path, emitter);
    match r1 {
        Ok(()) => {},
        Err(e) => {
            return Err(e);
        },
    }
    let ghost mid = emitter@;
    let r2 = rules.macro_fmt.validate(t, path, emitter);
    match r2 {
        Ok(()) => {},
        Err(e) => {
            return Err(e);
        },
    }
    proof {
        assert(final(emitter)@.subrange(0, old(emitter)@.len() as int) =~= old(emitter)@);
    }
    Ok(())
}

/// Parses one file's text and runs one validation pass over it.
///
/// The text goes through the outside parser; exactly the texts it reports
/// syntax errors for, or answers with a walk that is not a well-formed
/// event stream, are refused with `Err` and the emitter untouched.  On
/// every other text the pass runs over the parsed tree — the tree of the
/// text's own parse events, pinned by [`tree_models`] — and succeeds,
/// adding exactly the diagnostics that [`validate_adds`] describes for
/// that tree.  The length bound keeps the text within the parser's 32-bit
/// positions.
pub fn validate_source(path: &str, text: &str, emitter: &mut Emitter) -> (r: Result<(), String>)
    requires
        text@.len() <= u32::MAX as nat / 4,
    ensures
        r.is_err() <==> (match parse_of(text@) {
            Some(ev) => !events_wf(ev),
            None => true,
        }),
        r.is_err() ==> final(emitter)@ == old(emitter)@,
        r.is_ok() ==> (parse_of(text@) matches Some(ev) && exists|t: Tree|
            t.wf() && #[trigger] tree_models(&t, ev) && validate_adds(
                &t,
                path@,
                old(emitter)@,
                final(emitter)@,
            )),
        (parse_of(text@) matches Some(ev) ==> events_text(ev, ev.len() as int) == text@),
{
    match parse_to_events(text) {
        Option::None => Err("failed to parse source text".to_owned()),
        Option::Some(evs) => {
            match tree_from_events(&evs) {
                Option::None => Err("parse events do not form a well-formed tree".to_owned()),
                Option::Some(t) => {
                    let res = validate_tree(&t, path, emitter);
                    match res {
                        Ok(()) => {
                            proof {
                                assert(t.wf() && tree_models(&t, events_view(evs@))
                                    && validate_adds(
                                    &t,
                                    path@,
                                    old(emitter)@,
                                    final(emitter)@,
                                ));
                            }
                            Ok(())
                        },
                        Err(e) => Err(e),
                    }
                },
            }
        },
    }
}

} // verus!
