//! Laws that relate the library's pieces across functions: what a check
//! without matches may report, what the traversal counts, what the
//! formatting checker's verdicts hang on, and what a reserved module path
//! always earns.  Each law is stated over the same spec functions the
//! functions' own contracts use, so it binds the executable code.

use vstd::prelude::*;

use crate::error::Diagnostic;
use crate::pretty::pretty_print;
use crate::rules::ban_mod::{ban_mod_needle, simple_ban_for};
use crate::rules::macro_fmt::{
    flagged_upto, macro_flagged, nf_early, nf_scan, spanned_for,
};
use crate::rules::validate_adds;
use crate::strutil::{contains_seq, count_char, has_char, lemma_count_char_add};
use crate::tree::{Kind, TokenV, Tree};

verus! {

/// A tree with no macro invocations gives the formatting check nothing to
/// record, so its report stays empty.
pub proof fn lemma_no_match_no_findings(t: &Tree, n: int)
    requires
        forall|i: int| 0 <= i < t.len() ==> (#[trigger] t.node(i).kind) != Kind::MacroCall,
        n <= t.len(),
    ensures
        flagged_upto(t, n) =~= Seq::<usize>::empty(),
    decreases n,
{
    if n > 0 {
        lemma_no_match_no_findings(t, n - 1);
        assert(!macro_flagged(t, n - 1));
    }
}

/// A rule with zero matching nodes reports nothing: on a tree with no
/// matching node for the formatting check, and a path the module-file check
/// does not fire on (one not holding the reserved filename), a validation
/// pass adds no diagnostic at all.
pub proof fn lemma_no_match_empty_report(
    t: &Tree,
    path: Seq<char>,
    before: Seq<Diagnostic>,
    after: Seq<Diagnostic>,
)
    requires
        t.wf(),
        forall|i: int| 0 <= i < t.len() ==> (#[trigger] t.node(i).kind) != Kind::MacroCall,
        !contains_seq(path, ban_mod_needle()),
        validate_adds(t, path, before, after),
    ensures
        after == before,
{
    lemma_no_match_no_findings(t, t.len());
    assert(after.len() == before.len());
    assert(after =~= after.subrange(0, before.len() as int));
}

/// Every early verdict of the formatting checker hangs on a token holding a
/// line break: a stream laid out on a single line is never flagged before
/// the end-of-stream fallback.
pub proof fn lemma_single_line_no_early_verdict(
    toks: Seq<TokenV>,
    j: int,
    line_len: nat,
    level: nat,
)
    requires
        0 <= j,
        forall|k: int| 0 <= k < toks.len() ==> !has_char(#[trigger] toks[k].text, '\n'),
    ensures
        !nf_early(toks, j, line_len, level),
    decreases toks.len() - j,
{
    if j < toks.len() {
        let tok = toks[j];
        assert(!has_char(tok.text, '\n'));
        let line2 = crate::rules::macro_fmt::cap_line(line_len + tok.text.len() as int);
        let next = if j + 1 < toks.len() {
            Some(toks[j + 1])
        } else {
            Option::<TokenV>::None
        };
        lemma_single_line_no_early_verdict(
            toks,
            j + 1,
            line2,
            crate::rules::macro_fmt::nf_level(tok, next, level),
        );
    }
}

/// The unconditional end-of-stream fallback makes the checker's final verdict
/// constant: every scan that does not flag early still reports "needs
/// formatting" at the end, so the verdict as a whole is always true.  This
/// law makes the open policy question the checker carries visible instead
/// of deciding it silently.
pub proof fn lemma_fallback_flags_everything(toks: Seq<TokenV>, j: int, line_len: nat, level: nat)
    requires
        0 <= j,
    ensures
        nf_scan(toks, j, line_len, level),
    decreases toks.len() - j,
{
    if j < toks.len() {
        let tok = toks[j];
        let nl = has_char(tok.text, '\n');
        if !(nl && (line_len > crate::rules::macro_fmt::line_limit() || crate::strutil::count_char(
            crate::rules::macro_fmt::after_last_nl(tok.text),
            ' ',
        ) != level * crate::rules::macro_fmt::indent_unit())) {
            let line2 = if nl {
                crate::rules::macro_fmt::cap_line(
                    crate::rules::macro_fmt::after_last_nl(tok.text).len() as int,
                )
            } else {
                crate::rules::macro_fmt::cap_line(line_len + tok.text.len() as int)
            };
            let next = if j + 1 < toks.len() {
                Some(toks[j + 1])
            } else {
                Option::<TokenV>::None
            };
            lemma_fallback_flags_everything(
                toks,
                j + 1,
                line2,
                crate::rules::macro_fmt::nf_level(tok, next, level),
            );
        }
    }
}

/// A token stream with no braces, no terminators and no line breaks of its
/// own: the printer lays such a construct out on a single line.
pub open spec fn flat_stream(toks: Seq<TokenV>) -> bool {
    forall|k: int|
        0 <= k < toks.len() ==> {
            let tok = #[trigger] toks[k];
            &&& tok.kind != crate::tree::TokKind::LCurly
            &&& tok.kind != crate::tree::TokKind::RCurly
            &&& tok.kind != crate::tree::TokKind::Semicolon
            &&& !has_char(tok.text, '\n')
        }
}

/// The printer's half of the round-trip property for flat constructs: on a
/// stream with no braces, terminators or line breaks of its own, the
/// printed output holds no line break, so any token stream that covers the
/// printed text is itself free of line breaks, and by
/// `lemma_single_line_no_early_verdict` the formatting checker gives it no
/// early verdict.  The nested cases are out of reach: the printer indents
/// two spaces per level where the checker demands four, and the
/// unconditional fallback flags every construct at end of stream anyway.
pub proof fn lemma_flat_stream_prints_flat(toks: Seq<TokenV>, j: int)
    requires
        flat_stream(toks),
        0 <= j <= toks.len(),
    ensures
        count_char(crate::pretty::pp_state(toks, j).out, '\n') == 0,
    decreases j,
{
    reveal_strlit(" ");
    reveal_strlit(" -> ");
    reveal_strlit(" = ");
    reveal_strlit(" => ");
    reveal_with_fuel(count_char, 6);
    if j > 0 {
        lemma_flat_stream_prints_flat(toks, j - 1);
        let st = crate::pretty::pp_state(toks, j - 1);
        let tok = toks[j - 1];
        let st2 = crate::pretty::pp_state(toks, j);
        assert(count_char(" "@, '\n') == 0);
        assert(count_char(" -> "@, '\n') == 0);
        assert(count_char(" = "@, '\n') == 0);
        assert(count_char(" => "@, '\n') == 0);
        if st2.out == st.out + tok.text + " "@ {
            lemma_count_char_add(st.out, tok.text, '\n');
            lemma_count_char_add(st.out + tok.text, " "@, '\n');
        } else if st2.out == st.out + tok.text {
            lemma_count_char_add(st.out, tok.text, '\n');
        } else if st2.out == st.out + " -> "@ {
            lemma_count_char_add(st.out, " -> "@, '\n');
        } else if st2.out == st.out + " = "@ {
            lemma_count_char_add(st.out, " = "@, '\n');
        } else {
            assert(st2.out == st.out + " => "@);
            lemma_count_char_add(st.out, " => "@, '\n');
        }
    }
}

/// The pretty-printer is deterministic: its output is a function of the
/// token stream alone, so two runs on the same stream give byte-identical
/// text.  This is immediate from `insert_whitespaces` returning exactly
/// `pretty_print` of its input.
pub proof fn lemma_pretty_deterministic(a: Seq<TokenV>, b: Seq<TokenV>)
    requires
        a == b,
    ensures
        pretty_print(a) == pretty_print(b),
{
}

/// A spanned diagnostic's range lies within the bounds of the tree it was
/// produced from: in a tree whose recorded spans nest, every diagnostic
/// the formatting check emits carries an ordered span inside the root's.
pub proof fn lemma_spanned_within_tree(t: &Tree, d: Diagnostic, i: int, path: Seq<char>)
    requires
        t.wf(),
        t.spans_nested(),
        0 <= i < t.len(),
        spanned_for(d, t, i, path),
    ensures
        (d matches Diagnostic::Spanned(e) && e.span.start <= e.span.end && e.span.end <= t.node(
            0,
        ).end),
{
    assert(t.span_ok(i));
}

/// In a tree whose spans are exact, a spanned diagnostic's range measures
/// its excerpt: the span is as long as the text it points at, so the
/// location a reader is sent to covers exactly the printed source.
pub proof fn lemma_span_matches_excerpt(t: &Tree, d: Diagnostic, i: int, path: Seq<char>)
    requires
        t.wf(),
        t.spans_exact(),
        0 <= i < t.len(),
        spanned_for(d, t, i, path),
    ensures
        (d matches Diagnostic::Spanned(e) && e.span.start + e.excerpt@.len() == e.span.end),
{
    crate::tree::lemma_span_measures_text(t, i);
}

/// A spanned diagnostic can always be resolved against the text it
/// carries: in a tree with nested, exact spans, the span's start and end
/// are true char offsets into the stored root text.
pub proof fn lemma_span_within_root_text(t: &Tree, d: Diagnostic, i: int, path: Seq<char>)
    requires
        t.wf(),
        t.spans_nested(),
        t.spans_exact(),
        0 <= i < t.len(),
        spanned_for(d, t, i, path),
    ensures
        (d matches Diagnostic::Spanned(e) && e.span.end <= e.root_text@.len()),
{
    crate::tree::lemma_span_measures_text(t, 0);
    assert(t.span_ok(i));
}

/// End-to-end location fidelity: for the tree of a text's own parse
/// events, every spanned diagnostic of a pass stores the file's own text
/// as the root text it resolves rows and columns against.
pub proof fn lemma_root_text_is_the_file(
    t: &Tree,
    ev: Seq<crate::parse::RawEventV>,
    text: Seq<char>,
    d: Diagnostic,
    i: int,
    path: Seq<char>,
)
    requires
        t.wf(),
        crate::parse::tree_models(t, ev),
        crate::parse::events_text(ev, ev.len() as int) == text,
        0 <= i < t.len(),
        spanned_for(d, t, i, path),
    ensures
        (d matches Diagnostic::Spanned(e) && e.root_text@ == text),
{
    crate::parse::lemma_tree_text_is_events_text(t, ev);
}

/// The module-file diagnostic is determined by the path alone: any two
/// diagnostics that a pass adds for the same offending path carry the same
/// message, file and suggestion, whatever the two files held.
pub proof fn lemma_mod_rs_content_independent(d1: Diagnostic, d2: Diagnostic, path: Seq<char>)
    requires
        simple_ban_for(d1, path),
        simple_ban_for(d2, path),
    ensures
        (d1 matches Diagnostic::Simple(e1) && d2 matches Diagnostic::Simple(e2) && e1.msg@
            == e2.msg@ && e1.file@ == e2.file@ && e1.sugg@ == e2.sugg@),
{
}

/// A module file whose path holds the reserved filename always earns
/// exactly one simple diagnostic naming that path, whatever the tree holds:
/// the pass adds the one simple diagnostic first, and everything after it
/// is a spanned diagnostic of the formatting check.
pub proof fn lemma_mod_rs_one_simple(
    t: &Tree,
    path: Seq<char>,
    before: Seq<Diagnostic>,
    after: Seq<Diagnostic>,
)
    requires
        t.wf(),
        contains_seq(path, ban_mod_needle()),
        validate_adds(t, path, before, after),
    ensures
        after.len() > before.len(),
        simple_ban_for(after[before.len() as int], path),
        forall|k: int|
            before.len() < k < after.len() ==> (#[trigger] after[k]) matches Diagnostic::Spanned(
                _,
            ),
{
    let fl = flagged_upto(t, t.len());
    assert forall|k: int|
        before.len() < k < after.len() implies (#[trigger] after[k]) matches Diagnostic::Spanned(
        _,
    ) by {
        let x = k - before.len() - 1;
        assert(0 <= x < fl.len());
        let ban: int = if contains_seq(path, ban_mod_needle()) {
            1
        } else {
            0
        };
        assert(crate::rules::spanned_block(t, path, after, before.len() + ban, fl));
        assert(spanned_for(after[(before.len() + ban) + x], t, fl[x] as int, path));
        assert(before.len() + ban + x == k);
    }
}

} // verus!
