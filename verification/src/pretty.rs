//! The token pretty-printer: turns a bare token stream (for instance one
//! coming out of a macro expansion, which carries no original whitespace)
//! into readable, deterministically indented text.
//!
//! The output is a pure function of the token stream: the whole scan is
//! specified by [`pp_state`] and the printer is proved to return exactly its
//! output, so two runs on one stream are byte-identical.  Re-running the
//! printer on a tokenization of its own output is not a fixed point,
//! though, and cannot be under these rules: whitespace tokens are
//! re-emitted verbatim while terminators and braces insert fresh
//! newlines and indentation, so a second run doubles them.  Like the
//! formatting checker's end-of-stream fallback, this is kept as the rules
//! state it rather than silently decided.

use vstd::prelude::*;

use crate::tree::{toks_view, TokKind, Token, TokenV};

verus! {

/// Whether a token kind is punctuation.
pub open spec fn is_punct_kind(k: TokKind) -> bool {
    match k {
        TokKind::LCurly => true,
        TokKind::RCurly => true,
        TokKind::LParen => true,
        TokKind::RParen => true,
        TokKind::Semicolon => true,
        TokKind::Arrow => true,
        TokKind::Eq => true,
        TokKind::FatArrow => true,
        TokKind::Punct => true,
        _ => false,
    }
}

/// Whether a token kind carries word-like text: a keyword, a literal or an
/// identifier.
pub open spec fn is_text_kind(k: TokKind) -> bool {
    k == TokKind::Keyword || k == TokKind::Literal || k == TokKind::Ident
}

/// Whether a token kind is punctuation.
pub fn is_punct(k: TokKind) -> (r: bool)
    ensures
        r == is_punct_kind(k),
{
    match k {
        TokKind::LCurly => true,
        TokKind::RCurly => true,
        TokKind::LParen => true,
        TokKind::RParen => true,
        TokKind::Semicolon => true,
        TokKind::Arrow => true,
        TokKind::Eq => true,
        TokKind::FatArrow => true,
        TokKind::Punct => true,
        _ => false,
    }
}

/// Whether a token kind carries word-like text.
pub fn is_text(k: TokKind) -> (r: bool)
    ensures
        r == is_text_kind(k),
{
    match k {
        TokKind::Keyword => true,
        TokKind::Literal => true,
        TokKind::Ident => true,
        _ => false,
    }
}

/// `n` levels of printer indentation, two spaces per level.
pub open spec fn indent_spaces(n: nat) -> Seq<char>
    decreases n,
{
    if n == 0 {
        Seq::empty()
    } else {
        indent_spaces((n - 1) as nat) + "  "@
    }
}

/// The printer's scan state: the output so far, the indent level, and the
/// kind of the last token printed.
pub struct PpState {
    pub out: Seq<char>,
    pub indent: nat,
    pub last: Option<TokKind>,
}

/// One step of the printer on token `tok`, where `next` is the kind of the
/// following token, if any.
pub open spec fn pp_step(st: PpState, tok: TokenV, next: Option<TokKind>) -> PpState {
    let next_not_punct_df_true = match next {
        Option::None => true,
        Option::Some(k) => !is_punct_kind(k),
    };
    let next_not_punct_df_false = match next {
        Option::None => false,
        Option::Some(k) => !is_punct_kind(k),
    };
    let next_not_rcurly = match next {
        Option::None => true,
        Option::Some(k) => k != TokKind::RCurly,
    };
    let next_is_ident = match next {
        Option::None => true,
        Option::Some(k) => k == TokKind::Ident,
    };
    let last_is_text = match st.last {
        Option::None => false,
        Option::Some(k) => is_text_kind(k),
    };
    let last_not_lcurly = match st.last {
        Option::None => true,
        Option::Some(k) => k != TokKind::LCurly,
    };
    if is_text_kind(tok.kind) && next_not_punct_df_true {
        PpState { out: st.out + tok.text + " "@, indent: st.indent, last: Some(tok.kind) }
    } else if tok.kind == TokKind::LCurly && next_not_rcurly {
        let indent = st.indent + 1;
        let lead = if last_is_text {
            " "@
        } else {
            Seq::empty()
        };
        PpState {
            out: st.out + lead + "{\n"@ + indent_spaces(indent),
            indent,
            last: Some(tok.kind),
        }
    } else if tok.kind == TokKind::RCurly && last_not_lcurly {
        let indent = if st.indent == 0 {
            0nat
        } else {
            (st.indent - 1) as nat
        };
        let out = st.out + "\n"@ + indent_spaces(indent) + "}"@;
        if next_not_punct_df_false {
            let indent2 = if indent == 0 {
                0nat
            } else {
                (indent - 1) as nat
            };
            PpState { out: out + "\n"@, indent: indent2, last: Some(tok.kind) }
        } else {
            PpState { out, indent, last: Some(tok.kind) }
        }
    } else if tok.kind == TokKind::RCurly {
        PpState {
            out: st.out + "}\n"@ + indent_spaces(st.indent),
            indent: st.indent,
            last: Some(tok.kind),
        }
    } else if tok.kind == TokKind::Lifetime && next_is_ident {
        PpState { out: st.out + tok.text + " "@, indent: st.indent, last: Some(tok.kind) }
    } else if tok.kind == TokKind::Semicolon {
        PpState {
            out: st.out + ";\n"@ + indent_spaces(st.indent),
            indent: st.indent,
            last: Some(tok.kind),
        }
    } else if tok.kind == TokKind::Arrow {
        PpState { out: st.out + " -> "@, indent: st.indent, last: Some(tok.kind) }
    } else if tok.kind == TokKind::Eq {
        PpState { out: st.out + " = "@, indent: st.indent, last: Some(tok.kind) }
    } else if tok.kind == TokKind::FatArrow {
        PpState { out: st.out + " => "@, indent: st.indent, last: Some(tok.kind) }
    } else {
        PpState { out: st.out + tok.text, indent: st.indent, last: Some(tok.kind) }
    }
}

/// The printer's state after the first `j` tokens of `toks`.
pub open spec fn pp_state(toks: Seq<TokenV>, j: int) -> PpState
    decreases j,
{
    if j <= 0 {
        PpState { out: Seq::empty(), indent: 0, last: None }
    } else {
        let next = if j < toks.len() {
            Some(toks[j].kind)
        } else {
            None
        };
        pp_step(pp_state(toks, j - 1), toks[j - 1], next)
    }
}

/// The full output of the printer on `toks`.
pub open spec fn pretty_print(toks: Seq<TokenV>) -> Seq<char> {
    pp_state(toks, toks.len() as int).out
}

/// Appends `n` levels of indentation, two spaces per level.
fn push_indent(buffer: &mut String, n: usize)
    ensures
        final(buffer)@ == old(buffer)@ + indent_spaces(n as nat),
    decreases n,
{
    let mut k: usize = 0;
    while k < n
        invariant
            k <= n,
            buffer@ == old(buffer)@ + indent_spaces(k as nat),
        decreases n - k,
    {
        buffer.append("  ");
        k = k + 1;
    }
}

/// Pretty-prints a token stream, inserting the whitespace the stream does
/// not carry.
///
/// The result is exactly the output of the specified scan, so two runs on
/// the same stream return byte-identical text.
pub fn insert_whitespaces(toks: &Vec<Token>) -> (r: String)
    ensures
        r@ == pretty_print(toks_view(toks@)),
{
    let ghost tv = toks_view(toks@);
    let n = toks.len();
    let mut buffer = String::new();
    let mut indent: usize = 0;
    let mut last: Option<TokKind> = None;
    let mut j: usize = 0;
    while j < n
        invariant
            n == toks@.len(),
            tv == toks_view(toks@),
            tv.len() == n,
            j <= n,
            buffer@ == pp_state(tv, j as int).out,
            indent as nat == pp_state(tv, j as int).indent,
            last == pp_state(tv, j as int).last,
            indent <= j,
        decreases n - j,
    {
        let tok = &toks[j];
        let next: Option<TokKind> = if j + 1 < n {
            Some(toks[j + 1].kind)
        } else {
            None
        };
        proof {
            assert(tv[j as int] == toks@[j as int]@);
            assert(j + 1 < n ==> tv[j as int + 1] == toks@[j as int + 1]@);
        }
        let next_not_punct_df_true = match next {
            Option::None => true,
            Option::Some(k) => !is_punct(k),
        };
        let next_not_punct_df_false = match next {
            Option::None => false,
            Option::Some(k) => !is_punct(k),
        };
        let next_not_rcurly = match next {
            Option::None => true,
            Option::Some(k) => !matches!(k, TokKind::RCurly),
        };
        let next_is_ident = match next {
            Option::None => true,
            Option::Some(k) => matches!(k, TokKind::Ident),
        };
        let last_is_text = match last {
            Option::None => false,
            Option::Some(k) => is_text(k),
        };
        let last_not_lcurly = match last {
            Option::None => true,
            Option::Some(k) => !matches!(k, TokKind::LCurly),
        };
        if is_text(tok.kind) && next_not_punct_df_true {
            buffer.append(tok.text.as_str());
            buffer.append(" ");
        } else if matches!(tok.kind, TokKind::LCurly) && next_not_rcurly {
            indent = indent + 1;
            if last_is_text {
                buffer.append(" ");
            }
            buffer.append("{\n");
            push_indent(&mut buffer, indent);
        } else if matches!(tok.kind, TokKind::RCurly) && last_not_lcurly {
            if indent > 0 {
                indent = indent - 1;
            }
            buffer.append("\n");
            push_indent(&mut buffer, indent);
            buffer.append("}");
            if next_not_punct_df_false {
                if indent > 0 {
                    indent = indent - 1;
                }
                buffer.append("\n");
            }
        } else if matches!(tok.kind, TokKind::RCurly) {
            buffer.append("}\n");
            push_indent(&mut buffer, indent);
        } else if matches!(tok.kind, TokKind::Lifetime) && next_is_ident {
            buffer.append(tok.text.as_str());
            buffer.append(" ");
        } else if matches!(tok.kind, TokKind::Semicolon) {
            buffer.append(";\n");
            push_indent(&mut buffer, indent);
        } else if matches!(tok.kind, TokKind::Arrow) {
            buffer.append(" -> ");
        } else if matches!(tok.kind, TokKind::Eq) {
            buffer.append(" = ");
        } else if matches!(tok.kind, TokKind::FatArrow) {
            buffer.append(" => ");
        } else {
            buffer.append(tok.text.as_str());
        }
        last = Some(tok.kind);
        j = j + 1;
        proof {
            assert(buffer@ =~= pp_state(tv, j as int).out);
        }
    }
    buffer
}

} // verus!
