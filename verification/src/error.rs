//! The diagnostic model: simple and spanned diagnostics, the emitter that
//! accumulates them, and row/column resolution for spanned ones.
//!
//! A spanned diagnostic copies the text it needs out of the tree when it is
//! added, so it stays meaningful after the tree is discarded.  Offsets are
//! char offsets; rows and columns are 0-indexed.

use vstd::prelude::*;

use crate::strutil::{dec_digits, usize_to_string};
use crate::tree::{text_of, Kind, Tree};

verus! {

/// A half-open char-offset range `[start, end)` into a file's text.
#[derive(Clone, Copy, Debug, PartialEq, Eq, Structural)]
pub struct Span {
    pub start: usize,
    pub end: usize,
}

/// A diagnostic without a location: message, file, suggestion.
#[derive(Clone, Debug)]
pub struct SimpleError {
    pub msg: String,
    pub file: String,
    pub sugg: String,
}

/// A diagnostic anchored to a span, carrying copies of the root text (for
/// row/column resolution) and of the offending subtree's text (the excerpt).
#[derive(Clone, Debug)]
pub struct SpannedError {
    pub msg: String,
    pub suggestion: String,
    pub root_text: String,
    pub excerpt: String,
    pub span: Span,
    pub file: String,
}

/// A diagnostic of either shape.
#[derive(Clone, Debug)]
pub enum Diagnostic {
    Spanned(SpannedError),
    Simple(SimpleError),
}

/// Accumulates diagnostics across one or more validation passes.
#[derive(Clone, Debug)]
pub struct Emitter {
    diag: Vec<Diagnostic>,
}

impl View for Emitter {
    type V = Seq<Diagnostic>;

    closed spec fn view(&self) -> Seq<Diagnostic> {
        self.diag@
    }
}

impl Default for Emitter {
    /// An emitter holding no diagnostics.
    fn default() -> (r: Emitter)
        ensures
            r@ =~= Seq::<Diagnostic>::empty(),
    {
        Emitter { diag: Vec::new() }
    }
}

// ---------------------------------------------------------------------------
// Row/column resolution
// ---------------------------------------------------------------------------

/// Row and column after reading `s`: each newline steps the row and resets
/// the column, every other char steps the column.  0-indexed.
pub open spec fn row_col(s: Seq<char>) -> (int, int)
    decreases s.len(),
{
    if s.len() == 0 {
        (0int, 0int)
    } else {
        let rc = row_col(s.drop_last());
        if s.last() == '\n' {
            (rc.0 + 1, 0int)
        } else {
            (rc.0, rc.1 + 1)
        }
    }
}

/// The prefix of `text` before char offset `upto`, clamped to the text.
pub open spec fn clamped_prefix(text: Seq<char>, upto: int) -> Seq<char> {
    if upto <= text.len() {
        text.take(upto)
    } else {
        text
    }
}

/// Row and column of char offset `upto` in `text`, 0-indexed.
pub fn resolve_row_col(text: &str, upto: usize) -> (rc: (usize, usize))
    ensures
        (rc.0 as int, rc.1 as int) == row_col(clamped_prefix(text@, upto as int)),
{
    let n = text.unicode_len();
    let stop = if upto < n {
        upto
    } else {
        n
    };
    let mut row: usize = 0;
    let mut col: usize = 0;
    let mut i: usize = 0;
    while i < stop
        invariant
            n == text@.len(),
            stop <= n,
            i <= stop,
            row <= i,
            col <= i,
            (row as int, col as int) == row_col(text@.take(i as int)),
        decreases stop - i,
    {
        proof {
            assert(text@.take(i as int + 1).drop_last() =~= text@.take(i as int));
            assert(text@.take(i as int + 1).last() == text@[i as int]);
        }
        if text.get_char(i) == '\n' {
            row = row + 1;
            col = 0;
        } else {
            col = col + 1;
        }
        i = i + 1;
    }
    proof {
        assert(text@.take(stop as int) =~= clamped_prefix(text@, upto as int));
    }
    (row, col)
}

// ---------------------------------------------------------------------------
// Rendering
// ---------------------------------------------------------------------------

/// The rendering of a spanned diagnostic: message, `--> file:row:col`, and
/// the source excerpt, each on its own line.
pub open spec fn render_spanned(e: &SpannedError) -> Seq<char> {
    let rc = row_col(clamped_prefix(e.root_text@, e.span.start as int));
    e.msg@ + "\n"@ + "--> "@ + e.file@ + ":"@ + dec_digits(rc.0 as nat) + ":"@ + dec_digits(
        rc.1 as nat,
    ) + "\n"@ + e.excerpt@ + "\n"@
}

/// The rendering of a simple diagnostic: message, `--> file`, suggestion.
pub open spec fn render_simple(e: &SimpleError) -> Seq<char> {
    "error: "@ + e.msg@ + "\n"@ + "--> "@ + e.file@ + "\n"@ + e.sugg@ + "\n"@
}

/// The rendering of one diagnostic.
pub open spec fn render_one(d: &Diagnostic) -> Seq<char> {
    match d {
        Diagnostic::Spanned(e) => render_spanned(e),
        Diagnostic::Simple(e) => render_simple(e),
    }
}

/// The rendering of the first `k` of a sequence of diagnostics.
pub open spec fn render_upto(ds: Seq<Diagnostic>, k: int) -> Seq<char>
    decreases k,
{
    if k <= 0 {
        Seq::empty()
    } else {
        render_upto(ds, k - 1) + render_one(&ds[k - 1])
    }
}

/// The rendering of a whole sequence of diagnostics, in accumulation order.
pub open spec fn render_all(ds: Seq<Diagnostic>) -> Seq<char> {
    render_upto(ds, ds.len() as int)
}

impl SpannedError {
    /// Renders this diagnostic, resolving its span to row and column against
    /// the stored root text.
    pub fn emit_error(&self) -> (r: String)
        ensures
            r@ == render_spanned(self),
    {
        let rc = resolve_row_col(self.root_text.as_str(), self.span.start);
        let mut buffer = String::new();
        buffer.append(self.msg.as_str());
        buffer.append("\n");
        buffer.append("--> ");
        buffer.append(self.file.as_str());
        buffer.append(":");
        let row = usize_to_string(rc.0);
        buffer.append(row.as_str());
        buffer.append(":");
        let col = usize_to_string(rc.1);
        buffer.append(col.as_str());
        buffer.append("\n");
        buffer.append(self.excerpt.as_str());
        buffer.append("\n");
        buffer
    }
}

// ---------------------------------------------------------------------------
// The emitter
// ---------------------------------------------------------------------------

impl Emitter {
    /// Whether any diagnostic has been accumulated.
    pub fn found_errors(&self) -> (r: bool)
        ensures
            r == (self@.len() != 0),
    {
        self.diag.len() != 0
    }

    /// Adds a spanned diagnostic.  The root text and the excerpt are copied
    /// out of `t` now, so the diagnostic outlives the tree.
    pub fn sugg_with_span(&mut self, msg: &str, sugg: &str, span: Span, t: &Tree, node: usize, file: &str)
        requires
            t.wf(),
            node < t.len(),
        ensures
            final(self)@.drop_last() == old(self)@,
            final(self)@.len() == old(self)@.len() + 1,
            (final(self)@.last() matches Diagnostic::Spanned(e) && e.msg@ == msg@
                && e.suggestion@ == sugg@ && e.span == span && e.file@ == file@ && e.root_text@
                == text_of(t, 0) && e.excerpt@ == text_of(t, node as int)),
    {
        let root = root_node(t, node);
        let root_text = t.node_text(root);
        let excerpt = t.node_text(node);
        self.diag.push(
            Diagnostic::Spanned(
                SpannedError {
                    msg: msg.to_owned(),
                    suggestion: sugg.to_owned(),
                    root_text,
                    excerpt,
                    span,
                    file: file.to_owned(),
                },
            ),
        );
        proof {
            assert(final(self)@.drop_last() =~= old(self)@);
        }
    }

    /// Adds a simple diagnostic.
    pub fn simple_sugg(&mut self, msg: &str, sugg: &str, file: &str)
        ensures
            final(self)@.drop_last() == old(self)@,
            final(self)@.len() == old(self)@.len() + 1,
            (final(self)@.last() matches Diagnostic::Simple(e) && e.msg@ == msg@ && e.file@
                == file@ && e.sugg@ == sugg@),
    {
        self.diag.push(
            Diagnostic::Simple(
                SimpleError { msg: msg.to_owned(), file: file.to_owned(), sugg: sugg.to_owned() },
            ),
        );
        proof {
            assert(final(self)@.drop_last() =~= old(self)@);
        }
    }

    /// Renders every accumulated diagnostic, in accumulation order, and
    /// consumes the accumulator.
    pub fn emit(self) -> (r: String)
        ensures
            r@ == render_all(self@),
    {
        let mut buffer = String::new();
        let n = self.diag.len();
        let mut k: usize = 0;
        while k < n
            invariant
                n == self.diag@.len(),
                k <= n,
                buffer@ == render_upto(self.diag@, k as int),
            decreases n - k,
        {
            match &self.diag[k] {
                Diagnostic::Spanned(spanned) => {
                    let piece = spanned.emit_error();
                    buffer.append(piece.as_str());
                },
                Diagnostic::Simple(simple) => {
                    buffer.append("error: ");
                    buffer.append(simple.msg.as_str());
                    buffer.append("\n");
                    buffer.append("--> ");
                    buffer.append(simple.file.as_str());
                    buffer.append("\n");
                    buffer.append(simple.sugg.as_str());
                    buffer.append("\n");
                },
            }
            k = k + 1;
        }
        buffer
    }
}

/// The nearest enclosing source-file node: walks parent links from `i`
/// until a node of the source-file category is reached.  In a well-formed
/// tree the walk always ends, at the root at the latest.
pub fn root_node(t: &Tree, i: usize) -> (r: usize)
    requires
        t.wf(),
        i < t.len(),
    ensures
        r == 0,
        t.node(r as int).kind == Kind::SourceFile,
{
    let mut cur = i;
    loop
        invariant
            t.wf(),
            cur < t.len(),
        ensures
            cur == 0,
            t.node(cur as int).kind == Kind::SourceFile,
        decreases cur,
    {
        if let Kind::SourceFile = t.nodes[cur].kind {
            break ;
        }
        match t.nodes[cur].parent {
            Some(p) => {
                cur = p;
            },
            None => {
                proof {
                    assert(cur == 0);
                    assert(false);
                }
            },
        }
    }
    cur
}

} // verus!
