//! Structured diagnostics: command-line errors, syntax errors from the
//! front end, compiler errors reserved for later stages, and the source
//! context a diagnostic points at.
//!
//! Errors are built fluently: `SyntaxError::default().kind(..).msg(..).ctx(..)`.

use vstd::prelude::*;

use crate::source::{PointV, SourceFile, SourcePoint, SourceSpan, SpanV};
use vstd::string::*;

verus! {

/// ANSI escape for bright red.
pub const RED: &'static str = "\x1b[91m";

/// ANSI escape for bright green.
pub const GREEN: &'static str = "\x1b[92m";

/// ANSI escape for bright cyan.
pub const CYAN: &'static str = "\x1b[96m";

/// ANSI escape for bright white.
pub const WHITE: &'static str = "\x1b[97m";

/// ANSI escape for gray.
pub const GRAY: &'static str = "\x1b[90m";

/// ANSI escape for bold.
pub const BOLD: &'static str = "\x1b[1m";

/// ANSI escape for underline.
pub const UNDERLINE: &'static str = "\x1b[4m";

/// ANSI escape that resets all styling.
pub const RESET: &'static str = "\x1b[0m";

/// What a syntax diagnostic is about.
#[derive(Debug, Clone, Copy, PartialEq, Eq, Structural)]
pub enum SyntaxErrorSource {
    Character,
    Token,
    Expression,
}

/// The shapes of syntax diagnostic.
#[derive(Debug, Clone, Copy, PartialEq, Eq, Structural)]
pub enum SyntaxErrorKind {
    Expected(SyntaxErrorSource),
    Unexpected(SyntaxErrorSource),
    Invalid(SyntaxErrorSource),
}

/// Where a diagnostic points: a single position or a span.
#[derive(Clone, Copy)]
pub enum ErrorContextKind {
    Point(SourcePoint),
    Span(SourceSpan),
}

/// Model of a context's position.
pub enum CtxV {
    Point(PointV),
    Span(SpanV),
}

impl View for ErrorContextKind {
    type V = CtxV;

    open spec fn view(&self) -> CtxV {
        match self {
            ErrorContextKind::Point(p) => CtxV::Point(p@),
            ErrorContextKind::Span(s) => CtxV::Span(s@),
        }
    }
}

/// A diagnostic's anchor in a source file.
pub struct ErrorContext {
    pub kind: ErrorContextKind,
    pub src: SourceFile,
}

impl ErrorContext {
    /// A context from its parts.
    pub fn new(kind: ErrorContextKind, src: SourceFile) -> (c: ErrorContext)
        ensures
            c.kind@ == kind@,
            c.src == src,
    {
        ErrorContext { kind, src }
    }

    /// A context anchored at a single position.
    pub fn point(ln: usize, col: usize, src: SourceFile) -> (c: ErrorContext)
        ensures
            c.kind@ == CtxV::Point(PointV { ln: ln as nat, col: col as nat }),
            c.src == src,
    {
        ErrorContext { kind: ErrorContextKind::Point(SourcePoint { ln, col }), src }
    }

    /// A context anchored at a span.
    pub fn span(start: SourcePoint, end: SourcePoint, src: SourceFile) -> (c: ErrorContext)
        ensures
            c.kind@ == CtxV::Span(SpanV { start: start@, end: end@ }),
            c.src == src,
    {
        ErrorContext { kind: ErrorContextKind::Span(SourceSpan { start, end }), src }
    }
}

/// A context with the parts of its source file that rendering reads: the
/// path and the line table.
pub struct CtxFullV {
    pub kind: CtxV,
    pub path: Seq<char>,
    pub lines: Seq<Seq<char>>,
}

/// A grapheme cluster made of white space only.
pub open spec fn ws_grapheme(g: Seq<char>) -> bool {
    forall|i: int| 0 <= i < g.len() ==> crate::strutil::is_whitespace_char(g[i])
}

/// The first position in `[a, end)` holding a non-white-space cluster.
pub open spec fn skip_ws_fwd(g: Seq<Seq<char>>, a: int, end: int) -> int
    decreases end - a,
{
    if a < end && ws_grapheme(g[a]) {
        skip_ws_fwd(g, a + 1, end)
    } else {
        a
    }
}

/// The position after the last non-white-space cluster in `[a, b)`.
pub open spec fn skip_ws_back(g: Seq<Seq<char>>, a: int, b: int) -> int
    decreases b - a,
{
    if b > a && ws_grapheme(g[b - 1]) {
        skip_ws_back(g, a, b - 1)
    } else {
        b
    }
}

/// The clusters `[a, b)` joined back into text.
pub open spec fn join_graphemes(g: Seq<Seq<char>>, a: int, b: int) -> Seq<char>
    decreases b - a,
{
    if a >= b {
        Seq::empty()
    } else {
        g[a] + join_graphemes(g, a + 1, b)
    }
}

/// The clusters `[i, hi)` joined, with the underline markers opened before
/// relative position `h_start` and closed before relative position `h_end`
/// (a negative position never fires).
pub open spec fn join_marked(
    g: Seq<Seq<char>>,
    i: int,
    hi: int,
    lo: int,
    h_start: int,
    h_end: int,
) -> Seq<char>
    decreases hi - i,
{
    if i >= hi {
        Seq::empty()
    } else {
        (if i - lo == h_start {
            UNDERLINE@ + WHITE@
        } else {
            Seq::empty()
        }) + (if i - lo == h_end {
            RESET@ + GRAY@
        } else {
            Seq::empty()
        }) + g[i] + join_marked(g, i + 1, hi, lo, h_start, h_end)
    }
}

/// The whole lines strictly between the span's first and last line, each
/// preceded by a line break.
pub open spec fn join_mid_lines(lines: Seq<Seq<char>>, ln: int, end_ln: int) -> Seq<char>
    decreases end_ln - ln,
{
    if ln >= end_ln {
        Seq::empty()
    } else {
        "\n"@ + lines[ln - 1] + join_mid_lines(lines, ln + 1, end_ln)
    }
}

/// The `path:(ln, col)` prefix of a rendered snippet.
pub open spec fn spec_loc(path: Seq<char>, ln: nat, col: nat) -> Seq<char> {
    BOLD@ + path + ":("@ + crate::strutil::dec_str_of(ln) + ", "@ + crate::strutil::dec_str_of(
        col,
    ) + ")"@ + RESET@
}

/// The rendered snippet for a point: the anchored line windowed `extends`
/// clusters to each side, trimmed of surrounding white space, with
/// ellipses on clipped edges and a `HERE ^` caret aligned underneath.
pub open spec fn spec_point_body(
    path: Seq<char>,
    line: Seq<char>,
    ln: nat,
    col: nat,
    extends: nat,
) -> Seq<char> {
    let g = crate::strutil::graphemes_of(line);
    let glen = g.len() as int;
    let start_idx: int = col - (if extends < col {
        extends as int
    } else {
        col as int
    });
    let end_idx: int = if glen - col < extends {
        glen
    } else {
        col + extends as int
    };
    let a = skip_ws_fwd(g, start_idx, end_idx);
    let b = skip_ws_back(g, a, end_idx);
    let trim_front = a - start_idx;
    let text0 = join_graphemes(g, a, b);
    let pc0: int = col - start_idx;
    let pc1: int = if trim_front < pc0 {
        pc0 - trim_front
    } else {
        0
    };
    let text1 = if start_idx > 0 {
        GRAY@ + "..."@ + RESET@ + " "@ + text0
    } else {
        text0
    };
    let pc2: int = if start_idx > 0 {
        if pc1 <= usize::MAX - 4 {
            pc1 + 4
        } else {
            pc1
        }
    } else {
        pc1
    };
    let text2 = if end_idx < glen {
        text1 + " "@ + GRAY@ + "..."@ + RESET@
    } else {
        text1
    };
    let loc = spec_loc(path, ln, col);
    let lc = crate::strutil::graphemes_of(loc).len() as int;
    let wsum: int = if lc <= usize::MAX - pc2 {
        lc + pc2
    } else {
        lc
    };
    let w: int = if wsum >= 5 {
        wsum - 5
    } else {
        0
    };
    let caret = if w <= 6 {
        "HERE ^"@
    } else {
        Seq::new((w - 6) as nat, |i: int| ' ') + "HERE ^"@
    };
    loc + ": "@ + text2 + "\n"@ + CYAN@ + BOLD@ + caret + RESET@
}

/// The rendered snippet for a span: the same windowing as the point form
/// — the first line clipped `extends` clusters left of the start, the
/// last line clipped `extends` clusters right of the end, leading and
/// trailing white space trimmed, ellipses on clipped edges — with the
/// `[start, end)` range wrapped in underline markers, and the whole lines
/// between the first and last included.
pub open spec fn spec_span_body(
    path: Seq<char>,
    lines: Seq<Seq<char>>,
    span: SpanV,
    extends: nat,
) -> Seq<char> {
    let gs = crate::strutil::graphemes_of(lines[span.start.ln - 1]);
    let gslen = gs.len() as int;
    let start_idx: int = span.start.col - (if extends < span.start.col {
        extends as int
    } else {
        span.start.col as int
    });
    let pre = GRAY@ + (if start_idx > 0 {
        "... "@
    } else {
        Seq::empty()
    });
    let loc = spec_loc(path, span.start.ln, span.start.col);
    if span.start.ln == span.end.ln {
        let end_idx: int = if gslen - span.end.col < extends {
            gslen
        } else {
            span.end.col + extends as int
        };
        let a = skip_ws_fwd(gs, start_idx, end_idx);
        let b = skip_ws_back(gs, a, end_idx);
        let h_start: int = if span.start.col >= a + 1 {
            span.start.col - a - 1
        } else {
            0
        };
        let h_end: int = if span.end.col >= a + 1 {
            span.end.col - a - 1
        } else {
            0
        };
        let text = pre + join_marked(gs, a, b, a, h_start, h_end) + (if end_idx < gslen {
            " ..."@
        } else {
            Seq::empty()
        }) + RESET@;
        loc + ": "@ + text
    } else {
        let a = skip_ws_fwd(gs, start_idx, gslen);
        let h_start: int = if span.start.col >= a + 1 {
            span.start.col - a - 1
        } else {
            0
        };
        let first = join_marked(gs, a, gslen, a, h_start, -1);
        let mids = join_mid_lines(lines, span.start.ln as int + 1, span.end.ln as int);
        let ge = crate::strutil::graphemes_of(lines[span.end.ln - 1]);
        let gelen = ge.len() as int;
        let end_idx: int = if gelen - span.end.col < extends {
            gelen
        } else {
            span.end.col + extends as int
        };
        let b = skip_ws_back(ge, 0, end_idx);
        let h_end: int = span.end.col - 1;
        let last = join_marked(ge, 0, b, 0, -1, h_end);
        let text = pre + first + mids + "\n"@ + last + (if end_idx < gelen {
            " ..."@
        } else {
            Seq::empty()
        }) + RESET@;
        loc + ": "@ + text
    }
}

/// In-range coordinates: lines are 1-based and in-file, columns lie within/// In-range coordinates: lines are 1-based and in-file, columns lie within
/// their line's grapheme count, and the lines are short enough for the
/// window arithmetic.
pub open spec fn spec_ctx_in_range(kind: CtxV, lines: Seq<Seq<char>>) -> bool {
    match kind {
        CtxV::Point(p) => {
            &&& 1 <= p.ln <= lines.len()
            &&& p.col <= crate::strutil::graphemes_of(lines[p.ln - 1]).len()
            &&& crate::strutil::graphemes_of(lines[p.ln - 1]).len() + 64 <= usize::MAX
        },
        CtxV::Span(s) => {
            &&& 1 <= s.start.ln <= s.end.ln <= lines.len()
            &&& (s.start.ln == s.end.ln ==> s.start.col <= s.end.col)
            &&& 1 <= s.start.col <= crate::strutil::graphemes_of(lines[s.start.ln - 1]).len()
            &&& crate::strutil::graphemes_of(lines[s.start.ln - 1]).len() + 64 <= usize::MAX
            &&& 1 <= s.end.col <= crate::strutil::graphemes_of(lines[s.end.ln - 1]).len()
            &&& crate::strutil::graphemes_of(lines[s.end.ln - 1]).len() + 64 <= usize::MAX
        },
    }
}

/// The rendered snippet of a context, dispatched on its shape.
pub open spec fn spec_ctx_body(kind: CtxV, path: Seq<char>, lines: Seq<Seq<char>>, extends: nat)
    -> Seq<char> {
    match kind {
        CtxV::Point(p) => spec_point_body(path, lines[p.ln - 1], p.ln, p.col, extends),
        CtxV::Span(s) => spec_span_body(path, lines, s, extends),
    }
}

/// The snippet block a diagnostic appends: a line break and the rendered
/// context when one is present and in range, and nothing otherwise.
pub open spec fn sp_snippet_text(cf: Option<CtxFullV>) -> Seq<char> {
    match cf {
        Some(cf) => if spec_ctx_in_range(cf.kind, cf.lines) {
            "\n"@ + spec_ctx_body(cf.kind, cf.path, cf.lines, 20)
        } else {
            Seq::empty()
        },
        None => Seq::empty(),
    }
}

/// The lower-case rendering of a diagnostic source.
pub open spec fn sp_source_text(s: SyntaxErrorSource) -> Seq<char> {
    match s {
        SyntaxErrorSource::Character => "character"@,
        SyntaxErrorSource::Token => "token"@,
        SyntaxErrorSource::Expression => "expression"@,
    }
}

/// The rendering of a syntax-diagnostic kind.
pub open spec fn sp_syntax_kind_text(k: SyntaxErrorKind) -> Seq<char> {
    match k {
        SyntaxErrorKind::Expected(s) => "expected "@ + sp_source_text(s),
        SyntaxErrorKind::Unexpected(s) => "unexpected "@ + sp_source_text(s),
        SyntaxErrorKind::Invalid(s) => "invalid "@ + sp_source_text(s),
    }
}

/// The full wire format of a syntax diagnostic: the styled header, the
/// kind and message when present, then the snippet block.
pub open spec fn sp_syntax_error_text(d: DiagV, cf: Option<CtxFullV>) -> Seq<char> {
    RED@ + BOLD@ + "syntax error"@ + RESET@ + (match d.kind {
        Some(k) => ": "@ + sp_syntax_kind_text(k),
        None => Seq::empty(),
    }) + (match d.msg {
        Some(m) => ": "@ + m,
        None => Seq::empty(),
    }) + sp_snippet_text(cf)
}

/// The rendering of a compiler-diagnostic kind.
pub open spec fn sp_compiler_kind_text(k: CompilerErrorKind) -> Seq<char> {
    match k {
        CompilerErrorKind::Undeclared => "undeclared"@,
        CompilerErrorKind::AlreadyDeclared => "already declared"@,
    }
}

/// The full wire format of a compiler diagnostic.
pub open spec fn sp_compiler_error_text(d: CompilerDiagV, cf: Option<CtxFullV>) -> Seq<char> {
    RED@ + BOLD@ + "compiler error"@ + RESET@ + (match d.kind {
        Some(k) => ": "@ + sp_compiler_kind_text(k),
        None => Seq::empty(),
    }) + (match d.msg {
        Some(m) => ": "@ + m,
        None => Seq::empty(),
    }) + sp_snippet_text(cf)
}

/// The rendering of a command-line-diagnostic kind.
pub open spec fn sp_cli_kind_text(k: CommandLineErrorKind) -> Seq<char> {
    match k {
        CommandLineErrorKind::InvalidArguments => "invalid arguments"@,
        CommandLineErrorKind::FailedToReadFile => "failed to read file"@,
    }
}

/// Joining one more cluster onto a joined range.
pub proof fn lemma_join_snoc(g: Seq<Seq<char>>, a: int, b: int)
    requires
        a <= b,
    ensures
        join_graphemes(g, a, b + 1) == join_graphemes(g, a, b) + g[b],
    decreases b - a,
{
    reveal_with_fuel(join_graphemes, 3);
    if a == b {
        assert(join_graphemes(g, a, b) =~= Seq::<char>::empty());
        assert(join_graphemes(g, b + 1, b + 1) =~= Seq::<char>::empty());
        assert(join_graphemes(g, a, b + 1) == g[b] + join_graphemes(g, b + 1, b + 1));
        assert(g[b] + Seq::<char>::empty() =~= Seq::<char>::empty() + g[b]);
        assert(join_graphemes(g, a, b) + g[b] =~= join_graphemes(g, a, b + 1));
    } else {
        lemma_join_snoc(g, a + 1, b);
        assert(join_graphemes(g, a, b + 1) == g[a] + join_graphemes(g, a + 1, b + 1));
        assert(g[a] + (join_graphemes(g, a + 1, b) + g[b]) =~= (g[a] + join_graphemes(
            g,
            a + 1,
            b,
        )) + g[b]);
    }
}

/// Joining one more cluster, with its markers, onto a marked range.
pub proof fn lemma_join_marked_snoc(
    g: Seq<Seq<char>>,
    a: int,
    b: int,
    lo: int,
    h_start: int,
    h_end: int,
)
    requires
        a <= b,
    ensures
        join_marked(g, a, b + 1, lo, h_start, h_end) == join_marked(g, a, b, lo, h_start, h_end)
            + (if b - lo == h_start {
            UNDERLINE@ + WHITE@
        } else {
            Seq::empty()
        }) + (if b - lo == h_end {
            RESET@ + GRAY@
        } else {
            Seq::empty()
        }) + g[b],
    decreases b - a,
{
    reveal_with_fuel(join_marked, 3);
    let ms = (if b - lo == h_start {
        UNDERLINE@ + WHITE@
    } else {
        Seq::<char>::empty()
    });
    let me = (if b - lo == h_end {
        RESET@ + GRAY@
    } else {
        Seq::<char>::empty()
    });
    if a == b {
        assert(join_marked(g, a, b, lo, h_start, h_end) =~= Seq::<char>::empty());
        assert(join_marked(g, b + 1, b + 1, lo, h_start, h_end) =~= Seq::<char>::empty());
        assert(join_marked(g, b, b + 1, lo, h_start, h_end) == ms + me + g[b] + join_marked(
            g,
            b + 1,
            b + 1,
            lo,
            h_start,
            h_end,
        ));
        assert(ms + me + g[b] + Seq::<char>::empty() =~= ((Seq::<char>::empty() + ms) + me) + g[
            b
        ]);
    } else {
        lemma_join_marked_snoc(g, a + 1, b, lo, h_start, h_end);
        let hs = (if a - lo == h_start {
            UNDERLINE@ + WHITE@
        } else {
            Seq::<char>::empty()
        });
        let he = (if a - lo == h_end {
            RESET@ + GRAY@
        } else {
            Seq::<char>::empty()
        });
        assert(join_marked(g, a, b + 1, lo, h_start, h_end) == hs + he + g[a] + join_marked(
            g,
            a + 1,
            b + 1,
            lo,
            h_start,
            h_end,
        ));
        assert(hs + he + g[a] + (join_marked(g, a + 1, b, lo, h_start, h_end) + ms + me + g[b])
            =~= (hs + he + g[a] + join_marked(g, a + 1, b, lo, h_start, h_end)) + ms + me + g[
            b
        ]);
    }
}

/// Joining one more middle line onto a joined range.
pub proof fn lemma_join_mid_snoc(lines: Seq<Seq<char>>, a: int, b: int)
    requires
        a <= b,
    ensures
        join_mid_lines(lines, a, b + 1) == join_mid_lines(lines, a, b) + "\n"@ + lines[b - 1],
    decreases b - a,
{
    reveal_with_fuel(join_mid_lines, 3);
    if a == b {
        assert(join_mid_lines(lines, a, b) =~= Seq::<char>::empty());
        assert(join_mid_lines(lines, b + 1, b + 1) =~= Seq::<char>::empty());
        assert(join_mid_lines(lines, a, b + 1) == "\n"@ + lines[b - 1] + join_mid_lines(
            lines,
            b + 1,
            b + 1,
        ));
        assert(Seq::<char>::empty() + "\n"@ + lines[b - 1] =~= "\n"@ + lines[b - 1]
            + Seq::<char>::empty());
    } else {
        lemma_join_mid_snoc(lines, a + 1, b);
        assert(join_mid_lines(lines, a, b + 1) == "\n"@ + lines[a - 1] + join_mid_lines(
            lines,
            a + 1,
            b + 1,
        ));
        assert("\n"@ + lines[a - 1] + (join_mid_lines(lines, a + 1, b) + "\n"@ + lines[b - 1])
            =~= ("\n"@ + lines[a - 1] + join_mid_lines(lines, a + 1, b)) + "\n"@ + lines[b
            - 1]);
    }
}

/// Model of a syntax diagnostic: its kind, its message, and where it
/// points. The source file itself is carried alongside and not modeled.
pub struct DiagV {
    pub kind: Option<SyntaxErrorKind>,
    pub msg: Option<Seq<char>>,
    pub ctx: Option<CtxV>,
}

/// A diagnostic pointing at a single position.
pub open spec fn diag_point(kind: SyntaxErrorKind, msg: Option<Seq<char>>, ln: nat, col: nat)
    -> DiagV {
    DiagV { kind: Some(kind), msg, ctx: Some(CtxV::Point(PointV { ln, col })) }
}

/// A diagnostic pointing at a span.
pub open spec fn diag_span(kind: SyntaxErrorKind, msg: Option<Seq<char>>, span: SpanV) -> DiagV {
    DiagV { kind: Some(kind), msg, ctx: Some(CtxV::Span(span)) }
}

/// A syntax error accumulated by the lexer or the parser.
pub struct SyntaxError {
    kind: Option<SyntaxErrorKind>,
    msg: Option<String>,
    ctx: Option<ErrorContext>,
}

impl View for SyntaxError {
    type V = DiagV;

    closed spec fn view(&self) -> DiagV {
        DiagV {
            kind: self.kind,
            msg: match self.msg {
                Some(m) => Some(m@),
                None => None,
            },
            ctx: match self.ctx {
                Some(c) => Some(c.kind@),
                None => None,
            },
        }
    }
}

impl DeepView for SyntaxError {
    type V = DiagV;

    open spec fn deep_view(&self) -> DiagV {
        self@
    }
}

impl Default for SyntaxError {
    /// An empty diagnostic, to be filled by the builder methods.
    fn default() -> (e: SyntaxError)
        ensures
            e@ == (DiagV { kind: None, msg: None, ctx: None }),
    {
        SyntaxError { kind: None, msg: None, ctx: None }
    }
}

impl SyntaxError {
    /// The same diagnostic with its kind set.
    pub fn kind(&self, kind: SyntaxErrorKind) -> (e: SyntaxError)
        ensures
            e@ == (DiagV { kind: Some(kind), ..self@ }),
    {
        SyntaxError { kind: Some(kind), msg: self.clone_msg(), ctx: self.clone_ctx() }
    }

    /// The same diagnostic with its message set.
    pub fn msg(&self, msg: &str) -> (e: SyntaxError)
        ensures
            e@ == (DiagV { msg: Some(msg@), ..self@ }),
    {
        SyntaxError { kind: self.kind, msg: Some(msg.to_owned()), ctx: self.clone_ctx() }
    }

    /// The same diagnostic with its context set.
    pub fn ctx(&self, ctx: ErrorContext) -> (e: SyntaxError)
        ensures
            e@ == (DiagV { ctx: Some(ctx.kind@), ..self@ }),
    {
        SyntaxError { kind: self.kind, msg: self.clone_msg(), ctx: Some(ctx) }
    }

    /// A copy of the message field.
    fn clone_msg(&self) -> (m: Option<String>)
        ensures
            match m {
                Some(s) => self@.msg == Some(s@),
                None => self@.msg is None,
            },
    {
        match &self.msg {
            Some(s) => Some(s.clone()),
            None => None,
        }
    }

    /// A copy of the context field; the carried source file is cloned
    /// alongside.
    fn clone_ctx(&self) -> (c: Option<ErrorContext>)
        ensures
            match c {
                Some(c) => self@.ctx == Some(c.kind@),
                None => self@.ctx is None,
            },
    {
        match &self.ctx {
            Some(c) => Some(
                ErrorContext { kind: c.kind, src: SourceFile::new(c.src.path.clone(), c.src.contents.clone()) },
            ),
            None => None,
        }
    }

    /// The carried context with the source parts its rendering reads.
    pub closed spec fn ctx_full(&self) -> Option<CtxFullV> {
        match self.ctx {
            Some(c) => Some(c.full_view()),
            None => None,
        }
    }
}

/// Text rendered for every kind of diagnostic this crate reports.
pub trait MeowindError {
    /// The full rendered diagnostic, with ANSI styling.
    fn to_string(&self) -> String;
}

/// Whether a grapheme cluster is entirely white space.
fn grapheme_is_ws(g: &String) -> (r: bool)
    ensures
        r == ws_grapheme(g@),
{
    let n = g.as_str().unicode_len();
    let mut i: usize = 0;
    while i < n
        invariant
            n == g@.len(),
            i <= n,
            forall|j: int| 0 <= j < i ==> crate::strutil::is_whitespace_char(g@[j]),
        decreases n - i,
    {
        if !crate::strutil::char_is_whitespace(g.as_str().get_char(i)) {
            return false;
        }
        i += 1;
    }
    true
}

impl ErrorContext {
    /// The parts of the carried source file that rendering reads.
    pub open spec fn full_view(&self) -> CtxFullV {
        CtxFullV {
            kind: self.kind@,
            path: self.src.path@,
            lines: self.src.lines.deep_view(),
        }
    }

    /// The coordinates lie inside the source: lines are 1-based and
    /// in-file, columns lie within their line's grapheme count, and the
    /// lines are short enough for the window arithmetic.
    pub open spec fn in_range(&self) -> bool {
        spec_ctx_in_range(self.kind@, self.src.lines.deep_view())
    }

    /// The `path:(ln, col)` prefix of a rendered snippet.
    fn loc(&self, ln: usize, col: usize) -> (r: String)
        ensures
            r@ == spec_loc(self.src.path@, ln as nat, col as nat),
    {
        let mut s = String::from_str(BOLD);
        s = s.concat(self.src.path.as_str());
        s = s.concat(":(");
        s = s.concat(crate::strutil::usize_to_string(ln).as_str());
        s = s.concat(", ");
        s = s.concat(crate::strutil::usize_to_string(col).as_str());
        s = s.concat(")");
        s = s.concat(RESET);
        s
    }

    /// Renders the context's snippet: the anchored line windowed around
    /// the position, with a caret line for a point or an underlined
    /// sub-range for a span. Requires in-range coordinates; never panics
    /// on them.
    pub fn body(&self, extends: usize) -> (r: String)
        requires
            self.in_range(),
            extends <= 32,
        ensures
            r@ == spec_ctx_body(
                self.kind@,
                self.src.path@,
                self.src.lines.deep_view(),
                extends as nat,
            ),
    {
        let kind = self.kind;
        match kind {
            ErrorContextKind::Point(p) => self.point_body(extends, p),
            ErrorContextKind::Span(s) => self.span_body(extends, s),
        }
    }

    /// Renders the snippet if the coordinates are in range, and nothing
    /// otherwise.
    pub fn render(&self) -> (r: Option<String>)
        ensures
            match r {
                Some(b) => self.in_range() && b@ == spec_ctx_body(
                    self.kind@,
                    self.src.path@,
                    self.src.lines.deep_view(),
                    20,
                ),
                None => !self.in_range(),
            },
    {
        let ok = match self.kind {
            ErrorContextKind::Point(p) => {
                if 1 <= p.ln && p.ln <= self.src.lines.len() {
                    let g = crate::strutil::grapheme_count(self.src.lines[p.ln - 1].as_str());
                    p.col <= g && g <= usize::MAX - 64
                } else {
                    false
                }
            },
            ErrorContextKind::Span(s) => {
                if 1 <= s.start.ln && s.start.ln <= s.end.ln && s.end.ln
                    <= self.src.lines.len() {
                    let gs = crate::strutil::grapheme_count(
                        self.src.lines[s.start.ln - 1].as_str(),
                    );
                    let ge = crate::strutil::grapheme_count(
                        self.src.lines[s.end.ln - 1].as_str(),
                    );
                    (s.start.ln != s.end.ln || s.start.col <= s.end.col) && 1 <= s.start.col
                        && s.start.col <= gs && gs <= usize::MAX - 64 && 1 <= s.end.col
                        && s.end.col <= ge && ge <= usize::MAX - 64
                } else {
                    false
                }
            },
        };
        if ok {
            Some(self.body(20))
        } else {
            None
        }
    }

    /// The windowed line around a point, trimmed of surrounding white
    /// space, with a `HERE ^` caret aligned underneath.
    fn point_body(&self, extends: usize, point: SourcePoint) -> (r: String)
        requires
            self.kind matches ErrorContextKind::Point(p) && p == point,
            self.in_range(),
            extends <= 32,
        ensures
            r@ == spec_point_body(
                self.src.path@,
                self.src.lines.deep_view()[point.ln - 1],
                point.ln as nat,
                point.col as nat,
                extends as nat,
            ),
    {
        let ghost linev = self.src.lines.deep_view()[point.ln - 1];
        let g = crate::strutil::graphemes_vec(self.src.lines[point.ln - 1].as_str());
        let ghost gv = crate::strutil::graphemes_of(linev);
        proof {
            assert(self.src.lines@[point.ln - 1]@ == linev);
            assert(g.deep_view() == gv);
        }
        let glen = g.len();
        let start_idx = point.col - (if extends < point.col {
            extends
        } else {
            point.col
        });
        let end_idx = if glen - point.col < extends {
            glen
        } else {
            point.col + extends
        };
        let mut a = start_idx;
        while a < end_idx && grapheme_is_ws(&g[a])
            invariant
                start_idx <= a <= end_idx <= g@.len(),
                gv == g.deep_view(),
                skip_ws_fwd(gv, start_idx as int, end_idx as int) == skip_ws_fwd(
                    gv,
                    a as int,
                    end_idx as int,
                ),
            decreases end_idx - a,
        {
            proof {
                assert(g@[a as int]@ == gv[a as int]);
            }
            a += 1;
        }
        proof {
            if a < end_idx {
                assert(g@[a as int]@ == gv[a as int]);
            }
            assert(a as int == skip_ws_fwd(gv, start_idx as int, end_idx as int));
        }
        let mut b = end_idx;
        while b > a && grapheme_is_ws(&g[b - 1])
            invariant
                a <= b <= end_idx <= g@.len(),
                gv == g.deep_view(),
                skip_ws_back(gv, a as int, end_idx as int) == skip_ws_back(
                    gv,
                    a as int,
                    b as int,
                ),
            decreases b,
        {
            proof {
                assert(g@[b - 1]@ == gv[b - 1]);
            }
            b -= 1;
        }
        proof {
            if b > a {
                assert(g@[b - 1]@ == gv[b - 1]);
            }
            assert(b as int == skip_ws_back(gv, a as int, end_idx as int));
        }
        let trim_front = a - start_idx;
        let mut ln_text = String::new();
        let mut i = a;
        proof {
            assert(ln_text@ =~= join_graphemes(gv, a as int, a as int));
        }
        while i < b
            invariant
                a <= i <= b <= g@.len(),
                gv == g.deep_view(),
                ln_text@ == join_graphemes(gv, a as int, i as int),
            decreases b - i,
        {
            proof {
                lemma_join_snoc(gv, a as int, i as int);
                assert(g@[i as int]@ == gv[i as int]);
            }
            ln_text.append(g[i].as_str());
            i += 1;
        }
        let mut point_col = point.col - start_idx;
        point_col = if trim_front < point_col {
            point_col - trim_front
        } else {
            0
        };
        if start_idx > 0 {
            let mut pre = String::from_str(GRAY);
            pre = pre.concat("...");
            pre = pre.concat(RESET);
            pre = pre.concat(" ");
            ln_text = pre.concat(ln_text.as_str());
            proof {
                assert(ln_text@ =~= GRAY@ + "..."@ + RESET@ + " "@ + join_graphemes(
                    gv,
                    a as int,
                    b as int,
                ));
            }
            point_col = if point_col <= usize::MAX - 4 {
                point_col + 4
            } else {
                point_col
            };
        }
        let ghost text1 = ln_text@;
        if end_idx < glen {
            ln_text = ln_text.concat(" ");
            ln_text = ln_text.concat(GRAY);
            ln_text = ln_text.concat("...");
            ln_text = ln_text.concat(RESET);
            proof {
                assert(ln_text@ =~= text1 + " "@ + GRAY@ + "..."@ + RESET@);
            }
        }
        let loc = self.loc(point.ln, point.col);
        let loc_count = crate::strutil::grapheme_count(loc.as_str());
        let width_sum = if loc_count <= usize::MAX - point_col {
            loc_count + point_col
        } else {
            loc_count
        };
        let width = if width_sum >= 5 {
            width_sum - 5
        } else {
            0
        };
        proof {
            reveal_strlit("HERE ^");
            assert("HERE ^"@.len() == 6);
            assert forall|k: int| 0 <= k < "HERE ^"@.len() implies ' ' <= "HERE ^"@[k]
                && "HERE ^"@[k] <= '~' by {
                assert("HERE ^"@[0] == 'H');
                assert("HERE ^"@[1] == 'E');
                assert("HERE ^"@[2] == 'R');
                assert("HERE ^"@[3] == 'E');
                assert("HERE ^"@[4] == ' ');
                assert("HERE ^"@[5] == '^');
            }
        }
        let caret = crate::strutil::pad_left_to_width("HERE ^", width);
        let mut r = loc;
        r = r.concat(": ");
        r = r.concat(ln_text.as_str());
        r = r.concat("\n");
        r = r.concat(CYAN);
        r = r.concat(BOLD);
        r = r.concat(caret.as_str());
        r = r.concat(RESET);
        proof {
            assert(r@ =~= spec_point_body(
                self.src.path@,
                linev,
                point.ln as nat,
                point.col as nat,
                extends as nat,
            ));
        }
        r
    }

    /// The windowed lines around a span, with the `[start, end)` range
    /// wrapped in underline markers.
    fn span_body(&self, extends: usize, span: SourceSpan) -> (r: String)
        requires
            self.kind matches ErrorContextKind::Span(s) && s == span,
            self.in_range(),
            extends <= 32,
        ensures
            r@ == spec_span_body(
                self.src.path@,
                self.src.lines.deep_view(),
                span@,
                extends as nat,
            ),
    {
        let ghost linesv = self.src.lines.deep_view();
        let ghost slinev = linesv[span.start.ln - 1];
        let gs = crate::strutil::graphemes_vec(self.src.lines[span.start.ln - 1].as_str());
        let ghost gsv = crate::strutil::graphemes_of(slinev);
        proof {
            assert(self.src.lines@[span.start.ln - 1]@ == slinev);
            assert(gs.deep_view() == gsv);
        }
        let start_idx = span.start.col - (if extends < span.start.col {
            extends
        } else {
            span.start.col
        });
        let mut text = String::from_str(GRAY);
        if start_idx > 0 {
            text = text.concat("... ");
        }
        let ghost pre0 = text@;
        proof {
            assert(pre0 =~= GRAY@ + (if start_idx > 0 {
                "... "@
            } else {
                Seq::<char>::empty()
            }));
        }
        let mut clipped_right = false;
        if span.start.ln == span.end.ln {
            let glen = gs.len();
            let end_idx = if glen - span.end.col < extends {
                glen
            } else {
                span.end.col + extends
            };
            let mut a = start_idx;
            while a < end_idx && grapheme_is_ws(&gs[a])
                invariant
                    start_idx <= a <= end_idx <= gs@.len(),
                    gsv == gs.deep_view(),
                    skip_ws_fwd(gsv, start_idx as int, end_idx as int) == skip_ws_fwd(
                        gsv,
                        a as int,
                        end_idx as int,
                    ),
                decreases end_idx - a,
            {
                proof {
                    assert(gs@[a as int]@ == gsv[a as int]);
                }
                a += 1;
            }
            proof {
                if a < end_idx {
                    assert(gs@[a as int]@ == gsv[a as int]);
                }
                assert(a as int == skip_ws_fwd(gsv, start_idx as int, end_idx as int));
            }
            let mut b = end_idx;
            while b > a && grapheme_is_ws(&gs[b - 1])
                invariant
                    a <= b <= end_idx <= gs@.len(),
                    gsv == gs.deep_view(),
                    skip_ws_back(gsv, a as int, end_idx as int) == skip_ws_back(
                        gsv,
                        a as int,
                        b as int,
                    ),
                decreases b,
            {
                proof {
                    assert(gs@[b - 1]@ == gsv[b - 1]);
                }
                b -= 1;
            }
            proof {
                if b > a {
                    assert(gs@[b - 1]@ == gsv[b - 1]);
                }
                assert(b as int == skip_ws_back(gsv, a as int, end_idx as int));
            }
            let h_start = if span.start.col >= a + 1 {
                span.start.col - a - 1
            } else {
                0
            };
            let h_end = if span.end.col >= a + 1 {
                span.end.col - a - 1
            } else {
                0
            };
            let mut i = a;
            let mut pos: usize = 0;
            proof {
                assert(text@ =~= pre0 + join_marked(
                    gsv,
                    a as int,
                    a as int,
                    a as int,
                    h_start as int,
                    h_end as int,
                ));
            }
            while i < b
                invariant
                    a <= i <= b <= gs@.len(),
                    pos == i - a,
                    gsv == gs.deep_view(),
                    text@ == pre0 + join_marked(
                        gsv,
                        a as int,
                        i as int,
                        a as int,
                        h_start as int,
                        h_end as int,
                    ),
                decreases b - i,
            {
                if pos == h_start {
                    text = text.concat(UNDERLINE);
                    text = text.concat(WHITE);
                }
                if pos == h_end {
                    text = text.concat(RESET);
                    text = text.concat(GRAY);
                }
                text = text.concat(gs[i].as_str());
                proof {
                    lemma_join_marked_snoc(
                        gsv,
                        a as int,
                        i as int,
                        a as int,
                        h_start as int,
                        h_end as int,
                    );
                    assert(gs@[i as int]@ == gsv[i as int]);
                    assert(text@ =~= pre0 + join_marked(
                        gsv,
                        a as int,
                        i + 1 as int,
                        a as int,
                        h_start as int,
                        h_end as int,
                    ));
                }
                i += 1;
                pos += 1;
            }
            clipped_right = end_idx < glen;
        } else {
            let gslen = gs.len();
            let mut a = start_idx;
            while a < gslen && grapheme_is_ws(&gs[a])
                invariant
                    start_idx <= a <= gslen == gs@.len(),
                    gsv == gs.deep_view(),
                    skip_ws_fwd(gsv, start_idx as int, gslen as int) == skip_ws_fwd(
                        gsv,
                        a as int,
                        gslen as int,
                    ),
                decreases gslen - a,
            {
                proof {
                    assert(gs@[a as int]@ == gsv[a as int]);
                }
                a += 1;
            }
            proof {
                if a < gslen {
                    assert(gs@[a as int]@ == gsv[a as int]);
                }
                assert(a as int == skip_ws_fwd(gsv, start_idx as int, gslen as int));
            }
            let h_start = if span.start.col >= a + 1 {
                span.start.col - a - 1
            } else {
                0
            };
            let mut i = a;
            let mut pos: usize = 0;
            proof {
                assert(text@ =~= pre0 + join_marked(
                    gsv,
                    a as int,
                    a as int,
                    a as int,
                    h_start as int,
                    -1,
                ));
            }
            while i < gs.len()
                invariant
                    a <= i <= gs@.len(),
                    pos == i - a,
                    gsv == gs.deep_view(),
                    text@ == pre0 + join_marked(
                        gsv,
                        a as int,
                        i as int,
                        a as int,
                        h_start as int,
                        -1,
                    ),
                decreases gs@.len() - i,
            {
                if pos == h_start {
                    text = text.concat(UNDERLINE);
                    text = text.concat(WHITE);
                }
                text = text.concat(gs[i].as_str());
                proof {
                    lemma_join_marked_snoc(
                        gsv,
                        a as int,
                        i as int,
                        a as int,
                        h_start as int,
                        -1,
                    );
                    assert(gs@[i as int]@ == gsv[i as int]);
                    assert(text@ =~= pre0 + join_marked(
                        gsv,
                        a as int,
                        i + 1 as int,
                        a as int,
                        h_start as int,
                        -1,
                    ));
                }
                i += 1;
                pos += 1;
            }
            let ghost first_done = text@;
            let mut ln = span.start.ln + 1;
            proof {
                assert(text@ =~= first_done + join_mid_lines(
                    linesv,
                    span.start.ln + 1 as int,
                    span.start.ln + 1 as int,
                ));
            }
            while ln < span.end.ln
                invariant
                    span.start.ln < ln <= span.end.ln,
                    span.end.ln <= self.src.lines@.len(),
                    linesv == self.src.lines.deep_view(),
                    text@ == first_done + join_mid_lines(
                        linesv,
                        span.start.ln + 1 as int,
                        ln as int,
                    ),
                decreases span.end.ln - ln,
            {
                text = text.concat("\n");
                text = text.concat(self.src.lines[ln - 1].as_str());
                proof {
                    lemma_join_mid_snoc(linesv, span.start.ln + 1 as int, ln as int);
                    assert(self.src.lines@[ln - 1]@ == linesv[ln - 1]);
                    assert(text@ =~= first_done + join_mid_lines(
                        linesv,
                        span.start.ln + 1 as int,
                        ln + 1 as int,
                    ));
                }
                ln += 1;
            }
            text = text.concat("\n");
            let ghost elinev = linesv[span.end.ln - 1];
            let ge = crate::strutil::graphemes_vec(self.src.lines[span.end.ln - 1].as_str());
            let ghost gev = crate::strutil::graphemes_of(elinev);
            proof {
                assert(self.src.lines@[span.end.ln - 1]@ == elinev);
                assert(ge.deep_view() == gev);
            }
            let ghost mid_done = text@;
            let gelen = ge.len();
            let end_idx = if gelen - span.end.col < extends {
                gelen
            } else {
                span.end.col + extends
            };
            let mut b = end_idx;
            while b > 0 && grapheme_is_ws(&ge[b - 1])
                invariant
                    b <= end_idx <= ge@.len(),
                    gev == ge.deep_view(),
                    skip_ws_back(gev, 0, end_idx as int) == skip_ws_back(gev, 0, b as int),
                decreases b,
            {
                proof {
                    assert(ge@[b - 1]@ == gev[b - 1]);
                }
                b -= 1;
            }
            proof {
                if b > 0 {
                    assert(ge@[b - 1]@ == gev[b - 1]);
                }
                assert(b as int == skip_ws_back(gev, 0, end_idx as int));
            }
            let h_end = span.end.col - 1;
            let mut j: usize = 0;
            proof {
                assert(text@ =~= mid_done + join_marked(gev, 0, 0, 0, -1, h_end as int));
            }
            while j < b
                invariant
                    j <= b <= ge@.len(),
                    gev == ge.deep_view(),
                    text@ == mid_done + join_marked(gev, 0, j as int, 0, -1, h_end as int),
                decreases b - j,
            {
                if j == h_end {
                    text = text.concat(RESET);
                    text = text.concat(GRAY);
                }
                text = text.concat(ge[j].as_str());
                proof {
                    lemma_join_marked_snoc(gev, 0, j as int, 0, -1, h_end as int);
                    assert(ge@[j as int]@ == gev[j as int]);
                    assert(text@ =~= mid_done + join_marked(
                        gev,
                        0,
                        j + 1 as int,
                        0,
                        -1,
                        h_end as int,
                    ));
                }
                j += 1;
            }
            clipped_right = end_idx < gelen;
        }
        if clipped_right {
            text = text.concat(" ...");
        }
        text = text.concat(RESET);
        let loc = self.loc(span.start.ln, span.start.col);
        let mut r = loc;
        r = r.concat(": ");
        r = r.concat(text.as_str());
        proof {
            assert(r@ =~= spec_span_body(
                self.src.path@,
                linesv,
                span@,
                extends as nat,
            ));
        }
        r
    }
}

/// The lower-case rendering of a diagnostic source.
fn source_str(s: SyntaxErrorSource) -> (r: String)
    ensures
        r@ == sp_source_text(s),
{
    match s {
        SyntaxErrorSource::Character => String::from_str("character"),
        SyntaxErrorSource::Token => String::from_str("token"),
        SyntaxErrorSource::Expression => String::from_str("expression"),
    }
}

impl MeowindError for SyntaxError {
    #[verifier::rlimit(100)]
    /// `syntax error: <kind>: <message>`, then the rendered snippet when
    /// the context is present and in range.
    fn to_string(&self) -> (r: String)
        ensures
            r@ == sp_syntax_error_text(self@, self.ctx_full()),
    {
        let mut body = String::from_str(RED);
        body = body.concat(BOLD);
        body = body.concat("syntax error");
        body = body.concat(RESET);
        match &self.kind {
            Some(k) => {
                body = body.concat(": ");
                match k {
                    SyntaxErrorKind::Expected(s) => {
                        body = body.concat("expected ");
                        body = body.concat(source_str(*s).as_str());
                    },
                    SyntaxErrorKind::Unexpected(s) => {
                        body = body.concat("unexpected ");
                        body = body.concat(source_str(*s).as_str());
                    },
                    SyntaxErrorKind::Invalid(s) => {
                        body = body.concat("invalid ");
                        body = body.concat(source_str(*s).as_str());
                    },
                }
            },
            None => {},
        }
        match &self.msg {
            Some(m) => {
                body = body.concat(": ");
                body = body.concat(m.as_str());
            },
            None => {},
        }
        match &self.ctx {
            Some(c) => {
                match c.render() {
                    Some(snippet) => {
                        body = body.concat("\n");
                        body = body.concat(snippet.as_str());
                    },
                    None => {},
                }
            },
            None => {},
        }
        proof {
            assert(body@ =~= sp_syntax_error_text(self@, self.ctx_full()));
        }
        body
    }
}

impl MeowindError for CompilerError {
    #[verifier::rlimit(100)]
    /// `compiler error: <kind>: <message>`, then the rendered snippet
    /// when the context is present and in range.
    fn to_string(&self) -> (r: String)
        ensures
            r@ == sp_compiler_error_text(self@, self.ctx_full()),
    {
        let mut body = String::from_str(RED);
        body = body.concat(BOLD);
        body = body.concat("compiler error");
        body = body.concat(RESET);
        match &self.kind {
            Some(k) => {
                body = body.concat(": ");
                match k {
                    CompilerErrorKind::Undeclared => {
                        body = body.concat("undeclared");
                    },
                    CompilerErrorKind::AlreadyDeclared => {
                        body = body.concat("already declared");
                    },
                }
            },
            None => {},
        }
        match &self.msg {
            Some(m) => {
                body = body.concat(": ");
                body = body.concat(m.as_str());
            },
            None => {},
        }
        match &self.ctx {
            Some(c) => {
                match c.render() {
                    Some(snippet) => {
                        body = body.concat("\n");
                        body = body.concat(snippet.as_str());
                    },
                    None => {},
                }
            },
            None => {},
        }
        proof {
            assert(body@ =~= sp_compiler_error_text(self@, self.ctx_full()));
        }
        body
    }
}

impl MeowindError for CommandLineError {
    /// `command line error: <kind>: <message>`.
    fn to_string(&self) -> (r: String)
        ensures
            r@ == RED@ + BOLD@ + "command line error"@ + RESET@ + ": "@ + sp_cli_kind_text(
                self.kind,
            ) + ": "@ + self.msg@,
    {
        let mut body = String::from_str(RED);
        body = body.concat(BOLD);
        body = body.concat("command line error");
        body = body.concat(RESET);
        body = body.concat(": ");
        match self.kind {
            CommandLineErrorKind::InvalidArguments => {
                body = body.concat("invalid arguments");
            },
            CommandLineErrorKind::FailedToReadFile => {
                body = body.concat("failed to read file");
            },
        }
        body = body.concat(": ");
        body = body.concat(self.msg.as_str());
        proof {
            assert(body@ =~= RED@ + BOLD@ + "command line error"@ + RESET@ + ": "@
                + sp_cli_kind_text(self.kind) + ": "@ + self.msg@);
        }
        body
    }
}

/// A command-line error from the driver's argument handling.
pub struct CommandLineError {
    pub kind: CommandLineErrorKind,
    pub msg: String,
}

/// The command-line error kinds.
#[derive(Debug, Clone, Copy, PartialEq, Eq, Structural)]
pub enum CommandLineErrorKind {
    InvalidArguments,
    FailedToReadFile,
}

impl CommandLineError {
    /// A command-line error from its kind and message.
    pub fn new(kind: CommandLineErrorKind, msg: &str) -> (e: CommandLineError)
        ensures
            e.kind == kind,
            e.msg@ == msg@,
    {
        CommandLineError { kind, msg: msg.to_owned() }
    }
}

/// The compiler-error kinds, reserved for later semantic stages.
#[derive(Debug, Clone, Copy, PartialEq, Eq, Structural)]
pub enum CompilerErrorKind {
    Undeclared,
    AlreadyDeclared,
}

/// A compiler error, reserved for later semantic stages.
pub struct CompilerError {
    kind: Option<CompilerErrorKind>,
    msg: Option<String>,
    ctx: Option<ErrorContext>,
}

/// Model of a compiler error.
pub struct CompilerDiagV {
    pub kind: Option<CompilerErrorKind>,
    pub msg: Option<Seq<char>>,
    pub ctx: Option<CtxV>,
}

impl View for CompilerError {
    type V = CompilerDiagV;

    closed spec fn view(&self) -> CompilerDiagV {
        CompilerDiagV {
            kind: self.kind,
            msg: match self.msg {
                Some(m) => Some(m@),
                None => None,
            },
            ctx: match self.ctx {
                Some(c) => Some(c.kind@),
                None => None,
            },
        }
    }
}

impl Default for CompilerError {
    /// An empty diagnostic, to be filled by the builder methods.
    fn default() -> (e: CompilerError)
        ensures
            e@ == (CompilerDiagV { kind: None, msg: None, ctx: None }),
    {
        CompilerError { kind: None, msg: None, ctx: None }
    }
}

impl CompilerError {
    /// The same diagnostic with its kind set.
    pub fn kind(&self, kind: CompilerErrorKind) -> (e: CompilerError)
        ensures
            e@ == (CompilerDiagV { kind: Some(kind), ..self@ }),
    {
        CompilerError { kind: Some(kind), msg: self.clone_msg(), ctx: self.clone_ctx() }
    }

    /// The same diagnostic with its message set.
    pub fn msg(&self, msg: &str) -> (e: CompilerError)
        ensures
            e@ == (CompilerDiagV { msg: Some(msg@), ..self@ }),
    {
        CompilerError { kind: self.kind, msg: Some(msg.to_owned()), ctx: self.clone_ctx() }
    }

    /// The same diagnostic with its context set.
    pub fn ctx(&self, ctx: ErrorContext) -> (e: CompilerError)
        ensures
            e@ == (CompilerDiagV { ctx: Some(ctx.kind@), ..self@ }),
    {
        CompilerError { kind: self.kind, msg: self.clone_msg(), ctx: Some(ctx) }
    }

    /// A copy of the message field.
    fn clone_msg(&self) -> (m: Option<String>)
        ensures
            match m {
                Some(s) => self@.msg == Some(s@),
                None => self@.msg is None,
            },
    {
        match &self.msg {
            Some(s) => Some(s.clone()),
            None => None,
        }
    }

    /// A copy of the context field; the carried source file is cloned
    /// alongside.
    fn clone_ctx(&self) -> (c: Option<ErrorContext>)
        ensures
            match c {
                Some(c) => self@.ctx == Some(c.kind@),
                None => self@.ctx is None,
            },
    {
        match &self.ctx {
            Some(c) => Some(
                ErrorContext { kind: c.kind, src: SourceFile::new(c.src.path.clone(), c.src.contents.clone()) },
            ),
            None => None,
        }
    }

    /// The carried context with the source parts its rendering reads.
    pub closed spec fn ctx_full(&self) -> Option<CtxFullV> {
        match self.ctx {
            Some(c) => Some(c.full_view()),
            None => None,
        }
    }
}

} // verus!
