//! The lexer: a single-pass, character-driven state machine that turns
//! source text into tokens with spans, recording diagnostics and recovering
//! instead of aborting.
//!
//! The machine is modeled by the spec functions `st_*` over [`LexSt`]; the
//! executable lexer is proved to compute exactly the model's state, so
//! `tokenize` returns precisely `lex_model(source)`.

use vstd::prelude::*;

use crate::errors::{
    diag_point, diag_span, DiagV, ErrorContext, SyntaxError, SyntaxErrorKind, SyntaxErrorSource,
};
use crate::source::{spec_one_ln, PointV, SourceFile, SourcePoint, SourceSpan, SpanV};
use crate::strutil::{
    char_is_alphabetic, char_is_ascii_punct, char_is_digit, char_is_whitespace, chars_to_string,
    is_alpha_char, is_ascii_punct_char, is_digit_char, is_whitespace_char,
};
use crate::tokens::{keyword_of, punct_of, Keywords, Literals, Punctuations, Token, TokenV, Tokens};

verus! {

/// The full state of the lexer: the cursor position, the in-flight buffers,
/// and everything emitted so far.
pub struct LexSt {
    /// Current line, 1-based.
    pub ln: nat,
    /// Current column, 1-based; 0 before the first character of a line.
    pub col: nat,
    /// Column where the value in flight started.
    pub start_col: nat,
    /// Classification of the value in flight.
    pub kind: Tokens,
    /// The value in flight.
    pub value: Seq<char>,
    /// The pending punctuation run.
    pub punct: Seq<char>,
    /// Whether the cursor is inside a string literal.
    pub in_str: bool,
    /// The tokens emitted so far.
    pub toks: Seq<TokenV>,
    /// The diagnostics recorded so far.
    pub diags: Seq<DiagV>,
}

/// The state before any character is read.
pub open spec fn st_init() -> LexSt {
    LexSt {
        ln: 1,
        col: 0,
        start_col: 1,
        kind: Tokens::Undefined,
        value: Seq::empty(),
        punct: Seq::empty(),
        in_str: false,
        toks: Seq::empty(),
        diags: Seq::empty(),
    }
}

/// Emitting one token. An `Undefined` token also records an invalid-token
/// diagnostic spanning the pending punctuation run.
pub open spec fn st_push(st: LexSt, t: TokenV) -> LexSt {
    let st1 = if t.kind == Tokens::Undefined {
        LexSt {
            diags: st.diags.push(
                diag_span(
                    SyntaxErrorKind::Invalid(SyntaxErrorSource::Token),
                    None,
                    SpanV {
                        start: PointV { ln: st.ln, col: (st.col - st.punct.len()) as nat },
                        end: PointV { ln: st.ln, col: st.col },
                    },
                ),
            ),
            ..st
        }
    } else {
        st
    };
    LexSt { toks: st1.toks.push(t), ..st1 }
}

/// Emitting a fresh token from its parts.
pub open spec fn st_push_new(st: LexSt, span: SpanV, kind: Tokens, value: Option<Seq<char>>)
    -> LexSt {
    st_push(st, TokenV { span, kind, value })
}

/// Emitting a valued token, unless the value is empty.
pub open spec fn st_push_new_not_empty(st: LexSt, span: SpanV, kind: Tokens, value: Seq<char>)
    -> LexSt {
    if value.len() == 0 {
        st
    } else {
        st_push(st, TokenV { span, kind, value: Some(value) })
    }
}

/// Clearing the value buffer and its classification.
pub open spec fn st_reset(st: LexSt) -> LexSt {
    LexSt { value: Seq::empty(), kind: Tokens::Undefined, ..st }
}

/// Flushing the value in flight: a reserved word becomes a keyword token
/// (`true`/`false` become boolean literals), anything else is emitted under
/// its accumulated classification; empty values are suppressed. A
/// digit-started identifier also records its diagnostic here, spanning the
/// whole invalid token.
pub open spec fn st_push_keyword_or_ident(st: LexSt, span: SpanV) -> LexSt {
    match keyword_of(st.value) {
        Some(k) => if k == Keywords::True || k == Keywords::False {
            st_reset(st_push_new(st, span, Tokens::Literal(Literals::Boolean), Some(st.value)))
        } else {
            st_reset(st_push_new(st, span, Tokens::Keyword(k), None))
        },
        None => {
            let st1 = if st.value.len() > 0 && st.kind == Tokens::InvalidIdentifier {
                LexSt {
                    diags: st.diags.push(
                        diag_span(
                            SyntaxErrorKind::Unexpected(SyntaxErrorSource::Character),
                            Some("identifiers cannot start with a digit"@),
                            span,
                        ),
                    ),
                    ..st
                }
            } else {
                st
            };
            st_reset(st_push_new_not_empty(st1, span, st.kind, st.value))
        },
    }
}

/// A pending `.` before a digit is a decimal point; otherwise any integer in
/// flight is flushed and a member separator is emitted.
pub open spec fn st_recognize_dot(st: LexSt, ch: char) -> LexSt {
    if is_digit_char(ch) {
        LexSt { kind: Tokens::Literal(Literals::Float), value: st.value.push('.'), ..st }
    } else {
        let st1 = if st.kind == Tokens::Literal(Literals::Integer) {
            let f = st_push_keyword_or_ident(st, spec_one_ln(st.ln, st.start_col, st.col));
            LexSt { start_col: f.col, ..f }
        } else {
            st
        };
        let st2 = st_push_new(
            st1,
            spec_one_ln(st1.ln, (st1.col - 1) as nat, st1.col),
            Tokens::Punctuation(Punctuations::MemberSeparator),
            None,
        );
        LexSt { start_col: st2.col, ..st2 }
    }
}

/// A pending `-` before a digit extends a numeric literal ending in `e`/`E`
/// as an exponent sign; otherwise the minus operator is emitted.
pub open spec fn st_recognize_minus(st: LexSt, ch: char) -> LexSt {
    if is_digit_char(ch) && st.value.len() > 0 && (st.value.last() == 'e' || st.value.last() == 'E')
        && st_numeric_kind(st.kind) {
        LexSt { kind: Tokens::Literal(Literals::Float), value: st.value.push('-'), ..st }
    } else {
        let st1 = st_push_new(
            st,
            spec_one_ln(st.ln, (st.col - 1) as nat, st.col),
            Tokens::Punctuation(Punctuations::OperatorMinus),
            None,
        );
        LexSt { start_col: st1.col, ..st1 }
    }
}

/// Whether the classification is a numeric literal in flight.
pub open spec fn st_numeric_kind(k: Tokens) -> bool {
    k == Tokens::Literal(Literals::Integer) || k == Tokens::Literal(Literals::Float)
}

/// The greedy longest match in `p` starting at `i`, considering extents up
/// to `j`: the largest end below `j` whose substring is a punctuation.
pub open spec fn longest_from(p: Seq<char>, i: int, j: int) -> Option<(int, Punctuations)>
    decreases j - i,
{
    if j <= i {
        None
    } else {
        match punct_of(p.subrange(i, j)) {
            Some(k) => Some((j, k)),
            None => longest_from(p, i, j - 1),
        }
    }
}

/// The greedy longest match in `p` starting at `i`.
pub open spec fn longest_match(p: Seq<char>, i: int) -> Option<(int, Punctuations)> {
    longest_from(p, i, p.len() as int)
}

/// A successful longest match ends after `i` and within the bound.
pub proof fn lemma_longest_from_bounds(p: Seq<char>, i: int, j: int)
    ensures
        match longest_from(p, i, j) {
            Some(jk) => i < jk.0 <= j,
            None => true,
        },
    decreases j - i,
{
    if j <= i {
    } else {
        match punct_of(p.subrange(i, j)) {
            Some(_) => {},
            None => {
                lemma_longest_from_bounds(p, i, j - 1);
            },
        }
    }
}

/// The decomposition loop over a multi-character punctuation run: emit the
/// longest match at each position; a position with no match emits a single
/// `Undefined` token carrying the whole rest of the run, and stops.
pub open spec fn st_decompose_loop(st: LexSt, p: Seq<char>, s: nat, i: nat) -> LexSt
    decreases p.len() - i,
{
    if i >= p.len() {
        st
    } else {
        match longest_match(p, i as int) {
            Some(jk) => {
                if i < jk.0 <= p.len() {
                    st_decompose_loop(
                        st_push_new(
                            st,
                            spec_one_ln(st.ln, (s + i) as nat, (s + jk.0) as nat),
                            Tokens::Punctuation(jk.1),
                            None,
                        ),
                        p,
                        s,
                        jk.0 as nat,
                    )
                } else {
                    st
                }
            },
            None => st_push_new(
                st,
                spec_one_ln(st.ln, (s + i) as nat, (s + i) as nat),
                Tokens::Undefined,
                Some(p.subrange(i as int, p.len() as int)),
            ),
        }
    }
}

/// Decomposing the pending punctuation run: a single character is looked up
/// directly (an unknown one becomes `Undefined` with its text); a longer
/// run goes through the greedy loop. Afterwards the start column moves to
/// the cursor.
pub open spec fn st_decompose(st: LexSt) -> LexSt {
    if st.punct.len() == 1 {
        let st1 = match punct_of(st.punct) {
            Some(k) => st_push_new(
                st,
                spec_one_ln(st.ln, (st.col - 1) as nat, st.col),
                Tokens::Punctuation(k),
                None,
            ),
            None => st_push_new(
                st,
                spec_one_ln(st.ln, (st.col - 1) as nat, st.col),
                Tokens::Undefined,
                Some(st.punct),
            ),
        };
        LexSt { start_col: st1.col, ..st1 }
    } else {
        let st1 = st_decompose_loop(st, st.punct, st.start_col, 0);
        LexSt { start_col: st1.col, ..st1 }
    }
}

/// Resolving the pending punctuation run against the next character: the
/// hot paths `.` and `-` are disambiguated, everything else is decomposed;
/// the run is cleared.
pub open spec fn st_process_complex(st: LexSt, ch: char) -> LexSt {
    let st1 = if st.punct == seq!['.'] {
        st_recognize_dot(st, ch)
    } else if st.punct == seq!['-'] {
        st_recognize_minus(st, ch)
    } else {
        st_decompose(st)
    };
    LexSt { punct: Seq::empty(), ..st1 }
}

/// The bracket and terminator characters that are emitted directly, one
/// token each, without entering the punctuation run.
pub open spec fn simple_punct_of(c: char) -> Option<Punctuations> {
    if c == '(' {
        Some(Punctuations::ParenOpen)
    } else if c == ')' {
        Some(Punctuations::ParenClose)
    } else if c == '{' {
        Some(Punctuations::BraceOpen)
    } else if c == '}' {
        Some(Punctuations::BraceClose)
    } else if c == '[' {
        Some(Punctuations::BracketOpen)
    } else if c == ']' {
        Some(Punctuations::BracketClose)
    } else if c == ';' {
        Some(Punctuations::Semicolon)
    } else if c == ',' {
        Some(Punctuations::Comma)
    } else {
        None
    }
}

/// One step of the machine on a character.
pub open spec fn st_iteration(st: LexSt, ch: char) -> LexSt {
    if ch == '\r' {
        st
    } else if ch == '\n' {
        let st1 = LexSt { col: st.col + 1, ..st };
        let st2 = if st1.in_str {
            let d = LexSt {
                diags: st1.diags.push(
                    diag_point(
                        SyntaxErrorKind::Expected(SyntaxErrorSource::Character),
                        Some("regular string literals cannot be over multiple lines"@),
                        st1.ln,
                        st1.col,
                    ),
                ),
                ..st1
            };
            st_reset(LexSt { in_str: false, ..d })
        } else {
            if st1.punct.len() > 0 {
                st_process_complex(st1, '\n')
            } else {
                st_push_keyword_or_ident(st1, spec_one_ln(st1.ln, st1.start_col, st1.col))
            }
        };
        LexSt { ln: st2.ln + 1, col: 0, start_col: 1, ..st2 }
    } else {
        let st1 = LexSt { col: st.col + 1, ..st };
        if ch == '"' {
            if !st1.in_str {
                let st2 = if st1.punct.len() > 0 {
                    st_process_complex(st1, ch)
                } else {
                    st_push_keyword_or_ident(st1, spec_one_ln(st1.ln, st1.start_col, st1.col))
                };
                LexSt {
                    in_str: true,
                    start_col: st2.col,
                    kind: Tokens::Literal(Literals::String),
                    ..st2
                }
            } else {
                let st2 = st_push_new(
                    st1,
                    spec_one_ln(st1.ln, st1.start_col, st1.col + 1),
                    Tokens::Literal(Literals::String),
                    Some(st1.value),
                );
                let st3 = st_reset(st2);
                LexSt {
                    in_str: false,
                    start_col: st3.col + 1,
                    kind: Tokens::Undefined,
                    ..st3
                }
            }
        } else if st1.in_str {
            LexSt { value: st1.value.push(ch), ..st1 }
        } else if simple_punct_of(ch) is Some {
            let st2 = if st1.punct.len() > 0 {
                st_process_complex(st1, ch)
            } else {
                st_push_keyword_or_ident(st1, spec_one_ln(st1.ln, st1.start_col, st1.col))
            };
            let st3 = st_push_new(
                st2,
                spec_one_ln(st2.ln, st2.col, st2.col + 1),
                Tokens::Punctuation(simple_punct_of(ch).unwrap()),
                None,
            );
            LexSt { start_col: st3.col + 1, ..st3 }
        } else if is_ascii_punct_char(ch) && ch != '_' {
            let st2 = if st1.punct.len() == 0 && st1.kind != Tokens::Literal(Literals::Integer) {
                let f = st_push_keyword_or_ident(
                    st1,
                    spec_one_ln(st1.ln, st1.start_col, st1.col),
                );
                LexSt { start_col: f.col, ..f }
            } else {
                st1
            };
            LexSt { punct: st2.punct.push(ch), ..st2 }
        } else {
            let st2 = if st1.punct.len() > 0 {
                st_process_complex(st1, ch)
            } else {
                st1
            };
            if is_whitespace_char(ch) {
                let st3 = st_push_keyword_or_ident(
                    st2,
                    spec_one_ln(st2.ln, st2.start_col, st2.col),
                );
                LexSt { start_col: st3.col + 1, ..st3 }
            } else {
                let st3 = if st2.kind == Tokens::Undefined {
                    if is_alpha_char(ch) || ch == '_' {
                        LexSt { kind: Tokens::Identifier, ..st2 }
                    } else if is_digit_char(ch) {
                        LexSt { kind: Tokens::Literal(Literals::Integer), ..st2 }
                    } else {
                        st2
                    }
                } else if st_numeric_kind(st2.kind) && is_alpha_char(ch) && ch != 'E' && ch != 'e' {
                    LexSt { kind: Tokens::InvalidIdentifier, ..st2 }
                } else {
                    st2
                };
                LexSt { value: st3.value.push(ch), ..st3 }
            }
        }
    }
}

/// The end of input: a column advance, a diagnostic for an unclosed string,
/// a final flush, and the terminating `EOF` token.
pub open spec fn st_finish(st: LexSt) -> LexSt {
    let st1 = LexSt { col: st.col + 1, ..st };
    let st2 = if st1.in_str {
        st_reset(
            LexSt {
                diags: st1.diags.push(
                    diag_point(
                        SyntaxErrorKind::Expected(SyntaxErrorSource::Character),
                        Some("expected double quote to close string literal"@),
                        st1.ln,
                        st1.col,
                    ),
                ),
                ..st1
            },
        )
    } else {
        st1
    };
    let st3 = if st2.punct.len() > 0 {
        st_process_complex(st2, '\n')
    } else {
        st_push_keyword_or_ident(st2, spec_one_ln(st2.ln, st2.start_col, st2.col))
    };
    st_push_new(st3, spec_one_ln(st3.ln, st3.col, st3.col), Tokens::EOF, None)
}

/// The machine run over the first `n` characters of `s`.
pub open spec fn lex_run(s: Seq<char>, n: int) -> LexSt
    decreases n,
{
    if n <= 0 {
        st_init()
    } else {
        st_iteration(lex_run(s, n - 1), s[n - 1])
    }
}

/// The complete lex of a text: the machine runs over every character and
/// finishes; empty input flushes nothing and still emits the final `EOF`.
pub open spec fn lex_model(s: Seq<char>) -> LexSt {
    st_finish(lex_run(s, s.len() as int))
}

/// The bounds the machine maintains, which keep all column arithmetic in
/// range: the punctuation run never outruns the column, the start column
/// trails the cursor by at most one line position, and inside a string the
/// run is empty.
pub open spec fn st_bounds(st: LexSt) -> bool {
    &&& st.punct.len() <= st.col
    &&& st.start_col <= st.col + 1
    &&& st.ln >= 1
    &&& (st.in_str ==> st.punct.len() == 0)
}

/// The decomposition loop only emits: the cursor, the buffers and the
/// string flag stay as they are.
pub proof fn lemma_decompose_loop_frame(st: LexSt, p: Seq<char>, s: nat, i: nat)
    ensures
        ({
            let r = st_decompose_loop(st, p, s, i);
            r.ln == st.ln && r.col == st.col && r.start_col == st.start_col && r.punct == st.punct
                && r.kind == st.kind && r.value == st.value && r.in_str == st.in_str
        }),
    decreases p.len() - i,
{
    if i >= p.len() {
    } else {
        match longest_match(p, i as int) {
            Some(jk) => {
                if i < jk.0 <= p.len() {
                    lemma_decompose_loop_frame(
                        st_push_new(
                            st,
                            spec_one_ln(st.ln, (s + i) as nat, (s + jk.0) as nat),
                            Tokens::Punctuation(jk.1),
                            None,
                        ),
                        p,
                        s,
                        jk.0 as nat,
                    );
                }
            },
            None => {},
        }
    }
}

/// Resolving the punctuation run keeps the cursor in place, clears the run,
/// and moves the start column to at most the cursor.
pub proof fn lemma_process_complex(st: LexSt, ch: char)
    ensures
        ({
            let r = st_process_complex(st, ch);
            r.ln == st.ln && r.col == st.col && r.punct.len() == 0 && r.in_str == st.in_str && (
            r.start_col == st.start_col || r.start_col == st.col)
        }),
{
    if st.punct == seq!['.'] {
    } else if st.punct == seq!['-'] {
    } else {
        lemma_decompose_loop_frame(st, st.punct, st.start_col, 0);
    }
}

/// One step preserves the bounds and moves the cursor by at most one
/// column and one line.
pub proof fn lemma_iteration_bounds(st: LexSt, ch: char)
    requires
        st_bounds(st),
    ensures
        st_bounds(st_iteration(st, ch)),
        st_iteration(st, ch).col <= st.col + 1,
        st_iteration(st, ch).ln <= st.ln + 1,
{
    if ch == '\r' {
    } else if ch == '\n' {
        let st1 = LexSt { col: st.col + 1, ..st };
        if !st1.in_str && st1.punct.len() > 0 {
            lemma_process_complex(st1, '\n');
        }
    } else {
        let st1 = LexSt { col: st.col + 1, ..st };
        if ch == '"' {
            if !st1.in_str && st1.punct.len() > 0 {
                lemma_process_complex(st1, ch);
            }
        } else if st1.in_str {
        } else if simple_punct_of(ch) is Some {
            if st1.punct.len() > 0 {
                lemma_process_complex(st1, ch);
            }
        } else if is_ascii_punct_char(ch) && ch != '_' {
        } else {
            if st1.punct.len() > 0 {
                lemma_process_complex(st1, ch);
            }
        }
    }
}

/// The machine's bounds hold after any run, with the cursor bounded by the
/// number of characters read.
pub proof fn lemma_run_bounds(s: Seq<char>, n: int)
    ensures
        st_bounds(lex_run(s, n)),
        lex_run(s, n).col <= if n <= 0 { 0 } else { n },
        lex_run(s, n).ln <= if n <= 0 { 1 } else { n + 1 },
    decreases n,
{
    if n <= 0 {
    } else {
        lemma_run_bounds(s, n - 1);
        lemma_iteration_bounds(lex_run(s, n - 1), s[n - 1]);
    }
}

/// The lexer: the source under scan, the tokens and diagnostics produced,
/// and the machine state in flight.
pub struct Lexer {
    pub src: SourceFile,
    pub tokens: Vec<Token>,
    pub errors: Vec<SyntaxError>,
    pub cur_ln: usize,
    pub cur_col: usize,
    pub start_col_buf: usize,
    pub kind_buf: Tokens,
    pub value_buf: Vec<char>,
    pub punct_buf: Vec<char>,
    pub inside_string: bool,
}

impl View for Lexer {
    type V = LexSt;

    open spec fn view(&self) -> LexSt {
        LexSt {
            ln: self.cur_ln as nat,
            col: self.cur_col as nat,
            start_col: self.start_col_buf as nat,
            kind: self.kind_buf,
            value: self.value_buf@,
            punct: self.punct_buf@,
            in_str: self.inside_string,
            toks: self.tokens.deep_view(),
            diags: self.errors.deep_view(),
        }
    }
}

impl Lexer {
    /// A fresh lexer over a source file.
    pub fn new(source: SourceFile) -> (lexer: Lexer)
        ensures
            lexer@ == st_init(),
            lexer.src == source,
    {
        let lexer = Lexer {
            src: source,
            tokens: Vec::new(),
            errors: Vec::new(),
            cur_ln: 1,
            cur_col: 0,
            start_col_buf: 1,
            kind_buf: Tokens::Undefined,
            value_buf: Vec::new(),
            punct_buf: Vec::new(),
            inside_string: false,
        };
        proof {
            assert(lexer.tokens.deep_view() =~= Seq::<TokenV>::empty());
            assert(lexer.errors.deep_view() =~= Seq::<DiagV>::empty());
        }
        lexer
    }

    /// Lexes a whole source file: the resulting tokens and diagnostics are
    /// exactly those of the machine run over the file's characters.
    pub fn tokenize(source: SourceFile) -> (lexer: Lexer)
        requires
            source.wf(),
            2 * source.contents@.len() + 8 <= usize::MAX,
        ensures
            lexer@ == lex_model(source.contents@),
            lexer.src == source,
            lexer.tokens.deep_view() == lex_model(source.contents@).toks,
            lexer.errors.deep_view() == lex_model(source.contents@).diags,
    {
        let mut lexer = Lexer::new(source);
        lexer.process();
        lexer
    }

    /// Runs the machine over every character, then finishes.
    fn process(&mut self)
        requires
            old(self)@ == st_init(),
            old(self).src.wf(),
            2 * old(self).src.contents@.len() + 8 <= usize::MAX,
        ensures
            final(self)@ == lex_model(old(self).src.contents@),
            final(self).src == old(self).src,
    {
        let n = self.src.chars.len();
        let ghost s = self.src.contents@;
        let mut i: usize = 0;
        while i < n
            invariant
                self.src == old(self).src,
                self.src.wf(),
                n == self.src.chars@.len(),
                s == self.src.contents@,
                2 * n + 8 <= usize::MAX,
                i <= n,
                self@ == lex_run(s, i as int),
            decreases n - i,
        {
            let ch = self.src.chars[i];
            proof {
                lemma_run_bounds(s, i as int);
            }
            self.iteration(ch);
            i += 1;
        }
        proof {
            lemma_run_bounds(s, n as int);
        }
        self.cur_col = self.cur_col + 1;
        if self.inside_string {
            let e = SyntaxError::default().ctx(
                ErrorContext::point(self.cur_ln, self.cur_col, self.src.clone()),
            ).kind(SyntaxErrorKind::Expected(SyntaxErrorSource::Character)).msg(
                "expected double quote to close string literal",
            );
            let ghost pre = self.errors.deep_view();
            self.errors.push(e);
            proof {
                assert(self.errors.deep_view() =~= pre.push(e@));
            }
            self.reset_buffers();
        }
        if self.punct_buf.len() > 0 {
            let ghost pre = self@;
            self.process_complex_punctuation('\n');
            proof {
                lemma_process_complex(pre, '\n');
            }
        } else {
            let sp = SourceSpan::one_ln(self.cur_ln, self.start_col_buf, self.cur_col);
            self.push_keyword_or_ident(sp);
        }
        let sp = SourceSpan::one_ln(self.cur_ln, self.cur_col, self.cur_col);
        self.push_new(sp, Tokens::EOF, None);
        proof {
            assert(self@ == st_finish(lex_run(s, s.len() as int)));
        }
    }

    /// One step of the machine on a character.
    #[verifier::rlimit(100)]
    fn iteration(&mut self, ch: char)
        requires
            st_bounds(old(self)@),
            2 * old(self)@.col + 8 <= usize::MAX,
            old(self)@.ln + 1 <= usize::MAX,
        ensures
            final(self)@ == st_iteration(old(self)@, ch),
            final(self).src == old(self).src,
    {
        if ch == '\r' {
            return ;
        }
        if ch == '\n' {
            self.cur_col = self.cur_col + 1;
            if self.inside_string {
                let e = SyntaxError::default().ctx(
                    ErrorContext::point(self.cur_ln, self.cur_col, self.src.clone()),
                ).kind(SyntaxErrorKind::Expected(SyntaxErrorSource::Character)).msg(
                    "regular string literals cannot be over multiple lines",
                );
                let ghost pre = self.errors.deep_view();
                self.errors.push(e);
                proof {
                    assert(self.errors.deep_view() =~= pre.push(e@));
                }
                self.inside_string = false;
                self.reset_buffers();
            } else {
                if self.punct_buf.len() > 0 {
                    let ghost pre = self@;
                    self.process_complex_punctuation('\n');
                    proof {
                        lemma_process_complex(pre, '\n');
                    }
                } else {
                    let sp = SourceSpan::one_ln(self.cur_ln, self.start_col_buf, self.cur_col);
                    self.push_keyword_or_ident(sp);
                }
            }
            self.cur_ln = self.cur_ln + 1;
            self.cur_col = 0;
            self.start_col_buf = 1;
            return ;
        }
        self.cur_col = self.cur_col + 1;
        if ch == '"' {
            if !self.inside_string {
                if self.punct_buf.len() > 0 {
                    let ghost pre = self@;
                    self.process_complex_punctuation(ch);
                    proof {
                        lemma_process_complex(pre, ch);
                    }
                } else {
                    let sp = SourceSpan::one_ln(self.cur_ln, self.start_col_buf, self.cur_col);
                    self.push_keyword_or_ident(sp);
                }
                self.inside_string = true;
                self.start_col_buf = self.cur_col;
                self.kind_buf = Tokens::Literal(Literals::String);
            } else {
                let sp = SourceSpan::one_ln(self.cur_ln, self.start_col_buf, self.cur_col + 1);
                let v = chars_to_string(&self.value_buf);
                self.push_new(sp, Tokens::Literal(Literals::String), Some(v));
                self.reset_buffers();
                self.inside_string = false;
                self.start_col_buf = self.cur_col + 1;
                self.kind_buf = Tokens::Undefined;
            }
            return ;
        }
        if self.inside_string {
            self.value_buf.push(ch);
            return ;
        }
        match simple_punct_kind(ch) {
            Some(kind) => {
                if self.punct_buf.len() > 0 {
                    let ghost pre = self@;
                    self.process_complex_punctuation(ch);
                    proof {
                        lemma_process_complex(pre, ch);
                    }
                } else {
                    let sp = SourceSpan::one_ln(self.cur_ln, self.start_col_buf, self.cur_col);
                    self.push_keyword_or_ident(sp);
                }
                let sp = SourceSpan::one_ln(self.cur_ln, self.cur_col, self.cur_col + 1);
                self.push_new(sp, Tokens::Punctuation(kind), None);
                self.start_col_buf = self.cur_col + 1;
                return ;
            },
            None => {},
        }
        if char_is_ascii_punct(ch) && ch != '_' {
            if self.punct_buf.len() == 0 && !matches!(
                self.kind_buf,
                Tokens::Literal(Literals::Integer),
            ) {
                let sp = SourceSpan::one_ln(self.cur_ln, self.start_col_buf, self.cur_col);
                self.push_keyword_or_ident(sp);
                self.start_col_buf = self.cur_col;
            }
            self.punct_buf.push(ch);
            return ;
        }
        if self.punct_buf.len() > 0 {
            let ghost pre = self@;
            self.process_complex_punctuation(ch);
            proof {
                lemma_process_complex(pre, ch);
            }
        }
        if char_is_whitespace(ch) {
            let sp = SourceSpan::one_ln(self.cur_ln, self.start_col_buf, self.cur_col);
            self.push_keyword_or_ident(sp);
            self.start_col_buf = self.cur_col + 1;
            return ;
        }
        match self.kind_buf {
            Tokens::Undefined => {
                if char_is_alphabetic(ch) || ch == '_' {
                    self.kind_buf = Tokens::Identifier;
                } else if char_is_digit(ch) {
                    self.kind_buf = Tokens::Literal(Literals::Integer);
                }
            },
            Tokens::Literal(lit) => {
                if lit.is_number() && char_is_alphabetic(ch) && ch != 'E' && ch != 'e' {
                    self.kind_buf = Tokens::InvalidIdentifier;
                }
            },
            _ => {},
        }
        self.value_buf.push(ch);
    }

    /// Flushes the value in flight as a keyword, boolean literal, or
    /// identifier-like token.
    fn push_keyword_or_ident(&mut self, span: SourceSpan)
        requires
            old(self)@.punct.len() <= old(self)@.col,
        ensures
            final(self)@ == st_push_keyword_or_ident(old(self)@, span@),
            final(self).src == old(self).src,
    {
        let s = chars_to_string(&self.value_buf);
        match Keywords::from_str(s.as_str()) {
            Ok(kind) => {
                if matches!(kind, Keywords::True | Keywords::False) {
                    self.push_new(span, Tokens::Literal(Literals::Boolean), Some(s));
                } else {
                    self.push_new(span, Tokens::Keyword(kind), None);
                }
            },
            Err(_) => {
                if !s.as_str().is_empty() && matches!(self.kind_buf, Tokens::InvalidIdentifier) {
                    let e = SyntaxError::default().ctx(
                        ErrorContext::span(span.start, span.end, self.src.clone()),
                    ).kind(SyntaxErrorKind::Unexpected(SyntaxErrorSource::Character)).msg(
                        "identifiers cannot start with a digit",
                    );
                    let ghost pre = self.errors.deep_view();
                    self.errors.push(e);
                    proof {
                        assert(self.errors.deep_view() =~= pre.push(e@));
                    }
                }
                let kind = self.kind_buf;
                self.push_new_not_empty(span, kind, s);
            },
        }
        self.reset_buffers();
    }

    /// Resolves the pending punctuation run against the next character.
    fn process_complex_punctuation(&mut self, ch: char)
        requires
            old(self)@.punct.len() >= 1,
            old(self)@.punct.len() <= old(self)@.col,
            old(self)@.start_col <= old(self)@.col + 1,
            2 * old(self)@.col + 4 <= usize::MAX,
        ensures
            final(self)@ == st_process_complex(old(self)@, ch),
            final(self).src == old(self).src,
    {
        if self.punct_buf.len() == 1 && self.punct_buf[0] == '.' {
            proof {
                assert(old(self)@.punct =~= seq!['.']);
            }
            self.recognize_dot(ch);
        } else if self.punct_buf.len() == 1 && self.punct_buf[0] == '-' {
            proof {
                assert(old(self)@.punct =~= seq!['-']);
            }
            self.recognize_minus(ch);
        } else {
            proof {
                if old(self)@.punct.len() == 1 {
                    assert(old(self)@.punct != seq!['.'] && old(self)@.punct != seq!['-']) by {
                        if old(self)@.punct == seq!['.'] {
                            assert(old(self)@.punct[0] == '.');
                        }
                        if old(self)@.punct == seq!['-'] {
                            assert(old(self)@.punct[0] == '-');
                        }
                    }
                } else {
                    assert(old(self)@.punct != seq!['.'] && old(self)@.punct != seq!['-']) by {
                        assert(seq!['.'].len() == 1 && seq!['-'].len() == 1);
                    }
                }
            }
            self.decompose_complex_punctuation();
        }
        self.punct_buf = Vec::new();
        proof {
            assert(self@ =~~= st_process_complex(old(self)@, ch)) by {
                assert(self@.punct =~= Seq::<char>::empty());
            }
        }
    }

    /// Disambiguates a pending `.`.
    fn recognize_dot(&mut self, ch: char)
        requires
            old(self)@.punct.len() >= 1,
            old(self)@.punct.len() <= old(self)@.col,
        ensures
            final(self)@ == st_recognize_dot(old(self)@, ch),
            final(self).src == old(self).src,
            final(self)@.punct == old(self)@.punct,
    {
        if char_is_digit(ch) {
            self.kind_buf = Tokens::Literal(Literals::Float);
            self.value_buf.push('.');
        } else {
            if matches!(self.kind_buf, Tokens::Literal(Literals::Integer)) {
                let sp = SourceSpan::one_ln(self.cur_ln, self.start_col_buf, self.cur_col);
                self.push_keyword_or_ident(sp);
                self.start_col_buf = self.cur_col;
            }
            let sp = SourceSpan::one_ln(self.cur_ln, self.cur_col - 1, self.cur_col);
            self.push_new(sp, Tokens::Punctuation(Punctuations::MemberSeparator), None);
            self.start_col_buf = self.cur_col;
        }
    }

    /// Disambiguates a pending `-`.
    fn recognize_minus(&mut self, ch: char)
        requires
            old(self)@.punct.len() >= 1,
            old(self)@.punct.len() <= old(self)@.col,
        ensures
            final(self)@ == st_recognize_minus(old(self)@, ch),
            final(self).src == old(self).src,
            final(self)@.punct == old(self)@.punct,
    {
        let numeric = match self.kind_buf {
            Tokens::Literal(l) => l.is_number(),
            _ => false,
        };
        let exponent = self.value_buf.len() > 0 && {
            let last = self.value_buf[self.value_buf.len() - 1];
            last == 'e' || last == 'E'
        };
        if char_is_digit(ch) && exponent && numeric {
            self.kind_buf = Tokens::Literal(Literals::Float);
            self.value_buf.push('-');
        } else {
            let sp = SourceSpan::one_ln(self.cur_ln, self.cur_col - 1, self.cur_col);
            self.push_new(sp, Tokens::Punctuation(Punctuations::OperatorMinus), None);
            self.start_col_buf = self.cur_col;
        }
    }

    /// Greedy longest-match decomposition of the pending punctuation run.
    #[verifier::rlimit(60)]
    fn decompose_complex_punctuation(&mut self)
        requires
            old(self)@.punct.len() >= 1,
            old(self)@.punct.len() <= old(self)@.col,
            old(self)@.start_col <= old(self)@.col + 1,
            2 * old(self)@.col + 4 <= usize::MAX,
        ensures
            final(self)@ == st_decompose(old(self)@),
            final(self).src == old(self).src,
            final(self)@.punct == old(self)@.punct,
    {
        if self.punct_buf.len() == 1 {
            let s = chars_to_string(&self.punct_buf);
            match Punctuations::from_str(s.as_str()) {
                Ok(kind) => {
                    let sp = SourceSpan::one_ln(self.cur_ln, self.cur_col - 1, self.cur_col);
                    self.push_new(sp, Tokens::Punctuation(kind), None);
                },
                Err(_) => {
                    let sp = SourceSpan::one_ln(self.cur_ln, self.cur_col - 1, self.cur_col);
                    self.push_new(sp, Tokens::Undefined, Some(s));
                },
            }
            self.start_col_buf = self.cur_col;
            return ;
        }
        let ghost p = self.punct_buf@;
        let ghost s0 = self.start_col_buf as nat;
        let ghost origin = self@;
        let plen = self.punct_buf.len();
        let mut next_char_idx: usize = 0;
        while next_char_idx < plen
            invariant
                origin == old(self)@,
                2 <= plen,
                plen == self.punct_buf@.len(),
                p == self.punct_buf@,
                s0 == self.start_col_buf as nat,
                next_char_idx <= plen,
                self@.punct == origin.punct,
                self@.ln == origin.ln,
                self@.col == origin.col,
                self@.start_col == origin.start_col,
                self@.kind == origin.kind,
                self@.value == origin.value,
                self@.in_str == origin.in_str,
                self.src == old(self).src,
                self.punct_buf@.len() <= self.cur_col,
                self.start_col_buf <= self.cur_col + 1,
                2 * self.cur_col + 4 <= usize::MAX,
                st_decompose_loop(origin, p, s0, 0) == st_decompose_loop(
                    self@,
                    p,
                    s0,
                    next_char_idx as nat,
                ),
            decreases plen - next_char_idx,
        {
            let mut current_punct_buf: Vec<char> = Vec::new();
            let mut valid: Option<Punctuations> = None;
            let mut valid_end: usize = next_char_idx;
            let current_char_idx = next_char_idx;
            let mut pi: usize = current_char_idx;
            while pi < plen
                invariant
                    plen == self.punct_buf@.len(),
                    p == self.punct_buf@,
                    current_char_idx <= pi <= plen,
                    current_punct_buf@ == p.subrange(current_char_idx as int, pi as int),
                    match valid {
                        Some(k) => longest_from(p, current_char_idx as int, pi as int) == Some(
                            ((valid_end as int), k),
                        ),
                        None => longest_from(p, current_char_idx as int, pi as int) is None,
                    },
                decreases plen - pi,
            {
                let pc = self.punct_buf[pi];
                current_punct_buf.push(pc);
                proof {
                    assert(current_punct_buf@ =~= p.subrange(
                        current_char_idx as int,
                        pi + 1 as int,
                    ));
                }
                let cs = chars_to_string(&current_punct_buf);
                match Punctuations::from_str(cs.as_str()) {
                    Ok(kind) => {
                        valid_end = pi + 1;
                        valid = Some(kind);
                    },
                    Err(_) => {},
                }
                pi += 1;
            }
            match valid {
                Some(kind) => {
                    proof {
                        lemma_longest_from_bounds(p, current_char_idx as int, plen as int);
                    }
                    let start_col = self.start_col_buf + current_char_idx;
                    let end_col = self.start_col_buf + valid_end;
                    let sp = SourceSpan::one_ln(self.cur_ln, start_col, end_col);
                    self.push_new(sp, Tokens::Punctuation(kind), None);
                    next_char_idx = valid_end;
                },
                None => {
                    let ghost pre = self@;
                    proof {
                        assert(longest_match(p, current_char_idx as int) is None);
                        assert(st_decompose_loop(pre, p, s0, current_char_idx as nat)
                            == st_push_new(
                            pre,
                            spec_one_ln(
                                pre.ln,
                                (s0 + current_char_idx) as nat,
                                (s0 + current_char_idx) as nat,
                            ),
                            Tokens::Undefined,
                            Some(p.subrange(current_char_idx as int, p.len() as int)),
                        ));
                        assert(current_punct_buf@ == p.subrange(
                            current_char_idx as int,
                            p.len() as int,
                        ));
                    }
                    let start_col = self.start_col_buf + current_char_idx;
                    let end_col = self.start_col_buf + next_char_idx;
                    let sp = SourceSpan::one_ln(self.cur_ln, start_col, end_col);
                    let rest = chars_to_string(&current_punct_buf);
                    proof {
                        assert(sp@ == spec_one_ln(
                            pre.ln,
                            (s0 + current_char_idx) as nat,
                            (s0 + current_char_idx) as nat,
                        ));
                        assert(rest@ == p.subrange(current_char_idx as int, p.len() as int));
                    }
                    self.push_new(sp, Tokens::Undefined, Some(rest));
                    self.start_col_buf = self.cur_col;
                    proof {
                        assert(self@.toks == st_decompose_loop(origin, p, s0, 0).toks);
                        assert(self@ == st_decompose(origin));
                    }
                    return ;
                },
            }
        }
        self.start_col_buf = self.cur_col;
        proof {
            assert(self@ == st_decompose(origin));
        }
    }

    /// Emits a fresh token.
    fn push_new(&mut self, span: SourceSpan, kind: Tokens, value: Option<String>)
        requires
            old(self)@.punct.len() <= old(self)@.col,
        ensures
            final(self)@ == st_push_new(
                old(self)@,
                span@,
                kind,
                match value {
                    Some(v) => Some(v@),
                    None => None,
                },
            ),
            final(self).src == old(self).src,
    {
        let token = Token::new(span, kind, value);
        self.push(token);
    }

    /// Emits a valued token, unless the value is empty.
    fn push_new_not_empty(&mut self, span: SourceSpan, kind: Tokens, value: String)
        requires
            old(self)@.punct.len() <= old(self)@.col,
        ensures
            final(self)@ == st_push_new_not_empty(old(self)@, span@, kind, value@),
            final(self).src == old(self).src,
    {
        if value.as_str().is_empty() {
            return ;
        }
        self.push(Token::new(span, kind, Some(value)));
    }

    /// Emits a token; an `Undefined` token also records an invalid-token
    /// diagnostic.
    fn push(&mut self, token: Token)
        requires
            old(self)@.punct.len() <= old(self)@.col,
        ensures
            final(self)@ == st_push(old(self)@, token@),
            final(self).src == old(self).src,
    {
        if matches!(token.kind, Tokens::Undefined) {
            let e = SyntaxError::default().ctx(
                ErrorContext::span(
                    SourcePoint::new(self.cur_ln, self.cur_col - self.punct_buf.len()),
                    SourcePoint::new(self.cur_ln, self.cur_col),
                    self.src.clone(),
                ),
            ).kind(SyntaxErrorKind::Invalid(SyntaxErrorSource::Token));
            let ghost pre = self.errors.deep_view();
            self.errors.push(e);
            proof {
                assert(self.errors.deep_view() =~= pre.push(e@));
            }
        }
        let ghost pret = self.tokens.deep_view();
        let ghost tv = token@;
        self.tokens.push(token);
        proof {
            assert(self.tokens.deep_view() =~= pret.push(tv));
        }
    }

    /// Clears the value buffer and its classification.
    fn reset_buffers(&mut self)
        ensures
            final(self)@ == st_reset(old(self)@),
            final(self).src == old(self).src,
    {
        self.value_buf = Vec::new();
        self.kind_buf = Tokens::Undefined;
        proof {
            assert(self@.value =~= Seq::<char>::empty());
        }
    }
}

/// Executable lookup matching `simple_punct_of`.
fn simple_punct_kind(c: char) -> (r: Option<Punctuations>)
    ensures
        r == simple_punct_of(c),
{
    if c == '(' {
        Some(Punctuations::ParenOpen)
    } else if c == ')' {
        Some(Punctuations::ParenClose)
    } else if c == '{' {
        Some(Punctuations::BraceOpen)
    } else if c == '}' {
        Some(Punctuations::BraceClose)
    } else if c == '[' {
        Some(Punctuations::BracketOpen)
    } else if c == ']' {
        Some(Punctuations::BracketClose)
    } else if c == ';' {
        Some(Punctuations::Semicolon)
    } else if c == ',' {
        Some(Punctuations::Comma)
    } else {
        None
    }
}

} // verus!
