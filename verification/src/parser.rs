//! The parser: recursive descent over the token vector, proved to return
//! exactly the results of the grammar functions in [`crate::grammar`].
//!
//! The cursor advances with saturation at the final token, so no input can
//! run it out of bounds; on a well-formed stream (one `EOF`, last) the
//! saturation is never reached while a production is open.

use vstd::prelude::*;
use vstd::string::*;

use crate::ast::{
    expr_view, spec_precedence, BinaryExpressionKind, ExpressionKind, ExpressionNode,
    UnaryExpressionKind,
};
use crate::errors::{ErrorContext, SyntaxError, SyntaxErrorKind, SyntaxErrorSource};
use crate::ast::{items_view, lemma_items_view_elems};
use crate::grammar::{
    adv, sp_assignment, sp_binary, sp_binary_loop, sp_body, sp_call_args, sp_call_args_loop,
    sp_call_expression, sp_call_or_resolution, sp_const, sp_element, sp_expression, sp_fn_args,
    sp_fn_arg, sp_fn_args_loop, sp_function, sp_if, sp_inline_body, sp_item, sp_items_loop,
    sp_multiline_body, sp_multiline_loop, sp_operand, sp_parse, sp_primary, sp_resolution,
    sp_resolution_loop, sp_statement, sp_static, sp_type, sp_var_decl, sp_while, tk, tok_val,
    wf_toks,
};
use crate::tokens::Keywords;
use crate::grammar::{sp_expected, sp_expected_of, sp_kinds_msg_to, sp_ok};
use crate::source::SourceFile;
use crate::tokens::{Punctuations, Token, TokenV, Tokens};
use crate::ast::TypeNode;

verus! {

/// The parser state: the token stream, the source for diagnostics, the
/// cursor, and the accumulated project and errors.
pub struct Parser {
    pub project: crate::ast::ProjectNode,
    pub errors: Vec<SyntaxError>,
    pub tokens: Vec<Token>,
    pub src: SourceFile,
    pub cursor: usize,
}

impl Parser {
    /// The token stream as model values.
    pub open spec fn tview(&self) -> Seq<TokenV> {
        self.tokens.deep_view()
    }

    /// The parser works over a well-formed stream with the cursor in
    /// bounds.
    pub open spec fn inv(&self) -> bool {
        &&& wf_toks(self.tview())
        &&& (self.cursor as nat) < self.tview().len()
    }

    /// Everything but the cursor is untouched by the parsing helpers.
    pub open spec fn frame(&self, other: &Parser) -> bool {
        &&& self.tokens == other.tokens
        &&& self.src == other.src
        &&& self.errors == other.errors
        &&& self.project == other.project
    }

    /// The token under the cursor.
    fn current(&self) -> (t: &Token)
        requires
            self.inv(),
        ensures
            t.deep_view() == tk(self.tview(), self.cursor as nat),
    {
        &self.tokens[self.cursor]
    }

    /// The token before the cursor, if any.
    fn previous(&self) -> (t: Result<&Token, ()>)
        requires
            self.inv(),
        ensures
            match t {
                Ok(p) => self.cursor > 0 && p.deep_view() == tk(
                    self.tview(),
                    (self.cursor - 1) as nat,
                ),
                Err(_) => self.cursor == 0,
            },
    {
        if self.cursor == 0 {
            Err(())
        } else {
            Ok(&self.tokens[self.cursor - 1])
        }
    }

    /// Moves the cursor one token on, saturating at the final token.
    fn advance(&mut self)
        requires
            old(self).inv(),
        ensures
            final(self).inv(),
            final(self).frame(old(self)),
            final(self).cursor as nat == adv(old(self).tview(), old(self).cursor as nat),
    {
        if self.cursor < self.tokens.len() - 1 {
            self.cursor = self.cursor + 1;
        }
    }

    /// The lexeme of the token under the cursor.
    fn current_value(&self) -> (s: String)
        requires
            self.inv(),
            tk(self.tview(), self.cursor as nat).value is Some,
        ensures
            s@ == tok_val(tk(self.tview(), self.cursor as nat)),
    {
        match &self.tokens[self.cursor].value {
            Some(s) => s.clone(),
            None => vstd::pervasive::unreached(),
        }
    }

    /// Checks the token under the cursor for a kind, reporting an
    /// `expected ..` diagnostic anchored at the previous token's end.
    fn expect(&self, kind: Tokens) -> (r: Result<(), SyntaxError>)
        requires
            self.inv(),
        ensures
            r is Ok <==> tk(self.tview(), self.cursor as nat).kind == kind,
            r matches Err(e) ==> e@ == sp_expected(self.tview(), self.cursor as nat, kind),
    {
        let t = self.current();
        if t.kind == kind {
            Ok(())
        } else {
            let (col, ln) = match self.previous() {
                Ok(prev) => (prev.span.end.col, prev.span.end.ln),
                Err(_) => {
                    let t = self.current();
                    (t.span.start.col, t.span.start.ln)
                },
            };
            let m = String::from_str("expected ").concat(kind.to_string().as_str());
            Err(
                SyntaxError::default().ctx(ErrorContext::point(ln, col, self.src.clone())).kind(
                    SyntaxErrorKind::Expected(SyntaxErrorSource::Token),
                ).msg(m.as_str()),
            )
        }
    }

    /// Checks the token under the cursor against several kinds.
    fn expect_multiple(&self, kinds: &Vec<Tokens>) -> (r: Result<(), SyntaxError>)
        requires
            self.inv(),
        ensures
            r is Ok <==> exists|i: int|
                0 <= i < kinds@.len() && tk(self.tview(), self.cursor as nat).kind == kinds@[i],
            r matches Err(e) ==> e@ == sp_expected_of(self.tview(), self.cursor as nat, kinds@),
    {
        let t_kind = self.current().kind;
        let mut i: usize = 0;
        while i < kinds.len()
            invariant
                i <= kinds@.len(),
                t_kind == tk(self.tview(), self.cursor as nat).kind,
                forall|j: int| 0 <= j < i ==> t_kind != kinds@[j],
            decreases kinds@.len() - i,
        {
            if t_kind == kinds[i] {
                return Ok(());
            }
            i += 1;
        }
        let mut m = String::from_str("expected ");
        let mut j: usize = 0;
        proof {
            assert(m@ =~= "expected "@ + sp_kinds_msg_to(kinds@, 0));
        }
        while j < kinds.len()
            invariant
                j <= kinds@.len(),
                m@ == "expected "@ + sp_kinds_msg_to(kinds@, j as int),
            decreases kinds@.len() - j,
        {
            if j > 0 {
                m = m.concat(" or ");
            }
            m = m.concat(kinds[j].to_string().as_str());
            proof {
                assert(m@ =~= "expected "@ + sp_kinds_msg_to(kinds@, j + 1));
            }
            j += 1;
        }
        Err(
            SyntaxError::default().ctx(
                ErrorContext::span(
                    self.current().span.start,
                    self.current().span.end,
                    self.src.clone(),
                ),
            ).kind(SyntaxErrorKind::Expected(SyntaxErrorSource::Token)).msg(m.as_str()),
        )
    }

    /// A type annotation: an identifier, left under the cursor.
    pub(crate) fn parse_type(&mut self) -> (r: Result<TypeNode, SyntaxError>)
        requires
            old(self).inv(),
        ensures
            final(self).inv(),
            final(self).frame(old(self)),
            final(self).cursor == old(self).cursor,
            match r {
                Ok(n) => sp_type(old(self).tview(), old(self).cursor as nat) == sp_ok(
                    (n@, final(self).cursor as nat),
                ),
                Err(e) => sp_type(old(self).tview(), old(self).cursor as nat) matches Err(d) && d == e@,
            },
    {
        match self.expect(Tokens::Identifier) {
            Ok(_) => {},
            Err(e) => {
                return Err(e);
            },
        }
        proof {
            lemma_wf_value(self.tview(), self.cursor as nat);
        }
        let raw = self.current_value();
        Ok(TypeNode { raw })
    }
}

impl Parser {
    /// A full expression; rejected outright at `EOF`.
    pub(crate) fn parse_expression(&mut self) -> (r: Result<ExpressionNode, SyntaxError>)
        requires
            old(self).inv(),
        ensures
            final(self).inv(),
            final(self).frame(old(self)),
            final(self).cursor >= old(self).cursor,
            r is Ok ==> final(self).cursor > old(self).cursor,
            tk(old(self).tview(), old(self).cursor as nat).kind == Tokens::EOF
                ==> final(self).cursor == old(self).cursor,
            match r {
                Ok(n) => sp_expression(old(self).tview(), old(self).cursor as nat) == sp_ok(
                    (expr_view(n), final(self).cursor as nat),
                ),
                Err(e) => sp_expression(old(self).tview(), old(self).cursor as nat) matches Err(d) && d == e@,
            },
        decreases self.tview().len() - self.cursor, 22int,
    {
        let t = self.current();
        if t.kind == Tokens::EOF {
            let ln = t.span.start.ln;
            let col = t.span.start.col;
            return Err(
                SyntaxError::default().ctx(ErrorContext::point(ln, col, self.src.clone())).kind(
                    SyntaxErrorKind::Expected(SyntaxErrorSource::Expression),
                ),
            );
        }
        self.parse_assignment_expression()
    }

    /// An assignment, right-associative.
    fn parse_assignment_expression(&mut self) -> (r: Result<ExpressionNode, SyntaxError>)
        requires
            old(self).inv(),
        ensures
            final(self).inv(),
            final(self).frame(old(self)),
            final(self).cursor >= old(self).cursor,
            r is Ok ==> final(self).cursor > old(self).cursor,
            match r {
                Ok(n) => sp_assignment(old(self).tview(), old(self).cursor as nat) == sp_ok(
                    (expr_view(n), final(self).cursor as nat),
                ),
                Err(e) => sp_assignment(old(self).tview(), old(self).cursor as nat) matches Err(d) && d == e@,
            },
        decreases self.tview().len() - self.cursor, 21int,
    {
        let left = self.parse_binary_expression(BinaryExpressionKind::lowest())?;
        let cur_kind = self.current().kind;
        match cur_kind {
            Tokens::Punctuation(Punctuations::Assignment(ak)) => {
                proof {
                    lemma_adv_strict(self.tview(), self.cursor as nat);
                }
                self.advance();
                let right = self.parse_assignment_expression()?;
                Ok(
                    ExpressionNode {
                        kind: ExpressionKind::Assignment {
                            left: Box::new(left),
                            op: ak,
                            right: Box::new(right),
                        },
                    },
                )
            },
            _ => Ok(left),
        }
    }

    /// A binary expression at one level: one operand, then operands bound
    /// while the next token is an operator of exactly this level.
    fn parse_binary_expression(&mut self, bin_kind: BinaryExpressionKind) -> (r: Result<
        ExpressionNode,
        SyntaxError,
    >)
        requires
            old(self).inv(),
        ensures
            final(self).inv(),
            final(self).frame(old(self)),
            final(self).cursor >= old(self).cursor,
            r is Ok ==> final(self).cursor > old(self).cursor,
            match r {
                Ok(n) => sp_binary(old(self).tview(), old(self).cursor as nat, bin_kind) == sp_ok(
                    (expr_view(n), final(self).cursor as nat),
                ),
                Err(e) => sp_binary(old(self).tview(), old(self).cursor as nat, bin_kind) matches Err(d) && d == e@,
            },
        decreases self.tview().len() - self.cursor, 2 * (3 - spec_precedence(bin_kind)) + 6,
    {
        let mut expr = self.parse_binary_expression_operand(&bin_kind)?;
        loop
            invariant
                self.inv(),
                self.frame(old(self)),
                self.cursor > old(self).cursor,
                sp_binary(old(self).tview(), old(self).cursor as nat, bin_kind)
                    == sp_binary_loop(
                    self.tview(),
                    self.cursor as nat,
                    bin_kind,
                    expr_view(expr),
                ),
            decreases self.tview().len() - self.cursor,
        {
            let cur_kind = self.current().kind;
            match cur_kind {
                Tokens::Punctuation(pk) => {
                    if matches!(pk, Punctuations::Assignment(_)) || pk
                        == Punctuations::InlineBody {
                        return Ok(expr);
                    }
                    match BinaryExpressionKind::from_punct(&pk) {
                        Ok(bk) => {
                            if bk != bin_kind {
                                return Ok(expr);
                            }
                            proof {
                                lemma_adv_strict(self.tview(), self.cursor as nat);
                            }
                            self.advance();
                            let right = self.parse_binary_expression_operand(&bin_kind)?;
                            expr = ExpressionNode {
                                kind: ExpressionKind::Binary {
                                    kind: bk,
                                    left: Box::new(expr),
                                    op: pk,
                                    right: Box::new(right),
                                },
                            };
                        },
                        Err(_) => {
                            return Ok(expr);
                        },
                    }
                },
                _ => {
                    return Ok(expr);
                },
            }
        }
    }

    /// One operand at a binary level.
    fn parse_binary_expression_operand(&mut self, bin_kind: &BinaryExpressionKind) -> (r: Result<
        ExpressionNode,
        SyntaxError,
    >)
        requires
            old(self).inv(),
        ensures
            final(self).inv(),
            final(self).frame(old(self)),
            final(self).cursor >= old(self).cursor,
            r is Ok ==> final(self).cursor > old(self).cursor,
            match r {
                Ok(n) => sp_operand(old(self).tview(), old(self).cursor as nat, *bin_kind)
                    == sp_ok((expr_view(n), final(self).cursor as nat)),
                Err(e) => sp_operand(
                    old(self).tview(),
                    old(self).cursor as nat,
                    *bin_kind,
                ) matches Err(d) && d == e@,
            },
        decreases self.tview().len() - self.cursor, 2 * (3 - spec_precedence(*bin_kind)) + 5,
    {
        match BinaryExpressionKind::from_precedence(bin_kind.precedence() + 1) {
            Ok(more) => self.parse_binary_expression(more),
            Err(_) => self.parse_call_or_resolution_expression(),
        }
    }

    /// A resolution chain, called if an argument list follows.
    fn parse_call_or_resolution_expression(&mut self) -> (r: Result<ExpressionNode, SyntaxError>)
        requires
            old(self).inv(),
        ensures
            final(self).inv(),
            final(self).frame(old(self)),
            final(self).cursor >= old(self).cursor,
            r is Ok ==> final(self).cursor > old(self).cursor,
            match r {
                Ok(n) => sp_call_or_resolution(old(self).tview(), old(self).cursor as nat)
                    == sp_ok((expr_view(n), final(self).cursor as nat)),
                Err(e) => sp_call_or_resolution(
                    old(self).tview(),
                    old(self).cursor as nat,
                ) matches Err(d) && d == e@,
            },
        decreases self.tview().len() - self.cursor, 4int,
    {
        let res = self.parse_resolution_expression()?;
        if self.current().kind == Tokens::Punctuation(Punctuations::ParenOpen) {
            self.parse_call_expression(res)
        } else {
            Ok(res)
        }
    }

    /// A call of `res`, chaining further calls left-associatively.
    fn parse_call_expression(&mut self, res: ExpressionNode) -> (r: Result<
        ExpressionNode,
        SyntaxError,
    >)
        requires
            old(self).inv(),
        ensures
            final(self).inv(),
            final(self).frame(old(self)),
            final(self).cursor >= old(self).cursor,
            r is Ok ==> final(self).cursor > old(self).cursor,
            match r {
                Ok(n) => sp_call_expression(
                    old(self).tview(),
                    old(self).cursor as nat,
                    expr_view(res),
                ) == sp_ok((expr_view(n), final(self).cursor as nat)),
                Err(e) => sp_call_expression(
                    old(self).tview(),
                    old(self).cursor as nat,
                    expr_view(res),
                ) matches Err(d) && d == e@,
            },
        decreases self.tview().len() - self.cursor, 3int,
    {
        let args = self.parse_call_arguments()?;
        proof {
            crate::ast::lemma_exprs_view_elems(args@);
            assert(crate::ast::exprs_view(args@) =~= args.deep_view());
        }
        let expr = ExpressionNode { kind: ExpressionKind::Call { res: Box::new(res), args } };
        self.advance();
        if self.current().kind == Tokens::Punctuation(Punctuations::ParenOpen) {
            self.parse_call_expression(expr)
        } else {
            Ok(expr)
        }
    }

    /// A call argument list `( .. )`.
    fn parse_call_arguments(&mut self) -> (r: Result<Vec<ExpressionNode>, SyntaxError>)
        requires
            old(self).inv(),
        ensures
            final(self).inv(),
            final(self).frame(old(self)),
            final(self).cursor >= old(self).cursor,
            r is Ok ==> final(self).cursor > old(self).cursor,
            match r {
                Ok(v) => sp_call_args(old(self).tview(), old(self).cursor as nat) == sp_ok(
                    (v.deep_view(), final(self).cursor as nat),
                ),
                Err(e) => sp_call_args(old(self).tview(), old(self).cursor as nat) matches Err(d) && d == e@,
            },
        decreases self.tview().len() - self.cursor, 2int,
    {
        match self.expect(Tokens::Punctuation(Punctuations::ParenOpen)) {
            Ok(_) => {},
            Err(e) => {
                return Err(e);
            },
        }
        let mut args: Vec<ExpressionNode> = Vec::new();
        proof {
            assert(args.deep_view() =~= Seq::<crate::ast::ExprV>::empty());
        }
        loop
            invariant
                self.inv(),
                self.frame(old(self)),
                self.cursor >= old(self).cursor,
                tk(self.tview(), self.cursor as nat).kind != Tokens::EOF,
                sp_call_args(old(self).tview(), old(self).cursor as nat) == sp_call_args_loop(
                    self.tview(),
                    self.cursor as nat,
                    args.deep_view(),
                ),
            decreases self.tview().len() - self.cursor,
        {
            proof {
                lemma_adv_strict(self.tview(), self.cursor as nat);
            }
            self.advance();
            let k = self.current().kind;
            if matches!(k, Tokens::Punctuation(Punctuations::ParenClose)) || k == Tokens::EOF {
                match self.expect(Tokens::Punctuation(Punctuations::ParenClose)) {
                    Ok(_) => {
                        return Ok(args);
                    },
                    Err(e) => {
                        return Err(e);
                    },
                }
            }
            let e = self.parse_expression()?;
            let ghost pre_args = args.deep_view();
            args.push(e);
            proof {
                assert(args.deep_view() =~= pre_args.push(expr_view(e)));
            }
            if !matches!(self.current().kind, Tokens::Punctuation(Punctuations::Comma)) {
                match self.expect(Tokens::Punctuation(Punctuations::ParenClose)) {
                    Ok(_) => {
                        return Ok(args);
                    },
                    Err(e2) => {
                        return Err(e2);
                    },
                }
            }
        }
    }

    /// A resolution chain: a primary expression, then `.`/`::` bindings,
    /// left-associative.
    fn parse_resolution_expression(&mut self) -> (r: Result<ExpressionNode, SyntaxError>)
        requires
            old(self).inv(),
        ensures
            final(self).inv(),
            final(self).frame(old(self)),
            final(self).cursor >= old(self).cursor,
            r is Ok ==> final(self).cursor > old(self).cursor,
            match r {
                Ok(n) => sp_resolution(old(self).tview(), old(self).cursor as nat) == sp_ok(
                    (expr_view(n), final(self).cursor as nat),
                ),
                Err(e) => sp_resolution(old(self).tview(), old(self).cursor as nat) matches Err(d) && d == e@,
            },
        decreases self.tview().len() - self.cursor, 3int,
    {
        let mut left = self.parse_primary_expression()?;
        loop
            invariant
                self.inv(),
                self.frame(old(self)),
                self.cursor >= old(self).cursor,
                tk(self.tview(), self.cursor as nat).kind != Tokens::EOF,
                sp_resolution(old(self).tview(), old(self).cursor as nat) == sp_resolution_loop(
                    self.tview(),
                    self.cursor as nat,
                    expr_view(left),
                ),
            decreases self.tview().len() - self.cursor,
        {
            proof {
                lemma_adv_strict(self.tview(), self.cursor as nat);
            }
            self.advance();
            let k = self.current().kind;
            if !(matches!(k, Tokens::Punctuation(Punctuations::MemberSeparator)) || matches!(
                k,
                Tokens::Punctuation(Punctuations::NamespaceSeparator),
            )) {
                return Ok(left);
            }
            let kind = if matches!(k, Tokens::Punctuation(Punctuations::MemberSeparator)) {
                crate::ast::ResolutionExpressionKind::Member
            } else {
                crate::ast::ResolutionExpressionKind::Namespace
            };
            proof {
                lemma_adv_strict(self.tview(), self.cursor as nat);
            }
            self.advance();
            let right = self.parse_primary_expression()?;
            left = ExpressionNode {
                kind: ExpressionKind::Resolution {
                    left: Box::new(left),
                    right: Box::new(right),
                    kind,
                },
            };
        }
    }

    /// A primary expression: an identifier, a literal, a parenthesized
    /// expression, or a unary operator applied to a primary expression.
    fn parse_primary_expression(&mut self) -> (r: Result<ExpressionNode, SyntaxError>)
        requires
            old(self).inv(),
        ensures
            final(self).inv(),
            final(self).frame(old(self)),
            final(self).cursor >= old(self).cursor,
            match r {
                Ok(n) => sp_primary(old(self).tview(), old(self).cursor as nat) == sp_ok(
                    (expr_view(n), final(self).cursor as nat),
                ) && tk(final(self).tview(), final(self).cursor as nat).kind != Tokens::EOF,
                Err(e) => sp_primary(old(self).tview(), old(self).cursor as nat) matches Err(d) && d == e@,
            },
        decreases self.tview().len() - self.cursor, 1int,
    {
        let t = self.current();
        let t_kind = t.kind;
        let sp_start = t.span.start;
        let sp_end = t.span.end;
        match t_kind {
            Tokens::Identifier => {
                proof {
                    lemma_wf_value(self.tview(), self.cursor as nat);
                }
                let name = self.current_value();
                Ok(ExpressionNode { kind: ExpressionKind::Identifier { name } })
            },
            Tokens::Literal(lit) => {
                proof {
                    lemma_wf_value(self.tview(), self.cursor as nat);
                }
                let value = self.current_value();
                Ok(ExpressionNode { kind: ExpressionKind::Literal { kind: lit, value } })
            },
            Tokens::Punctuation(pk) => {
                if pk == Punctuations::ParenOpen {
                    proof {
                        lemma_adv_strict(self.tview(), self.cursor as nat);
                    }
                    self.advance();
                    let e = self.parse_expression()?;
                    match self.expect(Tokens::Punctuation(Punctuations::ParenClose)) {
                        Ok(_) => Ok(e),
                        Err(e2) => Err(e2),
                    }
                } else if matches!(
                    pk,
                    Punctuations::ParenClose | Punctuations::BraceOpen | Punctuations::BraceClose
                        | Punctuations::BracketOpen | Punctuations::BracketClose
                        | Punctuations::Semicolon | Punctuations::Comma,
                ) {
                    Err(
                        SyntaxError::default().ctx(
                            ErrorContext::span(sp_start, sp_end, self.src.clone()),
                        ).kind(SyntaxErrorKind::Unexpected(SyntaxErrorSource::Token)).msg(
                            "specified token cannot be used for expressions",
                        ),
                    )
                } else {
                    match UnaryExpressionKind::from_punct(&pk) {
                        Ok(uk) => {
                            proof {
                                lemma_adv_strict(self.tview(), self.cursor as nat);
                            }
                            self.advance();
                            let right = self.parse_primary_expression()?;
                            Ok(
                                ExpressionNode {
                                    kind: ExpressionKind::Unary {
                                        kind: uk,
                                        op: pk,
                                        right: Box::new(right),
                                    },
                                },
                            )
                        },
                        Err(_) => Err(
                            SyntaxError::default().ctx(
                                ErrorContext::span(sp_start, sp_end, self.src.clone()),
                            ).kind(SyntaxErrorKind::Unexpected(SyntaxErrorSource::Token)).msg(
                                "specified token is not a unary operator",
                            ),
                        ),
                    }
                }
            },
            _ => Err(
                SyntaxError::default().ctx(
                    ErrorContext::span(sp_start, sp_end, self.src.clone()),
                ).kind(SyntaxErrorKind::Unexpected(SyntaxErrorSource::Token)).msg(
                    "specified token cannot be used for expressions",
                ),
            ),
        }
    }
}

impl Parser {
    /// A fresh parser over a token stream.
    pub fn new(tokens: Vec<Token>, src: SourceFile) -> (p: Parser)
        ensures
            p.tokens == tokens,
            p.src == src,
            p.cursor == 0,
            p.errors@ =~= Seq::<SyntaxError>::empty(),
            p.project.name@ =~= Seq::<char>::empty(),
            p.project.kind == crate::ast::ProjectKind::Program,
            p.project.root.kind == crate::ast::NamespaceKind::Root,
            p.project.root.items@ =~= Seq::<crate::ast::ItemNode>::empty(),
    {
        Parser {
            project: crate::ast::ProjectNode {
                name: String::new(),
                kind: crate::ast::ProjectKind::Program,
                root: crate::ast::NamespaceNode {
                    kind: crate::ast::NamespaceKind::Root,
                    items: Vec::new(),
                },
            },
            errors: Vec::new(),
            tokens,
            src,
            cursor: 0,
        }
    }

    /// Parses a whole token stream: the items of the project root are
    /// exactly those of the grammar, and the error list holds exactly the
    /// diagnostic the grammar reports, or nothing when it accepts the
    /// stream.
    pub fn parse(tokens: Vec<Token>, src: SourceFile) -> (p: Parser)
        requires
            tokens.deep_view().len() == 0 || wf_toks(tokens.deep_view()),
        ensures
            p.tokens == tokens,
            p.src == src,
            ({
                let (items, diag) = sp_parse(tokens.deep_view());
                &&& items_view(p.project.root.items@) == items
                &&& match diag {
                    Some(d) => p.errors.deep_view() == seq![d],
                    None => p.errors@.len() == 0,
                }
            }),
            p.project.name@ =~= Seq::<char>::empty(),
            p.project.kind == crate::ast::ProjectKind::Program,
            p.project.root.kind == crate::ast::NamespaceKind::Root,
    {
        let mut parser = Parser::new(tokens, src);
        parser.process();
        parser
    }

    /// The top-level loop: parse items until `EOF`; the first failing item
    /// is recorded and ends the parse.
    fn process(&mut self)
        requires
            old(self).cursor == 0,
            old(self).errors@.len() == 0,
            old(self).project.root.items@.len() == 0,
            old(self).tview().len() == 0 || wf_toks(old(self).tview()),
        ensures
            final(self).tokens == old(self).tokens,
            final(self).src == old(self).src,
            final(self).project.name == old(self).project.name,
            final(self).project.kind == old(self).project.kind,
            final(self).project.root.kind == old(self).project.root.kind,
            ({
                let (items, diag) = sp_parse(old(self).tview());
                &&& items_view(final(self).project.root.items@) == items
                &&& match diag {
                    Some(d) => final(self).errors.deep_view() == seq![d],
                    None => final(self).errors@.len() == 0,
                }
            }),
    {
        if self.tokens.len() == 0 {
            proof {
                lemma_items_view_elems(self.project.root.items@);
                assert(items_view(self.project.root.items@) =~= Seq::<crate::ast::ItemV>::empty());
            }
            return ;
        }
        proof {
            lemma_items_view_elems(self.project.root.items@);
            assert(self.project.root.items.deep_view() =~= Seq::<crate::ast::ItemV>::empty());
        }
        loop
            invariant
                self.inv(),
                self.tokens == old(self).tokens,
                self.src == old(self).src,
                self.errors@.len() == 0,
                self.project.name == old(self).project.name,
                self.project.kind == old(self).project.kind,
                self.project.root.kind == old(self).project.root.kind,
                sp_items_loop(old(self).tview(), 0, Seq::empty()) == sp_items_loop(
                    self.tview(),
                    self.cursor as nat,
                    self.project.root.items.deep_view(),
                ),
            decreases self.tview().len() - self.cursor,
        {
            if matches!(self.current().kind, Tokens::EOF) {
                proof {
                    lemma_items_view_elems(self.project.root.items@);
                    assert(items_view(self.project.root.items@) =~= self.project.root.items.deep_view());
                }
                return ;
            }
            let r = self.parse_item();
            match r {
                Ok(item) => {
                    let ghost pre = self.project.root.items.deep_view();
                    self.project.root.items.push(item);
                    proof {
                        assert(self.project.root.items.deep_view() =~= pre.push(item@));
                    }
                    self.advance();
                },
                Err(e) => {
                    let ghost pre = self.errors.deep_view();
                    self.errors.push(e);
                    proof {
                        assert(pre =~= Seq::<crate::errors::DiagV>::empty());
                        assert(self.errors.deep_view() =~= pre.push(e@));
                        assert(self.errors.deep_view() =~= seq![e@]);
                        lemma_items_view_elems(self.project.root.items@);
                        assert(items_view(self.project.root.items@)
                            =~= self.project.root.items.deep_view());
                    }
                    return ;
                },
            }
        }
    }

    /// A top-level item: an optional `pub`, then a constant, a static, or
    /// a function.
    fn parse_item(&mut self) -> (r: Result<crate::ast::ItemNode, SyntaxError>)
        requires
            old(self).inv(),
        ensures
            final(self).inv(),
            final(self).frame(old(self)),
            final(self).cursor >= old(self).cursor,
            r is Ok ==> final(self).cursor > old(self).cursor,
            match r {
                Ok(n) => sp_item(old(self).tview(), old(self).cursor as nat) == sp_ok(
                    (n@, final(self).cursor as nat),
                ),
                Err(e) => sp_item(old(self).tview(), old(self).cursor as nat) matches Err(d) && d == e@,
            },
        decreases self.tview().len() - self.cursor, 6int,
    {
        let mut public = false;
        if matches!(self.current().kind, Tokens::Keyword(Keywords::Pub)) {
            proof {
                lemma_adv_strict(self.tview(), self.cursor as nat);
            }
            self.advance();
            public = true;
        }
        let t = self.current();
        let t_kind = t.kind;
        let sp_start = t.span.start;
        let sp_end = t.span.end;
        match t_kind {
            Tokens::Keyword(Keywords::Const) => {
                let k = self.parse_const()?;
                Ok(crate::ast::ItemNode { kind: crate::ast::ItemKind::Constant(k), public })
            },
            Tokens::Keyword(Keywords::Static) => {
                let k = self.parse_static()?;
                Ok(crate::ast::ItemNode { kind: crate::ast::ItemKind::Static(k), public })
            },
            Tokens::Keyword(Keywords::Func) => {
                let k = self.parse_function()?;
                Ok(crate::ast::ItemNode { kind: crate::ast::ItemKind::Function(k), public })
            },
            _ => Err(
                SyntaxError::default().ctx(
                    ErrorContext::span(sp_start, sp_end, self.src.clone()),
                ).kind(SyntaxErrorKind::Unexpected(SyntaxErrorSource::Token)),
            ),
        }
    }

    /// A constant `const NAME : TYPE = EXPR ;`.
    fn parse_const(&mut self) -> (r: Result<crate::ast::ConstantNode, SyntaxError>)
        requires
            old(self).inv(),
        ensures
            final(self).inv(),
            final(self).frame(old(self)),
            final(self).cursor >= old(self).cursor,
            r is Ok ==> final(self).cursor > old(self).cursor,
            match r {
                Ok(n) => sp_const(old(self).tview(), old(self).cursor as nat) == sp_ok(
                    (n@, final(self).cursor as nat),
                ),
                Err(e) => sp_const(old(self).tview(), old(self).cursor as nat) matches Err(d) && d == e@,
            },
        decreases self.tview().len() - self.cursor, 1int,
    {
        match self.expect(Tokens::Keyword(Keywords::Const)) {
            Ok(_) => {},
            Err(e) => {
                return Err(e);
            },
        }
        proof {
            lemma_adv_strict(self.tview(), self.cursor as nat);
        }
        self.advance();
        match self.expect(Tokens::Identifier) {
            Ok(_) => {},
            Err(e) => {
                return Err(e);
            },
        }
        proof {
            lemma_wf_value(self.tview(), self.cursor as nat);
            lemma_adv_strict(self.tview(), self.cursor as nat);
        }
        let name = self.current_value();
        self.advance();
        match self.expect(Tokens::Punctuation(Punctuations::Colon)) {
            Ok(_) => {},
            Err(e) => {
                return Err(e);
            },
        }
        proof {
            lemma_adv_strict(self.tview(), self.cursor as nat);
        }
        self.advance();
        let ty = self.parse_type()?;
        proof {
            lemma_adv_strict(self.tview(), self.cursor as nat);
        }
        self.advance();
        match self.expect(
            Tokens::Punctuation(Punctuations::Assignment(crate::tokens::Assignments::Straight)),
        ) {
            Ok(_) => {},
            Err(e) => {
                return Err(e);
            },
        }
        proof {
            lemma_adv_strict(self.tview(), self.cursor as nat);
        }
        self.advance();
        let value = self.parse_expression()?;
        match self.expect(Tokens::Punctuation(Punctuations::Semicolon)) {
            Ok(_) => {},
            Err(e) => {
                return Err(e);
            },
        }
        Ok(crate::ast::ConstantNode { name, ty, value })
    }

    /// A static `static [mut] NAME [: TYPE] = EXPR ;`.
    #[verifier::rlimit(100)]
    fn parse_static(&mut self) -> (r: Result<crate::ast::StaticNode, SyntaxError>)
        requires
            old(self).inv(),
        ensures
            final(self).inv(),
            final(self).frame(old(self)),
            final(self).cursor >= old(self).cursor,
            r is Ok ==> final(self).cursor > old(self).cursor,
            match r {
                Ok(n) => sp_static(old(self).tview(), old(self).cursor as nat) == sp_ok(
                    (n@, final(self).cursor as nat),
                ),
                Err(e) => sp_static(old(self).tview(), old(self).cursor as nat) matches Err(d) && d == e@,
            },
        decreases self.tview().len() - self.cursor, 1int,
    {
        match self.expect(Tokens::Keyword(Keywords::Static)) {
            Ok(_) => {},
            Err(e) => {
                return Err(e);
            },
        }
        proof {
            lemma_adv_strict(self.tview(), self.cursor as nat);
        }
        self.advance();
        let mut mutable = false;
        if matches!(self.current().kind, Tokens::Keyword(Keywords::Mut)) {
            proof {
                lemma_adv_strict(self.tview(), self.cursor as nat);
            }
            self.advance();
            mutable = true;
        }
        match self.expect(Tokens::Identifier) {
            Ok(_) => {},
            Err(e) => {
                return Err(e);
            },
        }
        proof {
            lemma_wf_value(self.tview(), self.cursor as nat);
            lemma_adv_strict(self.tview(), self.cursor as nat);
        }
        let name = self.current_value();
        self.advance();
        let mut ty: Option<TypeNode> = None;
        if matches!(self.current().kind, Tokens::Punctuation(Punctuations::Colon)) {
            proof {
                lemma_adv_strict(self.tview(), self.cursor as nat);
            }
            self.advance();
            let t = self.parse_type()?;
            ty = Some(t);
            proof {
                lemma_adv_strict(self.tview(), self.cursor as nat);
            }
            self.advance();
        }
        match self.expect(
            Tokens::Punctuation(Punctuations::Assignment(crate::tokens::Assignments::Straight)),
        ) {
            Ok(_) => {},
            Err(e) => {
                return Err(e);
            },
        }
        proof {
            lemma_adv_strict(self.tview(), self.cursor as nat);
        }
        self.advance();
        let value = self.parse_expression()?;
        match self.expect(Tokens::Punctuation(Punctuations::Semicolon)) {
            Ok(_) => {},
            Err(e) => {
                return Err(e);
            },
        }
        Ok(crate::ast::StaticNode { name, ty, value, mutable })
    }

    /// A function `func NAME ( ARGS ) [-> TYPE [: TYPE]] BODY`.
    #[verifier::rlimit(100)]
    fn parse_function(&mut self) -> (r: Result<crate::ast::FunctionNode, SyntaxError>)
        requires
            old(self).inv(),
        ensures
            final(self).inv(),
            final(self).frame(old(self)),
            final(self).cursor >= old(self).cursor,
            r is Ok ==> final(self).cursor > old(self).cursor,
            match r {
                Ok(n) => sp_function(old(self).tview(), old(self).cursor as nat) == sp_ok(
                    (crate::ast::function_view(n), final(self).cursor as nat),
                ),
                Err(e) => sp_function(old(self).tview(), old(self).cursor as nat) matches Err(d) && d == e@,
            },
        decreases self.tview().len() - self.cursor, 5int,
    {
        match self.expect(Tokens::Keyword(Keywords::Func)) {
            Ok(_) => {},
            Err(e) => {
                return Err(e);
            },
        }
        proof {
            lemma_adv_strict(self.tview(), self.cursor as nat);
        }
        self.advance();
        match self.expect(Tokens::Identifier) {
            Ok(_) => {},
            Err(e) => {
                return Err(e);
            },
        }
        proof {
            lemma_wf_value(self.tview(), self.cursor as nat);
            lemma_adv_strict(self.tview(), self.cursor as nat);
        }
        let name = self.current_value();
        self.advance();
        let args = self.parse_function_arguments()?;
        proof {
            crate::ast::lemma_args_view_elems(args@);
            assert(crate::ast::args_view(args@) =~= args.deep_view());
        }
        self.advance();
        let mut ty: Option<TypeNode> = None;
        let mut return_var: Option<String> = None;
        if matches!(self.current().kind, Tokens::Punctuation(Punctuations::ReturnSeparator)) {
            proof {
                lemma_adv_strict(self.tview(), self.cursor as nat);
            }
            self.advance();
            let t1 = self.parse_type()?;
            proof {
                lemma_adv_strict(self.tview(), self.cursor as nat);
            }
            self.advance();
            if matches!(self.current().kind, Tokens::Punctuation(Punctuations::Colon)) {
                return_var = Some(t1.raw);
                proof {
                    lemma_adv_strict(self.tview(), self.cursor as nat);
                }
                self.advance();
                let t2 = self.parse_type()?;
                ty = Some(t2);
                proof {
                    lemma_adv_strict(self.tview(), self.cursor as nat);
                }
                self.advance();
            } else {
                ty = Some(t1);
            }
        }
        let body = self.parse_body()?;
        Ok(crate::ast::FunctionNode { name, args, ty, return_var, body })
    }

    /// One argument of a function header, from its name onwards.
    #[verifier::rlimit(100)]
    fn parse_fn_argument(&mut self) -> (r: Result<crate::ast::ArgumentNode, SyntaxError>)
        requires
            old(self).inv(),
        ensures
            final(self).inv(),
            final(self).frame(old(self)),
            final(self).cursor >= old(self).cursor,
            match r {
                Ok(n) => sp_fn_arg(old(self).tview(), old(self).cursor as nat) == sp_ok(
                    (n@, final(self).cursor as nat),
                ),
                Err(e) => sp_fn_arg(old(self).tview(), old(self).cursor as nat) matches Err(d) && d == e@,
            },
        decreases self.tview().len() - self.cursor, 0int,
    {
        match self.expect(Tokens::Identifier) {
            Ok(_) => {},
            Err(e) => {
                return Err(e);
            },
        }
        proof {
            lemma_wf_value(self.tview(), self.cursor as nat);
            lemma_adv_strict(self.tview(), self.cursor as nat);
        }
        let name_t = self.current();
        let nsp_start = name_t.span.start;
        let nsp_end = name_t.span.end;
        let name = self.current_value();
        self.advance();
        let mut ty: Option<TypeNode> = None;
        if matches!(self.current().kind, Tokens::Punctuation(Punctuations::Colon)) {
            proof {
                lemma_adv_strict(self.tview(), self.cursor as nat);
            }
            self.advance();
            let t = self.parse_type()?;
            ty = Some(t);
            proof {
                lemma_adv_strict(self.tview(), self.cursor as nat);
            }
            self.advance();
        }
        let mut default: Option<ExpressionNode> = None;
        if matches!(
            self.current().kind,
            Tokens::Punctuation(Punctuations::Assignment(crate::tokens::Assignments::Straight)),
        ) {
            proof {
                lemma_adv_strict(self.tview(), self.cursor as nat);
            }
            self.advance();
            let e = self.parse_expression()?;
            default = Some(e);
        }
        if ty.is_none() && default.is_none() {
            return Err(
                SyntaxError::default().ctx(
                    ErrorContext::span(nsp_start, nsp_end, self.src.clone()),
                ).kind(SyntaxErrorKind::Expected(SyntaxErrorSource::Token)).msg(
                    "argument requires type or default value",
                ),
            );
        }
        Ok(crate::ast::ArgumentNode { name, ty, default })
    }

    /// The argument list of a function header.
    #[verifier::rlimit(100)]
    #[verifier::spinoff_prover]
    fn parse_function_arguments(&mut self) -> (r: Result<Vec<crate::ast::ArgumentNode>, SyntaxError>)
        requires
            old(self).inv(),
        ensures
            final(self).inv(),
            final(self).frame(old(self)),
            final(self).cursor >= old(self).cursor,
            r is Ok ==> final(self).cursor > old(self).cursor,
            match r {
                Ok(v) => sp_fn_args(old(self).tview(), old(self).cursor as nat) == sp_ok(
                    (v.deep_view(), final(self).cursor as nat),
                ),
                Err(e) => sp_fn_args(old(self).tview(), old(self).cursor as nat) matches Err(d) && d == e@,
            },
        decreases self.tview().len() - self.cursor, 2int,
    {
        match self.expect(Tokens::Punctuation(Punctuations::ParenOpen)) {
            Ok(_) => {},
            Err(e) => {
                return Err(e);
            },
        }
        let mut args: Vec<crate::ast::ArgumentNode> = Vec::new();
        proof {
            assert(args.deep_view() =~= Seq::<crate::ast::ArgV>::empty());
        }
        loop
            invariant
                self.inv(),
                self.frame(old(self)),
                self.cursor >= old(self).cursor,
                tk(self.tview(), self.cursor as nat).kind != Tokens::EOF,
                sp_fn_args(old(self).tview(), old(self).cursor as nat) == sp_fn_args_loop(
                    self.tview(),
                    self.cursor as nat,
                    args.deep_view(),
                ),
            decreases self.tview().len() - self.cursor,
        {
            let ghost t = self.tview();
            let ghost lc = self.cursor as nat;
            let ghost largs = args.deep_view();
            proof {
                lemma_adv_strict(self.tview(), self.cursor as nat);
            }
            self.advance();
            let k = self.current().kind;
            if matches!(k, Tokens::Punctuation(Punctuations::ParenClose)) || k == Tokens::EOF {
                proof {
                    if tk(t, self.cursor as nat).kind == Tokens::Punctuation(
                        Punctuations::ParenClose,
                    ) {
                        assert(sp_fn_args_loop(t, lc, largs) == sp_ok(
                            (largs, self.cursor as nat),
                        ));
                    } else {
                        assert(sp_fn_args_loop(t, lc, largs) is Err);
                    }
                }
                match self.expect(Tokens::Punctuation(Punctuations::ParenClose)) {
                    Ok(_) => {
                        return Ok(args);
                    },
                    Err(e) => {
                        return Err(e);
                    },
                }
            }
            let ghost c1g = self.cursor as nat;
            let arg = self.parse_fn_argument()?;
            let ghost pre_args = args.deep_view();
            let ghost argv = arg@;
            args.push(arg);
            proof {
                assert(args.deep_view() =~= pre_args.push(argv));
                assert(sp_fn_arg(t, c1g) == sp_ok((argv, self.cursor as nat)));
            }
            if !matches!(self.current().kind, Tokens::Punctuation(Punctuations::Comma)) {
                proof {
                    if tk(t, self.cursor as nat).kind == Tokens::Punctuation(
                        Punctuations::ParenClose,
                    ) {
                        assert(sp_fn_args_loop(t, lc, largs) == sp_ok(
                            (largs.push(argv), self.cursor as nat),
                        ));
                    } else {
                        assert(sp_fn_args_loop(t, lc, largs) is Err);
                    }
                }
                match self.expect(Tokens::Punctuation(Punctuations::ParenClose)) {
                    Ok(_) => {
                        return Ok(args);
                    },
                    Err(e) => {
                        return Err(e);
                    },
                }
            }
            proof {
                assert(tk(t, self.cursor as nat).kind == Tokens::Punctuation(
                    Punctuations::Comma,
                ));
                assert(sp_fn_args_loop(t, lc, largs) == sp_fn_args_loop(
                    t,
                    self.cursor as nat,
                    largs.push(argv),
                ));
            }
        }
    }

    /// A body: multi-line in braces, or one element after `=>`.
    fn parse_body(&mut self) -> (r: Result<crate::ast::BodyNode, SyntaxError>)
        requires
            old(self).inv(),
        ensures
            final(self).inv(),
            final(self).frame(old(self)),
            final(self).cursor >= old(self).cursor,
            r is Ok ==> final(self).cursor > old(self).cursor,
            match r {
                Ok(n) => sp_body(old(self).tview(), old(self).cursor as nat) == sp_ok(
                    (crate::ast::body_view(n), final(self).cursor as nat),
                ),
                Err(e) => sp_body(old(self).tview(), old(self).cursor as nat) matches Err(d) && d == e@,
            },
        decreases self.tview().len() - self.cursor, 4int,
    {
        let kinds: Vec<Tokens> = vec![
            Tokens::Punctuation(Punctuations::BraceOpen),
            Tokens::Punctuation(Punctuations::InlineBody),
        ];
        match self.expect_multiple(&kinds) {
            Ok(_) => {},
            Err(e) => {
                proof {
                    assert(kinds@[0] == Tokens::Punctuation(Punctuations::BraceOpen));
                    assert(kinds@[1] == Tokens::Punctuation(Punctuations::InlineBody));
                }
                return Err(e);
            },
        }
        if matches!(self.current().kind, Tokens::Punctuation(Punctuations::BraceOpen)) {
            self.parse_multiline_body()
        } else {
            proof {
                assert(kinds@[0] == Tokens::Punctuation(Punctuations::BraceOpen));
                assert(kinds@[1] == Tokens::Punctuation(Punctuations::InlineBody));
            }
            self.parse_inline_body()
        }
    }

    /// A braced body `{ .. }`.
    fn parse_multiline_body(&mut self) -> (r: Result<crate::ast::BodyNode, SyntaxError>)
        requires
            old(self).inv(),
        ensures
            final(self).inv(),
            final(self).frame(old(self)),
            final(self).cursor >= old(self).cursor,
            r is Ok ==> final(self).cursor > old(self).cursor,
            match r {
                Ok(n) => sp_multiline_body(old(self).tview(), old(self).cursor as nat) == sp_ok(
                    (crate::ast::body_view(n), final(self).cursor as nat),
                ),
                Err(e) => sp_multiline_body(old(self).tview(), old(self).cursor as nat) matches Err(d) && d == e@,
            },
        decreases self.tview().len() - self.cursor, 2int,
    {
        match self.expect(Tokens::Punctuation(Punctuations::BraceOpen)) {
            Ok(_) => {},
            Err(e) => {
                return Err(e);
            },
        }
        let mut els: Vec<crate::ast::BodyElementNode> = Vec::new();
        proof {
            assert(els.deep_view() =~= Seq::<crate::ast::ElemV>::empty());
        }
        loop
            invariant
                self.inv(),
                self.frame(old(self)),
                self.cursor >= old(self).cursor,
                sp_multiline_body(old(self).tview(), old(self).cursor as nat) == (
                match sp_multiline_loop(self.tview(), self.cursor as nat, els.deep_view()) {
                    Ok((e, c)) => sp_ok((crate::ast::BodyV::Multiline(e), c)),
                    Err(d) => Err(d),
                }),
            decreases self.tview().len() - self.cursor,
        {
            let ghost t = self.tview();
            let ghost lc = self.cursor as nat;
            let ghost lels = els.deep_view();
            proof {
                if tk(t, lc).kind != Tokens::EOF {
                    lemma_adv_strict(t, lc);
                }
            }
            self.advance();
            let k = self.current().kind;
            if matches!(k, Tokens::Punctuation(Punctuations::BraceClose)) || k == Tokens::EOF {
                proof {
                    if tk(t, self.cursor as nat).kind == Tokens::Punctuation(
                        Punctuations::BraceClose,
                    ) {
                        assert(sp_multiline_loop(t, lc, lels) == sp_ok(
                            (lels, self.cursor as nat),
                        ));
                    } else {
                        assert(sp_multiline_loop(t, lc, lels) is Err);
                    }
                }
                match self.expect(Tokens::Punctuation(Punctuations::BraceClose)) {
                    Ok(_) => {
                        proof {
                            crate::ast::lemma_elems_view_elems(els@);
                            assert(crate::ast::elems_view(els@) =~= els.deep_view());
                        }
                        let b = crate::ast::BodyNode {
                            kind: crate::ast::BodyKind::Multiline(els),
                        };
                        return Ok(b);
                    },
                    Err(e) => {
                        return Err(e);
                    },
                }
            }
            proof {
                assert(tk(t, lc).kind != Tokens::EOF);
                assert(self.cursor as nat == lc + 1);
            }
            let el = self.parse_body_element()?;
            let ghost pre = els.deep_view();
            els.push(el);
            proof {
                assert(els.deep_view() =~= pre.push(crate::ast::elem_view(el)));
                assert(sp_multiline_loop(t, lc, lels) == sp_multiline_loop(
                    t,
                    self.cursor as nat,
                    els.deep_view(),
                ));
            }
        }
    }

    /// An inline body `=> ELEMENT`.
    #[verifier::rlimit(100)]
    #[verifier::spinoff_prover]
    fn parse_inline_body(&mut self) -> (r: Result<crate::ast::BodyNode, SyntaxError>)
        requires
            old(self).inv(),
        ensures
            final(self).inv(),
            final(self).frame(old(self)),
            final(self).cursor >= old(self).cursor,
            r is Ok ==> final(self).cursor > old(self).cursor,
            match r {
                Ok(n) => sp_inline_body(old(self).tview(), old(self).cursor as nat) == sp_ok(
                    (crate::ast::body_view(n), final(self).cursor as nat),
                ),
                Err(e) => sp_inline_body(old(self).tview(), old(self).cursor as nat) matches Err(d) && d == e@,
            },
        decreases self.tview().len() - self.cursor, 2int,
    {
        match self.expect(Tokens::Punctuation(Punctuations::InlineBody)) {
            Ok(_) => {},
            Err(e) => {
                return Err(e);
            },
        }
        proof {
            lemma_adv_strict(self.tview(), self.cursor as nat);
        }
        self.advance();
        let el = self.parse_body_element()?;
        Ok(crate::ast::BodyNode { kind: crate::ast::BodyKind::Inline(Box::new(el)) })
    }

    /// A body element: a stray semicolon, a nested body, or a statement.
    fn parse_body_element(&mut self) -> (r: Result<crate::ast::BodyElementNode, SyntaxError>)
        requires
            old(self).inv(),
        ensures
            final(self).inv(),
            final(self).frame(old(self)),
            final(self).cursor >= old(self).cursor,
            match r {
                Ok(n) => sp_element(old(self).tview(), old(self).cursor as nat) == sp_ok(
                    (crate::ast::elem_view(n), final(self).cursor as nat),
                ),
                Err(e) => sp_element(old(self).tview(), old(self).cursor as nat) matches Err(d) && d == e@,
            },
        decreases self.tview().len() - self.cursor, 25int,
    {
        let k = self.current().kind;
        if matches!(k, Tokens::Punctuation(Punctuations::Semicolon)) {
            return Ok(
                crate::ast::BodyElementNode { kind: crate::ast::BodyElementKind::Empty },
            );
        }
        if matches!(k, Tokens::Punctuation(Punctuations::BraceOpen)) {
            let b = self.parse_multiline_body()?;
            return Ok(
                crate::ast::BodyElementNode { kind: crate::ast::BodyElementKind::Body(b) },
            );
        }
        let s = self.parse_statement()?;
        Ok(crate::ast::BodyElementNode { kind: crate::ast::BodyElementKind::Statement(s) })
    }

    /// A statement, dispatched on its first token.
    #[verifier::rlimit(100)]
    fn parse_statement(&mut self) -> (r: Result<crate::ast::StatementNode, SyntaxError>)
        requires
            old(self).inv(),
        ensures
            final(self).inv(),
            final(self).frame(old(self)),
            final(self).cursor >= old(self).cursor,
            r is Ok ==> final(self).cursor > old(self).cursor,
            match r {
                Ok(n) => sp_statement(old(self).tview(), old(self).cursor as nat) == sp_ok(
                    (crate::ast::stmt_view(n), final(self).cursor as nat),
                ),
                Err(e) => sp_statement(old(self).tview(), old(self).cursor as nat) matches Err(d) && d == e@,
            },
        decreases self.tview().len() - self.cursor, 24int,
    {
        let k = self.current().kind;
        match k {
            Tokens::Keyword(Keywords::Var) => {
                let v = self.parse_variable_declaration()?;
                Ok(
                    crate::ast::StatementNode {
                        kind: crate::ast::StatementKind::VariableDeclaration(v),
                    },
                )
            },
            Tokens::Keyword(Keywords::Func) => {
                let f = self.parse_function()?;
                Ok(
                    crate::ast::StatementNode {
                        kind: crate::ast::StatementKind::FunctionDeclaration(f),
                    },
                )
            },
            Tokens::Keyword(Keywords::Return) => {
                proof {
                    lemma_adv_strict(self.tview(), self.cursor as nat);
                }
                self.advance();
                let e = self.parse_expression()?;
                match self.expect(Tokens::Punctuation(Punctuations::Semicolon)) {
                    Ok(_) => Ok(
                        crate::ast::StatementNode {
                            kind: crate::ast::StatementKind::Return(e),
                        },
                    ),
                    Err(e2) => Err(e2),
                }
            },
            Tokens::Keyword(Keywords::If) => {
                let i = self.parse_if_statement()?;
                Ok(crate::ast::StatementNode { kind: crate::ast::StatementKind::If(i) })
            },
            Tokens::Keyword(Keywords::While) => {
                let w = self.parse_while_loop()?;
                Ok(crate::ast::StatementNode { kind: crate::ast::StatementKind::WhileLoop(w) })
            },
            _ => {
                let e = self.parse_expression()?;
                match self.expect(Tokens::Punctuation(Punctuations::Semicolon)) {
                    Ok(_) => Ok(
                        crate::ast::StatementNode {
                            kind: crate::ast::StatementKind::Expression(e),
                        },
                    ),
                    Err(e2) => Err(e2),
                }
            },
        }
    }

    /// A variable declaration
    /// `let [mut] NAME [: TYPE] [= EXPR] ;` with at least one of type and
    /// value.
    #[verifier::rlimit(100)]
    fn parse_variable_declaration(&mut self) -> (r: Result<
        crate::ast::VariableDeclarationNode,
        SyntaxError,
    >)
        requires
            old(self).inv(),
        ensures
            final(self).inv(),
            final(self).frame(old(self)),
            final(self).cursor >= old(self).cursor,
            r is Ok ==> final(self).cursor > old(self).cursor,
            match r {
                Ok(n) => sp_var_decl(old(self).tview(), old(self).cursor as nat) == sp_ok(
                    (n@, final(self).cursor as nat),
                ),
                Err(e) => sp_var_decl(old(self).tview(), old(self).cursor as nat) matches Err(d) && d == e@,
            },
        decreases self.tview().len() - self.cursor, 1int,
    {
        match self.expect(Tokens::Keyword(Keywords::Var)) {
            Ok(_) => {},
            Err(e) => {
                return Err(e);
            },
        }
        proof {
            lemma_adv_strict(self.tview(), self.cursor as nat);
        }
        self.advance();
        let mut mutable = false;
        if matches!(self.current().kind, Tokens::Keyword(Keywords::Mut)) {
            proof {
                lemma_adv_strict(self.tview(), self.cursor as nat);
            }
            self.advance();
            mutable = true;
        }
        match self.expect(Tokens::Identifier) {
            Ok(_) => {},
            Err(e) => {
                return Err(e);
            },
        }
        proof {
            lemma_wf_value(self.tview(), self.cursor as nat);
            lemma_adv_strict(self.tview(), self.cursor as nat);
        }
        let name_t = self.current();
        let nsp_start = name_t.span.start;
        let nsp_end = name_t.span.end;
        let name = self.current_value();
        self.advance();
        let mut ty: Option<TypeNode> = None;
        if matches!(self.current().kind, Tokens::Punctuation(Punctuations::Colon)) {
            proof {
                lemma_adv_strict(self.tview(), self.cursor as nat);
            }
            self.advance();
            let t = self.parse_type()?;
            ty = Some(t);
            proof {
                lemma_adv_strict(self.tview(), self.cursor as nat);
            }
            self.advance();
        }
        let mut value: Option<ExpressionNode> = None;
        if matches!(
            self.current().kind,
            Tokens::Punctuation(Punctuations::Assignment(crate::tokens::Assignments::Straight)),
        ) {
            proof {
                lemma_adv_strict(self.tview(), self.cursor as nat);
            }
            self.advance();
            let e = self.parse_expression()?;
            value = Some(e);
        }
        if ty.is_none() && value.is_none() {
            return Err(
                SyntaxError::default().ctx(
                    ErrorContext::span(nsp_start, nsp_end, self.src.clone()),
                ).kind(SyntaxErrorKind::Expected(SyntaxErrorSource::Token)).msg(
                    "variable requires type or default value",
                ),
            );
        }
        match self.expect(Tokens::Punctuation(Punctuations::Semicolon)) {
            Ok(_) => {},
            Err(e) => {
                return Err(e);
            },
        }
        Ok(crate::ast::VariableDeclarationNode { name, ty, value, mutable })
    }

    /// An `if` statement with its optional `else`/`else if` chain.
    #[verifier::rlimit(100)]
    #[verifier::spinoff_prover]
    fn parse_if_statement(&mut self) -> (r: Result<crate::ast::IfNode, SyntaxError>)
        requires
            old(self).inv(),
        ensures
            final(self).inv(),
            final(self).frame(old(self)),
            final(self).cursor >= old(self).cursor,
            r is Ok ==> final(self).cursor > old(self).cursor,
            match r {
                Ok(n) => sp_if(old(self).tview(), old(self).cursor as nat) == sp_ok(
                    (crate::ast::if_view(n), final(self).cursor as nat),
                ),
                Err(e) => sp_if(old(self).tview(), old(self).cursor as nat) matches Err(d) && d == e@,
            },
        decreases self.tview().len() - self.cursor, 23int,
    {
        let ghost t = old(self).tview();
        let ghost c0 = old(self).cursor as nat;
        match self.expect(Tokens::Keyword(Keywords::If)) {
            Ok(_) => {},
            Err(e) => {
                return Err(e);
            },
        }
        proof {
            lemma_adv_strict(self.tview(), self.cursor as nat);
        }
        self.advance();
        let cond = self.parse_expression()?;
        let ghost condv = expr_view(cond);
        let body = self.parse_body()?;
        let ghost bodyv = crate::ast::body_view(body);
        self.advance();
        let ghost c4 = self.cursor as nat;
        if matches!(self.current().kind, Tokens::Keyword(Keywords::Else)) {
            proof {
                lemma_adv_strict(self.tview(), self.cursor as nat);
            }
            self.advance();
            let ghost c5 = self.cursor as nat;
            if matches!(self.current().kind, Tokens::Keyword(Keywords::If)) {
                let nested = self.parse_if_statement()?;
                let ghost nv = crate::ast::if_view(nested);
                let ghost c6 = self.cursor as nat;
                proof {
                    assert(sp_if(t, c5) == sp_ok((nv, c6)));
                    assert(sp_if(t, c0) == sp_ok(
                        (
                            crate::ast::IfV {
                                kind: crate::ast::IfKindV::If {
                                    cond: condv,
                                    else_branch: Some(Box::new(nv)),
                                },
                                body: bodyv,
                            },
                            c6,
                        ),
                    ));
                }
                let r = crate::ast::IfNode {
                    kind: crate::ast::IfKind::If { cond, else_branch: Some(Box::new(nested)) },
                    body,
                };
                return Ok(r);
            } else {
                let eb = self.parse_body()?;
                let ghost ebv = crate::ast::body_view(eb);
                let ghost c6 = self.cursor as nat;
                let inner = crate::ast::IfNode { kind: crate::ast::IfKind::Else, body: eb };
                proof {
                    assert(crate::ast::if_view(inner) == (crate::ast::IfV {
                        kind: crate::ast::IfKindV::Else,
                        body: ebv,
                    }));
                    assert(sp_if(t, c0) == sp_ok(
                        (
                            crate::ast::IfV {
                                kind: crate::ast::IfKindV::If {
                                    cond: condv,
                                    else_branch: Some(Box::new(crate::ast::if_view(inner))),
                                },
                                body: bodyv,
                            },
                            c6,
                        ),
                    ));
                }
                let r = crate::ast::IfNode {
                    kind: crate::ast::IfKind::If {
                        cond,
                        else_branch: Some(Box::new(inner)),
                    },
                    body,
                };
                proof {
                    assert(crate::ast::if_view(r).kind == (crate::ast::IfKindV::If {
                        cond: condv,
                        else_branch: Some(Box::new(crate::ast::if_view(inner))),
                    }));
                }
                return Ok(r);
            }
        }
        proof {
            assert(sp_if(t, c0) == sp_ok(
                (
                    crate::ast::IfV {
                        kind: crate::ast::IfKindV::If { cond: condv, else_branch: None },
                        body: bodyv,
                    },
                    c4,
                ),
            ));
        }
        Ok(
            crate::ast::IfNode {
                kind: crate::ast::IfKind::If { cond, else_branch: None },
                body,
            },
        )
    }

    /// A `while` loop with its optional `else`/`else while` chain.
    #[verifier::rlimit(100)]
    #[verifier::spinoff_prover]
    fn parse_while_loop(&mut self) -> (r: Result<crate::ast::WhileLoopNode, SyntaxError>)
        requires
            old(self).inv(),
        ensures
            final(self).inv(),
            final(self).frame(old(self)),
            final(self).cursor >= old(self).cursor,
            r is Ok ==> final(self).cursor > old(self).cursor,
            match r {
                Ok(n) => sp_while(old(self).tview(), old(self).cursor as nat) == sp_ok(
                    (crate::ast::while_view(n), final(self).cursor as nat),
                ),
                Err(e) => sp_while(old(self).tview(), old(self).cursor as nat) matches Err(d) && d == e@,
            },
        decreases self.tview().len() - self.cursor, 23int,
    {
        let ghost t = old(self).tview();
        let ghost c0 = old(self).cursor as nat;
        match self.expect(Tokens::Keyword(Keywords::While)) {
            Ok(_) => {},
            Err(e) => {
                return Err(e);
            },
        }
        proof {
            lemma_adv_strict(self.tview(), self.cursor as nat);
        }
        self.advance();
        let cond = self.parse_expression()?;
        let ghost condv = expr_view(cond);
        let body = self.parse_body()?;
        let ghost bodyv = crate::ast::body_view(body);
        self.advance();
        let ghost c4 = self.cursor as nat;
        if matches!(self.current().kind, Tokens::Keyword(Keywords::Else)) {
            proof {
                lemma_adv_strict(self.tview(), self.cursor as nat);
            }
            self.advance();
            let ghost c5 = self.cursor as nat;
            if matches!(self.current().kind, Tokens::Keyword(Keywords::While)) {
                let nested = self.parse_while_loop()?;
                let ghost nv = crate::ast::while_view(nested);
                let ghost c6 = self.cursor as nat;
                proof {
                    assert(sp_while(t, c5) == sp_ok((nv, c6)));
                    assert(sp_while(t, c0) == sp_ok(
                        (
                            crate::ast::WhileV {
                                kind: crate::ast::WhileKindV::While {
                                    cond: condv,
                                    else_branch: Some(Box::new(nv)),
                                },
                                body: bodyv,
                            },
                            c6,
                        ),
                    ));
                }
                let r = crate::ast::WhileLoopNode {
                    kind: crate::ast::WhileLoopKind::While {
                        cond,
                        else_branch: Some(Box::new(nested)),
                    },
                    body,
                };
                return Ok(r);
            } else {
                let eb = self.parse_body()?;
                let ghost ebv = crate::ast::body_view(eb);
                let ghost c6 = self.cursor as nat;
                let inner = crate::ast::WhileLoopNode {
                    kind: crate::ast::WhileLoopKind::Else,
                    body: eb,
                };
                proof {
                    assert(crate::ast::while_view(inner) == (crate::ast::WhileV {
                        kind: crate::ast::WhileKindV::Else,
                        body: ebv,
                    }));
                    assert(sp_while(t, c0) == sp_ok(
                        (
                            crate::ast::WhileV {
                                kind: crate::ast::WhileKindV::While {
                                    cond: condv,
                                    else_branch: Some(Box::new(crate::ast::while_view(inner))),
                                },
                                body: bodyv,
                            },
                            c6,
                        ),
                    ));
                }
                let r = crate::ast::WhileLoopNode {
                    kind: crate::ast::WhileLoopKind::While {
                        cond,
                        else_branch: Some(Box::new(inner)),
                    },
                    body,
                };
                proof {
                    assert(crate::ast::while_view(r).kind == (crate::ast::WhileKindV::While {
                        cond: condv,
                        else_branch: Some(Box::new(crate::ast::while_view(inner))),
                    }));
                }
                return Ok(r);
            }
        }
        proof {
            assert(sp_while(t, c0) == sp_ok(
                (
                    crate::ast::WhileV {
                        kind: crate::ast::WhileKindV::While { cond: condv, else_branch: None },
                        body: bodyv,
                    },
                    c4,
                ),
            ));
        }
        Ok(
            crate::ast::WhileLoopNode {
                kind: crate::ast::WhileLoopKind::While { cond, else_branch: None },
                body,
            },
        )
    }
}

/// On a well-formed stream, a non-`EOF` token is not the last, so the
/// cursor advances strictly past it.
pub proof fn lemma_adv_strict(toks: Seq<TokenV>, c: nat)
    requires
        wf_toks(toks),
        c < toks.len(),
        tk(toks, c).kind != Tokens::EOF,
    ensures
        adv(toks, c) == c + 1,
        c + 1 < toks.len(),
{
    if c == toks.len() - 1 {
        assert(tk(toks, c).kind == Tokens::EOF);
    }
}

/// On a well-formed stream, identifier and literal tokens carry a lexeme.
pub proof fn lemma_wf_value(toks: Seq<TokenV>, c: nat)
    requires
        wf_toks(toks),
        c < toks.len(),
        tk(toks, c).kind == Tokens::Identifier || tk(toks, c).kind matches Tokens::Literal(_),
    ensures
        tk(toks, c).value is Some,
{
    assert(toks[c as int].value is Some);
}

} // verus!
