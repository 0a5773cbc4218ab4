//! The grammar, written as total functions over the token stream.
//!
//! Each function takes the tokens and a cursor and returns the parsed node
//! together with the cursor after the production, or the diagnostic the
//! parser reports. The executable parser is proved to return exactly these
//! results, diagnostics included. The cursor advances with saturation at the final
//! token, mirroring the executable parser; the guards comparing cursors are
//! never false on a well-formed stream (one `EOF`, last), they only make
//! the recursion visibly well-founded.

use vstd::prelude::*;

use crate::ast::{
    binary_kind_of, kind_of_precedence, spec_precedence, unary_kind_of, ArgV,
    BinaryExpressionKind, BodyV, ConstV, ElemV, ExprV, FunctionV, IfKindV, IfV, ItemKindV, ItemV,
    ResolutionExpressionKind, StaticV, StmtV, TypeV, VarDeclV, WhileKindV, WhileV,
};
use crate::errors::{CtxV, DiagV, SyntaxErrorKind, SyntaxErrorSource};
use crate::tokens::{tokens_str, Assignments, Keywords, Punctuations, TokenV, Tokens};

verus! {

/// The diagnostic for an unmet token expectation: `expected <kind>`,
/// anchored at the previous token's end, or at the current token's start
/// when there is no previous token.
pub open spec fn sp_expected(toks: Seq<TokenV>, c: nat, kind: Tokens) -> DiagV {
    DiagV {
        kind: Some(SyntaxErrorKind::Expected(SyntaxErrorSource::Token)),
        msg: Some("expected "@ + tokens_str(kind)),
        ctx: Some(
            CtxV::Point(
                if c > 0 {
                    tk(toks, (c - 1) as nat).span.end
                } else {
                    tk(toks, c).span.start
                },
            ),
        ),
    }
}

/// The message listing the first `j` acceptable kinds, joined by `or`.
pub open spec fn sp_kinds_msg_to(kinds: Seq<Tokens>, j: int) -> Seq<char>
    decreases j,
{
    if j <= 0 {
        Seq::empty()
    } else {
        sp_kinds_msg_to(kinds, j - 1) + (if j - 1 > 0 {
            " or "@
        } else {
            Seq::empty()
        }) + tokens_str(kinds[j - 1])
    }
}

/// The diagnostic for a token matching none of several acceptable kinds,
/// anchored at the current token's span.
pub open spec fn sp_expected_of(toks: Seq<TokenV>, c: nat, kinds: Seq<Tokens>) -> DiagV {
    DiagV {
        kind: Some(SyntaxErrorKind::Expected(SyntaxErrorSource::Token)),
        msg: Some("expected "@ + sp_kinds_msg_to(kinds, kinds.len() as int)),
        ctx: Some(CtxV::Span(tk(toks, c).span)),
    }
}

/// The diagnostic for a token that cannot stand where it does, over its
/// span, with an optional explanation.
pub open spec fn sp_unexpected(toks: Seq<TokenV>, c: nat, msg: Option<Seq<char>>) -> DiagV {
    DiagV {
        kind: Some(SyntaxErrorKind::Unexpected(SyntaxErrorSource::Token)),
        msg,
        ctx: Some(CtxV::Span(tk(toks, c).span)),
    }
}

/// The diagnostic for an expression expected at the end of input, at the
/// current token's start.
pub open spec fn sp_expected_expression(toks: Seq<TokenV>, c: nat) -> DiagV {
    DiagV {
        kind: Some(SyntaxErrorKind::Expected(SyntaxErrorSource::Expression)),
        msg: None,
        ctx: Some(CtxV::Point(tk(toks, c).span.start)),
    }
}

/// The diagnostic for a binding with neither a type nor a value, over the
/// name's span.
pub open spec fn sp_required(toks: Seq<TokenV>, c: nat, msg: Seq<char>) -> DiagV {
    DiagV {
        kind: Some(SyntaxErrorKind::Expected(SyntaxErrorSource::Token)),
        msg: Some(msg),
        ctx: Some(CtxV::Span(tk(toks, c).span)),
    }
}

/// A placeholder for the cursor-saturation guards; on a well-formed
/// stream those guards never fail, so the parser never returns it.
pub open spec fn sp_stuck() -> DiagV {
    DiagV { kind: None, msg: None, ctx: None }
}

/// An accepted production, for writing grammar results in contracts.
pub open spec fn sp_ok<T>(t: T) -> Result<T, DiagV> {
    Ok(t)
}

/// The token under a cursor.
pub open spec fn tk(toks: Seq<TokenV>, c: nat) -> TokenV {
    toks[c as int]
}

/// The lexeme a token carries, if any.
pub open spec fn tok_val(t: TokenV) -> Seq<char> {
    match t.value {
        Some(v) => v,
        None => Seq::empty(),
    }
}

/// Advancing the cursor, saturating at the last token.
pub open spec fn adv(toks: Seq<TokenV>, c: nat) -> nat {
    if c + 1 < toks.len() {
        (c + 1) as nat
    } else {
        c
    }
}

/// A well-formed token stream: it ends in `EOF`, no other token is `EOF`,
/// and every identifier or literal token carries its lexeme.
pub open spec fn wf_toks(toks: Seq<TokenV>) -> bool {
    &&& toks.len() >= 1
    &&& toks[toks.len() - 1].kind == Tokens::EOF
    &&& forall|i: int| 0 <= i < toks.len() - 1 ==> (#[trigger] toks[i]).kind != Tokens::EOF
    &&& forall|i: int|
        0 <= i < toks.len() && ((#[trigger] toks[i]).kind == Tokens::Identifier
            || toks[i].kind matches Tokens::Literal(_)) ==> toks[i].value is Some
}

/// A type: an identifier, left under the cursor.
pub open spec fn sp_type(toks: Seq<TokenV>, c: nat) -> Result<(TypeV, nat), DiagV> {
    if tk(toks, c).kind == Tokens::Identifier {
        Ok((TypeV { raw: tok_val(tk(toks, c)) }, c))
    } else {
        Err(sp_expected(toks, c, Tokens::Identifier))
    }
}

/// A primary expression: an identifier, a literal, a parenthesized
/// expression, or a unary operator applied to a primary expression.
pub open spec fn sp_primary(toks: Seq<TokenV>, c: nat) -> Result<(ExprV, nat), DiagV>
    decreases toks.len() - c, 1int,
{
    let t = tk(toks, c);
    match t.kind {
        Tokens::Identifier => Ok((ExprV::Identifier { name: tok_val(t) }, c)),
        Tokens::Literal(l) => Ok((ExprV::Literal { kind: l, value: tok_val(t) }, c)),
        Tokens::Punctuation(pk) => {
            if pk == Punctuations::ParenOpen {
                let c1 = adv(toks, c);
                if c1 > c {
                    match sp_expression(toks, c1) {
                        Ok((e, c2)) => {
                            if tk(toks, c2).kind == Tokens::Punctuation(Punctuations::ParenClose) {
                                Ok((e, c2))
                            } else {
                                Err(sp_expected(toks, c2, Tokens::Punctuation(Punctuations::ParenClose)))
                            }
                        },
                        Err(d) => Err(d),
                    }
                } else {
                    Err(sp_stuck())
                }
            } else if pk == Punctuations::ParenClose || pk == Punctuations::BraceOpen || pk
                == Punctuations::BraceClose || pk == Punctuations::BracketOpen || pk
                == Punctuations::BracketClose || pk == Punctuations::Semicolon || pk
                == Punctuations::Comma {
                Err(
                    sp_unexpected(
                        toks,
                        c,
                        Some("specified token cannot be used for expressions"@),
                    ),
                )
            } else {
                match unary_kind_of(pk) {
                    Some(uk) => {
                        let c1 = adv(toks, c);
                        if c1 > c {
                            match sp_primary(toks, c1) {
                                Ok((r, c2)) => Ok(
                                    (ExprV::Unary { kind: uk, op: pk, right: Box::new(r) }, c2),
                                ),
                                Err(d) => Err(d),
                            }
                        } else {
                            Err(sp_stuck())
                        }
                    },
                    None => Err(
                        sp_unexpected(
                            toks,
                            c,
                            Some("specified token is not a unary operator"@),
                        ),
                    ),
                }
            }
        },
        _ => Err(sp_unexpected(toks, c, Some("specified token cannot be used for expressions"@))),
    }
}

/// The left-associative tail of a resolution chain: while the next token is
/// `.` or `::`, bind another primary expression.
pub open spec fn sp_resolution_loop(toks: Seq<TokenV>, c: nat, left: ExprV) -> Result<(ExprV, nat), DiagV>
    decreases toks.len() - c, 2int,
{
    let c1 = adv(toks, c);
    let t1 = tk(toks, c1);
    if t1.kind == Tokens::Punctuation(Punctuations::MemberSeparator) || t1.kind
        == Tokens::Punctuation(Punctuations::NamespaceSeparator) {
        let kind = if t1.kind == Tokens::Punctuation(Punctuations::MemberSeparator) {
            ResolutionExpressionKind::Member
        } else {
            ResolutionExpressionKind::Namespace
        };
        let c2 = adv(toks, c1);
        match sp_primary(toks, c2) {
            Ok((r, c3)) => {
                if c3 > c && c3 <= toks.len() {
                    sp_resolution_loop(
                        toks,
                        c3,
                        ExprV::Resolution { left: Box::new(left), right: Box::new(r), kind },
                    )
                } else {
                    Err(sp_stuck())
                }
            },
            Err(d) => Err(d),
        }
    } else {
        Ok((left, c1))
    }
}

/// A resolution chain: a primary expression followed by `.`/`::` bindings.
pub open spec fn sp_resolution(toks: Seq<TokenV>, c: nat) -> Result<(ExprV, nat), DiagV>
    decreases toks.len() - c, 3int,
{
    match sp_primary(toks, c) {
        Ok((l, c1)) => {
            if c <= c1 && c1 <= toks.len() {
                sp_resolution_loop(toks, c1, l)
            } else {
                Err(sp_stuck())
            }
        },
        Err(d) => Err(d),
    }
}

/// The comma-separated arguments of a call, after the opening parenthesis.
pub open spec fn sp_call_args_loop(toks: Seq<TokenV>, c: nat, args: Seq<ExprV>) -> Result<(Seq<ExprV>, nat), DiagV>
    decreases toks.len() - c, 1int,
{
    let c1 = adv(toks, c);
    let t1 = tk(toks, c1);
    if t1.kind == Tokens::Punctuation(Punctuations::ParenClose) {
        Ok((args, c1))
    } else if t1.kind == Tokens::EOF {
        Err(sp_expected(toks, c1, Tokens::Punctuation(Punctuations::ParenClose)))
    } else if c1 > c {
        match sp_expression(toks, c1) {
            Ok((e, c2)) => {
                let args2 = args.push(e);
                if tk(toks, c2).kind != Tokens::Punctuation(Punctuations::Comma) {
                    if tk(toks, c2).kind == Tokens::Punctuation(Punctuations::ParenClose) {
                        Ok((args2, c2))
                    } else {
                        Err(sp_expected(toks, c2, Tokens::Punctuation(Punctuations::ParenClose)))
                    }
                } else {
                    if c2 > c && c2 <= toks.len() {
                        sp_call_args_loop(toks, c2, args2)
                    } else {
                        Err(sp_stuck())
                    }
                }
            },
            Err(d) => Err(d),
        }
    } else {
        Err(sp_stuck())
    }
}

/// A call argument list `( .. )`.
pub open spec fn sp_call_args(toks: Seq<TokenV>, c: nat) -> Result<(Seq<ExprV>, nat), DiagV>
    decreases toks.len() - c, 2int,
{
    if tk(toks, c).kind == Tokens::Punctuation(Punctuations::ParenOpen) {
        sp_call_args_loop(toks, c, Seq::empty())
    } else {
        Err(sp_expected(toks, c, Tokens::Punctuation(Punctuations::ParenOpen)))
    }
}

/// A call of `res`, chaining further calls left-associatively.
pub open spec fn sp_call_expression(toks: Seq<TokenV>, c: nat, res: ExprV) -> Result<(ExprV, nat), DiagV>
    decreases toks.len() - c, 3int,
{
    match sp_call_args(toks, c) {
        Ok((args, c1)) => {
            let e = ExprV::Call { res: Box::new(res), args };
            let c2 = adv(toks, c1);
            if tk(toks, c2).kind == Tokens::Punctuation(Punctuations::ParenOpen) {
                if c2 > c && c2 <= toks.len() {
                    sp_call_expression(toks, c2, e)
                } else {
                    Err(sp_stuck())
                }
            } else {
                Ok((e, c2))
            }
        },
        Err(d) => Err(d),
    }
}

/// A resolution chain, called if an argument list follows.
pub open spec fn sp_call_or_resolution(toks: Seq<TokenV>, c: nat) -> Result<(ExprV, nat), DiagV>
    decreases toks.len() - c, 4int,
{
    match sp_resolution(toks, c) {
        Ok((r, c1)) => {
            if tk(toks, c1).kind == Tokens::Punctuation(Punctuations::ParenOpen) {
                if c <= c1 && c1 <= toks.len() {
                    sp_call_expression(toks, c1, r)
                } else {
                    Err(sp_stuck())
                }
            } else {
                Ok((r, c1))
            }
        },
        Err(d) => Err(d),
    }
}

/// One operand at a binary level: the next tighter level, or at the
/// tightest, a call or resolution.
pub open spec fn sp_operand(toks: Seq<TokenV>, c: nat, k: BinaryExpressionKind) -> Result<(ExprV, nat), DiagV>
    decreases toks.len() - c, 2 * (3 - spec_precedence(k)) + 5,
{
    match kind_of_precedence(spec_precedence(k) + 1) {
        Some(k2) => sp_binary(toks, c, k2),
        None => sp_call_or_resolution(toks, c),
    }
}

/// The left-associative tail of a binary level: while the next token is an
/// operator of exactly this level, bind another operand. An assignment
/// operator, `=>`, any other punctuation, or a non-punctuation ends the
/// level.
pub open spec fn sp_binary_loop(
    toks: Seq<TokenV>,
    c: nat,
    k: BinaryExpressionKind,
    expr: ExprV,
) -> Result<(ExprV, nat), DiagV>
    decreases toks.len() - c, 1int,
{
    match tk(toks, c).kind {
        Tokens::Punctuation(pk) => {
            if pk matches Punctuations::Assignment(_) || pk == Punctuations::InlineBody {
                Ok((expr, c))
            } else {
                match binary_kind_of(pk) {
                    Some(bk) => {
                        if bk == k {
                            let c1 = adv(toks, c);
                            if c1 > c {
                                match sp_operand(toks, c1, k) {
                                    Ok((r, c2)) => {
                                        if c2 > c && c2 <= toks.len() {
                                            sp_binary_loop(
                                                toks,
                                                c2,
                                                k,
                                                ExprV::Binary {
                                                    kind: bk,
                                                    left: Box::new(expr),
                                                    op: pk,
                                                    right: Box::new(r),
                                                },
                                            )
                                        } else {
                                            Err(sp_stuck())
                                        }
                                    },
                                    Err(d) => Err(d),
                                }
                            } else {
                                Err(sp_stuck())
                            }
                        } else {
                            Ok((expr, c))
                        }
                    },
                    None => Ok((expr, c)),
                }
            }
        },
        _ => Ok((expr, c)),
    }
}

/// A binary expression at one level.
pub open spec fn sp_binary(toks: Seq<TokenV>, c: nat, k: BinaryExpressionKind) -> Result<(ExprV, nat), DiagV>
    decreases toks.len() - c, 2 * (3 - spec_precedence(k)) + 6,
{
    match sp_operand(toks, c, k) {
        Ok((e, c1)) => {
            if c <= c1 && c1 <= toks.len() {
                sp_binary_loop(toks, c1, k, e)
            } else {
                Err(sp_stuck())
            }
        },
        Err(d) => Err(d),
    }
}

/// An assignment, right-associative: a binary expression, then optionally
/// an assignment operator and another assignment.
pub open spec fn sp_assignment(toks: Seq<TokenV>, c: nat) -> Result<(ExprV, nat), DiagV>
    decreases toks.len() - c, 21int,
{
    match sp_binary(toks, c, BinaryExpressionKind::LogicalAnd) {
        Ok((l, c1)) => {
            match tk(toks, c1).kind {
                Tokens::Punctuation(Punctuations::Assignment(ak)) => {
                    let c2 = adv(toks, c1);
                    if c2 > c && c2 <= toks.len() {
                        match sp_assignment(toks, c2) {
                            Ok((r, c3)) => Ok(
                                (
                                    ExprV::Assignment {
                                        left: Box::new(l),
                                        op: ak,
                                        right: Box::new(r),
                                    },
                                    c3,
                                ),
                            ),
                            Err(d) => Err(d),
                        }
                    } else {
                        Err(sp_stuck())
                    }
                },
                _ => Ok((l, c1)),
            }
        },
        Err(d) => Err(d),
    }
}

/// A full expression; rejected outright at `EOF`.
pub open spec fn sp_expression(toks: Seq<TokenV>, c: nat) -> Result<(ExprV, nat), DiagV>
    decreases toks.len() - c, 22int,
{
    if tk(toks, c).kind == Tokens::EOF {
        Err(sp_expected_expression(toks, c))
    } else {
        sp_assignment(toks, c)
    }
}

/// A variable declaration
/// `let [mut] NAME [: TYPE] [= EXPR] ;` with at least one of type and value.
pub open spec fn sp_var_decl(toks: Seq<TokenV>, c: nat) -> Result<(VarDeclV, nat), DiagV>
    decreases toks.len() - c, 1int,
{
    if tk(toks, c).kind != Tokens::Keyword(Keywords::Var) {
        Err(sp_expected(toks, c, Tokens::Keyword(Keywords::Var)))
    } else {
        let c1 = adv(toks, c);
        let mutable = tk(toks, c1).kind == Tokens::Keyword(Keywords::Mut);
        let c2 = if mutable {
            adv(toks, c1)
        } else {
            c1
        };
        if tk(toks, c2).kind != Tokens::Identifier {
            Err(sp_expected(toks, c2, Tokens::Identifier))
        } else {
            let name = tok_val(tk(toks, c2));
            let c3 = adv(toks, c2);
            let ty_step: Result<(Option<TypeV>, nat), DiagV> = if tk(toks, c3).kind
                == Tokens::Punctuation(Punctuations::Colon) {
                match sp_type(toks, adv(toks, c3)) {
                    Ok((t, cb)) => Ok((Some(t), adv(toks, cb))),
                    Err(d) => Err(d),
                }
            } else {
                Ok((None, c3))
            };
            match ty_step {
                Ok((ty, c4)) => {
                    let val_step: Result<(Option<ExprV>, nat), DiagV> = if tk(toks, c4).kind
                        == Tokens::Punctuation(
                        Punctuations::Assignment(Assignments::Straight),
                    ) {
                        let cc = adv(toks, c4);
                        if cc > c && cc <= toks.len() {
                            match sp_expression(toks, cc) {
                                Ok((e, cd)) => Ok((Some(e), cd)),
                                Err(d) => Err(d),
                            }
                        } else {
                            Err(sp_stuck())
                        }
                    } else {
                        Ok((None, c4))
                    };
                    match val_step {
                        Ok((value, c5)) => {
                            if ty is None && value is None {
                                Err(sp_required(toks, c2, "variable requires type or default value"@))
                            } else if tk(toks, c5).kind == Tokens::Punctuation(
                                Punctuations::Semicolon,
                            ) {
                                Ok((VarDeclV { name, ty, value, mutable }, c5))
                            } else {
                                Err(sp_expected(toks, c5, Tokens::Punctuation(Punctuations::Semicolon)))
                            }
                        },
                        Err(d) => Err(d),
                    }
                },
                Err(d) => Err(d),
            }
        }
    }
}

/// One argument of a function header, from its name onwards:
/// `NAME [: TYPE] [= EXPR]`, with at least one of type and default.
pub open spec fn sp_fn_arg(toks: Seq<TokenV>, c: nat) -> Result<(ArgV, nat), DiagV>
    decreases toks.len() - c, 0int,
{
    let t = tk(toks, c);
    if t.kind != Tokens::Identifier {
        Err(sp_expected(toks, c, Tokens::Identifier))
    } else {
        let name = tok_val(t);
        let c2 = adv(toks, c);
        let ty_step: Result<(Option<TypeV>, nat), DiagV> = if tk(toks, c2).kind == Tokens::Punctuation(
            Punctuations::Colon,
        ) {
            match sp_type(toks, adv(toks, c2)) {
                Ok((t, cb)) => Ok((Some(t), adv(toks, cb))),
                Err(d) => Err(d),
            }
        } else {
            Ok((None, c2))
        };
        match ty_step {
            Ok((ty, c3)) => {
                let df_step: Result<(Option<ExprV>, nat), DiagV> = if tk(toks, c3).kind
                    == Tokens::Punctuation(Punctuations::Assignment(Assignments::Straight)) {
                    let cc = adv(toks, c3);
                    if cc > c && cc <= toks.len() {
                        match sp_expression(toks, cc) {
                            Ok((e, cd)) => Ok((Some(e), cd)),
                            Err(d) => Err(d),
                        }
                    } else {
                        Err(sp_stuck())
                    }
                } else {
                    Ok((None, c3))
                };
                match df_step {
                    Ok((df, c4)) => {
                        if ty is None && df is None {
                            Err(sp_required(toks, c, "argument requires type or default value"@))
                        } else {
                            Ok((ArgV { name, ty, default: df }, c4))
                        }
                    },
                    Err(d) => Err(d),
                }
            },
            Err(d) => Err(d),
        }
    }
}

/// The comma-separated arguments of a function header, after the opening
/// parenthesis.
pub open spec fn sp_fn_args_loop(toks: Seq<TokenV>, c: nat, args: Seq<ArgV>) -> Result<(Seq<ArgV>, nat), DiagV>
    decreases toks.len() - c, 1int,
{
    let c1 = adv(toks, c);
    let t1 = tk(toks, c1);
    if t1.kind == Tokens::Punctuation(Punctuations::ParenClose) {
        Ok((args, c1))
    } else if t1.kind == Tokens::EOF {
        Err(sp_expected(toks, c1, Tokens::Punctuation(Punctuations::ParenClose)))
    } else if c1 > c && c1 <= toks.len() {
        match sp_fn_arg(toks, c1) {
            Ok((a, c4)) => {
                let args2 = args.push(a);
                if tk(toks, c4).kind != Tokens::Punctuation(Punctuations::Comma) {
                    if tk(toks, c4).kind == Tokens::Punctuation(Punctuations::ParenClose) {
                        Ok((args2, c4))
                    } else {
                        Err(sp_expected(toks, c4, Tokens::Punctuation(Punctuations::ParenClose)))
                    }
                } else {
                    if c4 > c && c4 <= toks.len() {
                        sp_fn_args_loop(toks, c4, args2)
                    } else {
                        Err(sp_stuck())
                    }
                }
            },
            Err(d) => Err(d),
        }
    } else {
        Err(sp_stuck())
    }
}

/// A function argument list `( .. )`.
pub open spec fn sp_fn_args(toks: Seq<TokenV>, c: nat) -> Result<(Seq<ArgV>, nat), DiagV>
    decreases toks.len() - c, 2int,
{
    if tk(toks, c).kind == Tokens::Punctuation(Punctuations::ParenOpen) {
        sp_fn_args_loop(toks, c, Seq::empty())
    } else {
        Err(sp_expected(toks, c, Tokens::Punctuation(Punctuations::ParenOpen)))
    }
}

/// A function
/// `func NAME ( ARGS ) [-> TYPE [: TYPE]] BODY`; with the long return form
/// the first type names the return variable and the second is the type.
pub open spec fn sp_function(toks: Seq<TokenV>, c: nat) -> Result<(FunctionV, nat), DiagV>
    decreases toks.len() - c, 5int,
{
    if tk(toks, c).kind != Tokens::Keyword(Keywords::Func) {
        Err(sp_expected(toks, c, Tokens::Keyword(Keywords::Func)))
    } else {
        let c1 = adv(toks, c);
        if tk(toks, c1).kind != Tokens::Identifier {
            Err(sp_expected(toks, c1, Tokens::Identifier))
        } else {
            let name = tok_val(tk(toks, c1));
            let c2 = adv(toks, c1);
            if c2 > c {
                match sp_fn_args(toks, c2) {
                    Ok((args, c3)) => {
                        if !(c3 > c && c3 <= toks.len()) {
                            Err(sp_stuck())
                        } else {
                        let c4 = adv(toks, c3);
                        let ret_step: Result<(Option<TypeV>, Option<Seq<char>>, nat), DiagV> = if tk(
                            toks,
                            c4,
                        ).kind == Tokens::Punctuation(Punctuations::ReturnSeparator) {
                            match sp_type(toks, adv(toks, c4)) {
                                Ok((t1, cb)) => {
                                    if !(cb > c && cb <= toks.len()) {
                                        Err(sp_stuck())
                                    } else {
                                    let cc = adv(toks, cb);
                                    if tk(toks, cc).kind == Tokens::Punctuation(
                                        Punctuations::Colon,
                                    ) {
                                        match sp_type(toks, adv(toks, cc)) {
                                            Ok((t2, ce)) => Ok(
                                                (Some(t2), Some(t1.raw), adv(toks, ce)),
                                            ),
                                            Err(d) => Err(d),
                                        }
                                    } else {
                                        Ok((Some(t1), None, cc))
                                    }
                                    }
                                },
                                Err(d) => Err(d),
                            }
                        } else {
                            Ok((None, None, c4))
                        };
                        match ret_step {
                            Ok((ty, return_var, c5)) => {
                                if c5 > c && c5 <= toks.len() {
                                    match sp_body(toks, c5) {
                                        Ok((body, c6)) => Ok(
                                            (FunctionV { name, args, ty, return_var, body }, c6),
                                        ),
                                        Err(d) => Err(d),
                                    }
                                } else {
                                    Err(sp_stuck())
                                }
                            },
                            Err(d) => Err(d),
                        }
                        }
                    },
                    Err(d) => Err(d),
                }
            } else {
                Err(sp_stuck())
            }
        }
    }
}

/// A body: multi-line in braces, or one element after `=>`.
pub open spec fn sp_body(toks: Seq<TokenV>, c: nat) -> Result<(BodyV, nat), DiagV>
    decreases toks.len() - c, 4int,
{
    if tk(toks, c).kind == Tokens::Punctuation(Punctuations::BraceOpen) {
        sp_multiline_body(toks, c)
    } else if tk(toks, c).kind == Tokens::Punctuation(Punctuations::InlineBody) {
        sp_inline_body(toks, c)
    } else {
        Err(sp_expected_of(
            toks,
            c,
            seq![
                Tokens::Punctuation(Punctuations::BraceOpen),
                Tokens::Punctuation(Punctuations::InlineBody),
            ],
        ))
    }
}

/// The elements of a braced body, up to the closing brace.
pub open spec fn sp_multiline_loop(toks: Seq<TokenV>, c: nat, els: Seq<ElemV>) -> Result<(Seq<ElemV>, nat), DiagV>
    decreases toks.len() - c, 1int,
{
    let c1 = adv(toks, c);
    let t1 = tk(toks, c1);
    if t1.kind == Tokens::Punctuation(Punctuations::BraceClose) {
        Ok((els, c1))
    } else if t1.kind == Tokens::EOF {
        Err(sp_expected(toks, c1, Tokens::Punctuation(Punctuations::BraceClose)))
    } else if c1 > c {
        match sp_element(toks, c1) {
            Ok((el, c2)) => {
                if c2 > c && c2 <= toks.len() {
                    sp_multiline_loop(toks, c2, els.push(el))
                } else {
                    Err(sp_stuck())
                }
            },
            Err(d) => Err(d),
        }
    } else {
        Err(sp_stuck())
    }
}

/// A braced body `{ .. }`.
pub open spec fn sp_multiline_body(toks: Seq<TokenV>, c: nat) -> Result<(BodyV, nat), DiagV>
    decreases toks.len() - c, 2int,
{
    if tk(toks, c).kind == Tokens::Punctuation(Punctuations::BraceOpen) {
        match sp_multiline_loop(toks, c, Seq::empty()) {
            Ok((els, c1)) => Ok((BodyV::Multiline(els), c1)),
            Err(d) => Err(d),
        }
    } else {
        Err(sp_expected(toks, c, Tokens::Punctuation(Punctuations::BraceOpen)))
    }
}

/// An inline body `=> ELEMENT`.
pub open spec fn sp_inline_body(toks: Seq<TokenV>, c: nat) -> Result<(BodyV, nat), DiagV>
    decreases toks.len() - c, 2int,
{
    if tk(toks, c).kind == Tokens::Punctuation(Punctuations::InlineBody) {
        let c1 = adv(toks, c);
        if c1 > c {
            match sp_element(toks, c1) {
                Ok((el, c2)) => Ok((BodyV::Inline(Box::new(el)), c2)),
                Err(d) => Err(d),
            }
        } else {
            Err(sp_stuck())
        }
    } else {
        Err(sp_expected(toks, c, Tokens::Punctuation(Punctuations::InlineBody)))
    }
}

/// A body element: a stray semicolon, a nested braced body, or a
/// statement.
pub open spec fn sp_element(toks: Seq<TokenV>, c: nat) -> Result<(ElemV, nat), DiagV>
    decreases toks.len() - c, 25int,
{
    if tk(toks, c).kind == Tokens::Punctuation(Punctuations::Semicolon) {
        Ok((ElemV::Empty, c))
    } else if tk(toks, c).kind == Tokens::Punctuation(Punctuations::BraceOpen) {
        match sp_multiline_body(toks, c) {
            Ok((b, c1)) => Ok((ElemV::Body(Box::new(b)), c1)),
            Err(d) => Err(d),
        }
    } else {
        match sp_statement(toks, c) {
            Ok((s, c1)) => Ok((ElemV::Statement(s), c1)),
            Err(d) => Err(d),
        }
    }
}

/// An `if` statement with its optional `else`/`else if` chain.
pub open spec fn sp_if(toks: Seq<TokenV>, c: nat) -> Result<(IfV, nat), DiagV>
    decreases toks.len() - c, 23int,
{
    if tk(toks, c).kind != Tokens::Keyword(Keywords::If) {
        Err(sp_expected(toks, c, Tokens::Keyword(Keywords::If)))
    } else {
        let c1 = adv(toks, c);
        if c1 > c {
            match sp_expression(toks, c1) {
                Ok((cond, c2)) => {
                    if c2 > c && c2 <= toks.len() {
                        match sp_body(toks, c2) {
                            Ok((body, c3)) => {
                                let c4 = adv(toks, c3);
                                if tk(toks, c4).kind == Tokens::Keyword(Keywords::Else) {
                                    let c5 = adv(toks, c4);
                                    if tk(toks, c5).kind == Tokens::Keyword(Keywords::If) {
                                        if c5 > c && c5 <= toks.len() {
                                            match sp_if(toks, c5) {
                                                Ok((nested, c6)) => Ok(
                                                    (
                                                        IfV {
                                                            kind: IfKindV::If {
                                                                cond,
                                                                else_branch: Some(
                                                                    Box::new(nested),
                                                                ),
                                                            },
                                                            body,
                                                        },
                                                        c6,
                                                    ),
                                                ),
                                                Err(d) => Err(d),
                                            }
                                        } else {
                                            Err(sp_stuck())
                                        }
                                    } else {
                                        if c5 > c && c5 <= toks.len() {
                                            match sp_body(toks, c5) {
                                                Ok((eb, c6)) => Ok(
                                                    (
                                                        IfV {
                                                            kind: IfKindV::If {
                                                                cond,
                                                                else_branch: Some(
                                                                    Box::new(
                                                                        IfV {
                                                                            kind: IfKindV::Else,
                                                                            body: eb,
                                                                        },
                                                                    ),
                                                                ),
                                                            },
                                                            body,
                                                        },
                                                        c6,
                                                    ),
                                                ),
                                                Err(d) => Err(d),
                                            }
                                        } else {
                                            Err(sp_stuck())
                                        }
                                    }
                                } else {
                                    Ok(
                                        (
                                            IfV {
                                                kind: IfKindV::If { cond, else_branch: None },
                                                body,
                                            },
                                            c4,
                                        ),
                                    )
                                }
                            },
                            Err(d) => Err(d),
                        }
                    } else {
                        Err(sp_stuck())
                    }
                },
                Err(d) => Err(d),
            }
        } else {
            Err(sp_stuck())
        }
    }
}

/// A `while` loop with its optional `else`/`else while` chain.
pub open spec fn sp_while(toks: Seq<TokenV>, c: nat) -> Result<(WhileV, nat), DiagV>
    decreases toks.len() - c, 23int,
{
    if tk(toks, c).kind != Tokens::Keyword(Keywords::While) {
        Err(sp_expected(toks, c, Tokens::Keyword(Keywords::While)))
    } else {
        let c1 = adv(toks, c);
        if c1 > c {
            match sp_expression(toks, c1) {
                Ok((cond, c2)) => {
                    if c2 > c && c2 <= toks.len() {
                        match sp_body(toks, c2) {
                            Ok((body, c3)) => {
                                let c4 = adv(toks, c3);
                                if tk(toks, c4).kind == Tokens::Keyword(Keywords::Else) {
                                    let c5 = adv(toks, c4);
                                    if tk(toks, c5).kind == Tokens::Keyword(Keywords::While) {
                                        if c5 > c && c5 <= toks.len() {
                                            match sp_while(toks, c5) {
                                                Ok((nested, c6)) => Ok(
                                                    (
                                                        WhileV {
                                                            kind: WhileKindV::While {
                                                                cond,
                                                                else_branch: Some(
                                                                    Box::new(nested),
                                                                ),
                                                            },
                                                            body,
                                                        },
                                                        c6,
                                                    ),
                                                ),
                                                Err(d) => Err(d),
                                            }
                                        } else {
                                            Err(sp_stuck())
                                        }
                                    } else {
                                        if c5 > c && c5 <= toks.len() {
                                            match sp_body(toks, c5) {
                                                Ok((eb, c6)) => Ok(
                                                    (
                                                        WhileV {
                                                            kind: WhileKindV::While {
                                                                cond,
                                                                else_branch: Some(
                                                                    Box::new(
                                                                        WhileV {
                                                                            kind:
                                                                                WhileKindV::Else,
                                                                            body: eb,
                                                                        },
                                                                    ),
                                                                ),
                                                            },
                                                            body,
                                                        },
                                                        c6,
                                                    ),
                                                ),
                                                Err(d) => Err(d),
                                            }
                                        } else {
                                            Err(sp_stuck())
                                        }
                                    }
                                } else {
                                    Ok(
                                        (
                                            WhileV {
                                                kind: WhileKindV::While {
                                                    cond,
                                                    else_branch: None,
                                                },
                                                body,
                                            },
                                            c4,
                                        ),
                                    )
                                }
                            },
                            Err(d) => Err(d),
                        }
                    } else {
                        Err(sp_stuck())
                    }
                },
                Err(d) => Err(d),
            }
        } else {
            Err(sp_stuck())
        }
    }
}

/// A statement, dispatched on its first token.
pub open spec fn sp_statement(toks: Seq<TokenV>, c: nat) -> Result<(StmtV, nat), DiagV>
    decreases toks.len() - c, 24int,
{
    match tk(toks, c).kind {
        Tokens::Keyword(Keywords::Var) => match sp_var_decl(toks, c) {
            Ok((v, c1)) => Ok((StmtV::VariableDeclaration(v), c1)),
            Err(d) => Err(d),
        },
        Tokens::Keyword(Keywords::Func) => match sp_function(toks, c) {
            Ok((f, c1)) => Ok((StmtV::FunctionDeclaration(Box::new(f)), c1)),
            Err(d) => Err(d),
        },
        Tokens::Keyword(Keywords::Return) => {
            let c1 = adv(toks, c);
            if c1 > c {
                match sp_expression(toks, c1) {
                    Ok((e, c2)) => {
                        if tk(toks, c2).kind == Tokens::Punctuation(Punctuations::Semicolon) {
                            Ok((StmtV::Return(e), c2))
                        } else {
                            Err(sp_expected(toks, c2, Tokens::Punctuation(Punctuations::Semicolon)))
                        }
                    },
                    Err(d) => Err(d),
                }
            } else {
                Err(sp_stuck())
            }
        },
        Tokens::Keyword(Keywords::If) => match sp_if(toks, c) {
            Ok((i, c1)) => Ok((StmtV::If(Box::new(i)), c1)),
            Err(d) => Err(d),
        },
        Tokens::Keyword(Keywords::While) => match sp_while(toks, c) {
            Ok((w, c1)) => Ok((StmtV::WhileLoop(Box::new(w)), c1)),
            Err(d) => Err(d),
        },
        _ => match sp_expression(toks, c) {
            Ok((e, c2)) => {
                if tk(toks, c2).kind == Tokens::Punctuation(Punctuations::Semicolon) {
                    Ok((StmtV::Expression(e), c2))
                } else {
                    Err(sp_expected(toks, c2, Tokens::Punctuation(Punctuations::Semicolon)))
                }
            },
            Err(d) => Err(d),
        },
    }
}

/// A constant `const NAME : TYPE = EXPR ;`.
pub open spec fn sp_const(toks: Seq<TokenV>, c: nat) -> Result<(ConstV, nat), DiagV>
    decreases toks.len() - c, 1int,
{
    if tk(toks, c).kind != Tokens::Keyword(Keywords::Const) {
        Err(sp_expected(toks, c, Tokens::Keyword(Keywords::Const)))
    } else {
        let c1 = adv(toks, c);
        if tk(toks, c1).kind != Tokens::Identifier {
            Err(sp_expected(toks, c1, Tokens::Identifier))
        } else {
            let name = tok_val(tk(toks, c1));
            let c2 = adv(toks, c1);
            if tk(toks, c2).kind != Tokens::Punctuation(Punctuations::Colon) {
                Err(sp_expected(toks, c2, Tokens::Punctuation(Punctuations::Colon)))
            } else {
                match sp_type(toks, adv(toks, c2)) {
                    Ok((ty, cb)) => {
                        let c3 = adv(toks, cb);
                        if tk(toks, c3).kind != Tokens::Punctuation(
                            Punctuations::Assignment(Assignments::Straight),
                        ) {
                            Err(sp_expected(toks, c3, Tokens::Punctuation(Punctuations::Assignment(Assignments::Straight))))
                        } else {
                            let c4 = adv(toks, c3);
                            if c4 > c && c4 <= toks.len() {
                                match sp_expression(toks, c4) {
                                    Ok((e, c5)) => {
                                        if tk(toks, c5).kind == Tokens::Punctuation(
                                            Punctuations::Semicolon,
                                        ) {
                                            Ok((ConstV { name, ty, value: e }, c5))
                                        } else {
                                            Err(sp_expected(toks, c5, Tokens::Punctuation(Punctuations::Semicolon)))
                                        }
                                    },
                                    Err(d) => Err(d),
                                }
                            } else {
                                Err(sp_stuck())
                            }
                        }
                    },
                    Err(d) => Err(d),
                }
            }
        }
    }
}

/// A static `static [mut] NAME [: TYPE] = EXPR ;`.
pub open spec fn sp_static(toks: Seq<TokenV>, c: nat) -> Result<(StaticV, nat), DiagV>
    decreases toks.len() - c, 1int,
{
    if tk(toks, c).kind != Tokens::Keyword(Keywords::Static) {
        Err(sp_expected(toks, c, Tokens::Keyword(Keywords::Static)))
    } else {
        let c1 = adv(toks, c);
        let mutable = tk(toks, c1).kind == Tokens::Keyword(Keywords::Mut);
        let c2 = if mutable {
            adv(toks, c1)
        } else {
            c1
        };
        if tk(toks, c2).kind != Tokens::Identifier {
            Err(sp_expected(toks, c2, Tokens::Identifier))
        } else {
            let name = tok_val(tk(toks, c2));
            let c3 = adv(toks, c2);
            let ty_step: Result<(Option<TypeV>, nat), DiagV> = if tk(toks, c3).kind
                == Tokens::Punctuation(Punctuations::Colon) {
                match sp_type(toks, adv(toks, c3)) {
                    Ok((t, cb)) => Ok((Some(t), adv(toks, cb))),
                    Err(d) => Err(d),
                }
            } else {
                Ok((None, c3))
            };
            match ty_step {
                Ok((ty, c4)) => {
                    if tk(toks, c4).kind != Tokens::Punctuation(
                        Punctuations::Assignment(Assignments::Straight),
                    ) {
                        Err(sp_expected(toks, c4, Tokens::Punctuation(Punctuations::Assignment(Assignments::Straight))))
                    } else {
                        let c5 = adv(toks, c4);
                        if c5 > c && c5 <= toks.len() {
                            match sp_expression(toks, c5) {
                                Ok((e, c6)) => {
                                    if tk(toks, c6).kind == Tokens::Punctuation(
                                        Punctuations::Semicolon,
                                    ) {
                                        Ok((StaticV { name, ty, value: e, mutable }, c6))
                                    } else {
                                        Err(sp_expected(toks, c6, Tokens::Punctuation(Punctuations::Semicolon)))
                                    }
                                },
                                Err(d) => Err(d),
                            }
                        } else {
                            Err(sp_stuck())
                        }
                    }
                },
                Err(d) => Err(d),
            }
        }
    }
}

/// A top-level item: an optional `pub`, then a constant, a static, or a
/// function.
pub open spec fn sp_item(toks: Seq<TokenV>, c: nat) -> Result<(ItemV, nat), DiagV>
    decreases toks.len() - c, 6int,
{
    let public = tk(toks, c).kind == Tokens::Keyword(Keywords::Pub);
    let c1 = if public {
        adv(toks, c)
    } else {
        c
    };
    match tk(toks, c1).kind {
        Tokens::Keyword(Keywords::Const) => match sp_const(toks, c1) {
            Ok((k, c2)) => Ok((ItemV { kind: ItemKindV::Constant(k), public }, c2)),
            Err(d) => Err(d),
        },
        Tokens::Keyword(Keywords::Static) => match sp_static(toks, c1) {
            Ok((k, c2)) => Ok((ItemV { kind: ItemKindV::Static(k), public }, c2)),
            Err(d) => Err(d),
        },
        Tokens::Keyword(Keywords::Func) => match sp_function(toks, c1) {
            Ok((k, c2)) => Ok((ItemV { kind: ItemKindV::Function(k), public }, c2)),
            Err(d) => Err(d),
        },
        _ => Err(sp_unexpected(toks, c1, None)),
    }
}

/// The top-level loop: items until `EOF`; the first failing item ends the
/// parse with its diagnostic.
pub open spec fn sp_items_loop(toks: Seq<TokenV>, c: nat, items: Seq<ItemV>) -> (Seq<ItemV>, Option<DiagV>)
    decreases toks.len() - c, 7int,
{
    if tk(toks, c).kind == Tokens::EOF {
        (items, None)
    } else {
        match sp_item(toks, c) {
            Ok((it, c1)) => {
                let c2 = adv(toks, c1);
                if c2 > c && c2 <= toks.len() {
                    sp_items_loop(toks, c2, items.push(it))
                } else {
                    (items.push(it), None)
                }
            },
            Err(d) => (items, Some(d)),
        }
    }
}

/// The whole parse: the items of the project root, and the diagnostic of
/// the item that ended it early, if one did.
pub open spec fn sp_parse(toks: Seq<TokenV>) -> (Seq<ItemV>, Option<DiagV>) {
    if toks.len() == 0 {
        (Seq::empty(), None)
    } else {
        sp_items_loop(toks, 0, Seq::empty())
    }
}

} // verus!
