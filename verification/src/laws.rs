//! The properties the front end keeps, stated and proved against the
//! lexer and grammar models.

use vstd::prelude::*;

use crate::grammar::sp_ok;

use crate::ast::{
    binary_kind_of, spec_precedence, wf_arg, wf_args, wf_body, wf_elem, wf_elems, wf_function,
    wf_if, wf_item, wf_items, wf_stmt, wf_var_decl, wf_while, ExprV, ItemKindV,
    ResolutionExpressionKind,
};
use crate::grammar::{
    adv, sp_assignment, sp_binary, sp_body, sp_call_args, sp_call_expression, sp_element,
    sp_expression, sp_fn_arg, sp_fn_args, sp_fn_args_loop, sp_function, sp_if, sp_inline_body,
    sp_item, sp_items_loop, sp_multiline_body, sp_multiline_loop, sp_parse, sp_primary,
    sp_resolution, sp_statement, sp_var_decl, sp_while, tk, tok_val,
};
use crate::lexer::lex_model;
use crate::tokens::{Assignments, Punctuations, TokenV, Tokens};

verus! {

/// Every input, the empty one included, lexes to a token stream whose
/// final token is `EOF`.
pub proof fn lemma_final_token_is_eof(s: Seq<char>)
    ensures
        lex_model(s).toks.len() >= 1,
        lex_model(s).toks.last().kind == Tokens::EOF,
{
}

/// A parsed variable declaration keeps the at-least-one-of invariant.
pub proof fn lemma_wf_var_decl(toks: Seq<TokenV>, c: nat)
    ensures
        match sp_var_decl(toks, c) {
            Ok(vc) => wf_var_decl(vc.0),
            Err(_) => true,
        },
{
}

/// A parsed function argument keeps the at-least-one-of invariant.
pub proof fn lemma_wf_fn_arg(toks: Seq<TokenV>, c: nat)
    ensures
        match sp_fn_arg(toks, c) {
            Ok(ac) => wf_arg(ac.0),
            Err(_) => true,
        },
{
}

/// Every argument of a parsed argument list keeps the invariant.
pub proof fn lemma_wf_fn_args_loop(toks: Seq<TokenV>, c: nat, args: Seq<crate::ast::ArgV>)
    requires
        wf_args(args),
    ensures
        match sp_fn_args_loop(toks, c, args) {
            Ok(ac) => wf_args(ac.0),
            Err(_) => true,
        },
    decreases toks.len() - c, 1int,
{
    let c1 = adv(toks, c);
    let t1 = tk(toks, c1);
    if t1.kind == Tokens::Punctuation(Punctuations::ParenClose) {
    } else if t1.kind == Tokens::EOF {
    } else if c1 > c && c1 <= toks.len() {
        match sp_fn_arg(toks, c1) {
            Ok((a, c4)) => {
                lemma_wf_fn_arg(toks, c1);
                let args2 = args.push(a);
                assert forall|i: int| 0 <= i < args2.len() implies wf_arg(
                    #[trigger] args2[i],
                ) by {
                    if i < args.len() {
                        assert(wf_arg(args[i]));
                    }
                }
                if tk(toks, c4).kind != Tokens::Punctuation(Punctuations::Comma) {
                } else {
                    if c4 > c && c4 <= toks.len() {
                        lemma_wf_fn_args_loop(toks, c4, args2);
                    }
                }
            },
            Err(_) => {},
        }
    } else {
    }
}

/// Every argument of a parsed function header keeps the invariant.
pub proof fn lemma_wf_fn_args(toks: Seq<TokenV>, c: nat)
    ensures
        match sp_fn_args(toks, c) {
            Ok(ac) => wf_args(ac.0),
            Err(_) => true,
        },
{
    if tk(toks, c).kind == Tokens::Punctuation(Punctuations::ParenOpen) {
        assert(wf_args(Seq::<crate::ast::ArgV>::empty()));
        lemma_wf_fn_args_loop(toks, c, Seq::empty());
    }
}

/// A parsed function is well-formed throughout.
#[verifier::rlimit(100)]
pub proof fn lemma_wf_function(toks: Seq<TokenV>, c: nat)
    ensures
        match sp_function(toks, c) {
            Ok(fc) => wf_function(fc.0),
            Err(_) => true,
        },
    decreases toks.len() - c, 5int,
{
    if tk(toks, c).kind != Tokens::Keyword(crate::tokens::Keywords::Func) {
    } else {
        let c1 = adv(toks, c);
        if tk(toks, c1).kind != Tokens::Identifier {
        } else {
            let c2 = adv(toks, c1);
            if c2 > c {
                lemma_wf_fn_args(toks, c2);
                match sp_fn_args(toks, c2) {
                    Ok((args, c3)) => {
                        if c3 > c && c3 <= toks.len() {
                            let c4 = adv(toks, c3);
                            if tk(toks, c4).kind == Tokens::Punctuation(
                                Punctuations::ReturnSeparator,
                            ) {
                                match crate::grammar::sp_type(toks, adv(toks, c4)) {
                                    Ok((t1, cb)) => {
                                        if cb > c && cb <= toks.len() {
                                            let cc = adv(toks, cb);
                                            if tk(toks, cc).kind == Tokens::Punctuation(
                                                Punctuations::Colon,
                                            ) {
                                                match crate::grammar::sp_type(
                                                    toks,
                                                    adv(toks, cc),
                                                ) {
                                                    Ok((t2, ce)) => {
                                                        let c5 = adv(toks, ce);
                                                        if c5 > c && c5 <= toks.len() {
                                                            lemma_wf_body(toks, c5);
                                                        }
                                                    },
                                                    Err(_) => {},
                                                }
                                            } else {
                                                if cc > c && cc <= toks.len() {
                                                    lemma_wf_body(toks, cc);
                                                }
                                            }
                                        }
                                    },
                                    Err(_) => {},
                                }
                            } else {
                                if c4 > c && c4 <= toks.len() {
                                    lemma_wf_body(toks, c4);
                                }
                            }
                        }
                    },
                    Err(_) => {},
                }
            }
        }
    }
}

/// A parsed body is well-formed throughout.
pub proof fn lemma_wf_body(toks: Seq<TokenV>, c: nat)
    ensures
        match sp_body(toks, c) {
            Ok(bc) => wf_body(bc.0),
            Err(_) => true,
        },
    decreases toks.len() - c, 4int,
{
    if tk(toks, c).kind == Tokens::Punctuation(Punctuations::BraceOpen) {
        lemma_wf_multiline(toks, c);
    } else if tk(toks, c).kind == Tokens::Punctuation(Punctuations::InlineBody) {
        lemma_wf_inline(toks, c);
    }
}

/// Every element of a parsed braced body is well-formed.
pub proof fn lemma_wf_multiline_loop(toks: Seq<TokenV>, c: nat, els: Seq<crate::ast::ElemV>)
    requires
        wf_elems(els),
    ensures
        match sp_multiline_loop(toks, c, els) {
            Ok(ec) => wf_elems(ec.0),
            Err(_) => true,
        },
    decreases toks.len() - c, 1int,
{
    let c1 = adv(toks, c);
    let t1 = tk(toks, c1);
    if t1.kind == Tokens::Punctuation(Punctuations::BraceClose) {
    } else if t1.kind == Tokens::EOF {
    } else if c1 > c {
        match sp_element(toks, c1) {
            Ok((el, c2)) => {
                lemma_wf_element(toks, c1);
                if c2 > c && c2 <= toks.len() {
                    lemma_wf_elems_push(els, el);
                    lemma_wf_multiline_loop(toks, c2, els.push(el));
                }
            },
            Err(_) => {},
        }
    }
}

/// Pushing a well-formed element onto well-formed elements.
pub proof fn lemma_wf_elems_push(els: Seq<crate::ast::ElemV>, el: crate::ast::ElemV)
    requires
        wf_elems(els),
        wf_elem(el),
    ensures
        wf_elems(els.push(el)),
    decreases els.len(),
{
    if els.len() == 0 {
        assert(els.push(el)[0] == el);
        assert(els.push(el).subrange(1, els.push(el).len() as int) =~= Seq::empty());
        assert(wf_elems(els.push(el).subrange(1, els.push(el).len() as int)));
    } else {
        assert(els[0] == els.push(el)[0]);
        assert(els.subrange(1, els.len() as int).push(el) =~= els.push(el).subrange(
            1,
            els.push(el).len() as int,
        ));
        lemma_wf_elems_push(els.subrange(1, els.len() as int), el);
    }
}

/// A parsed braced body is well-formed.
pub proof fn lemma_wf_multiline(toks: Seq<TokenV>, c: nat)
    ensures
        match sp_multiline_body(toks, c) {
            Ok(bc) => wf_body(bc.0),
            Err(_) => true,
        },
    decreases toks.len() - c, 2int,
{
    if tk(toks, c).kind == Tokens::Punctuation(Punctuations::BraceOpen) {
        lemma_wf_multiline_loop(toks, c, Seq::empty());
    }
}

/// A parsed inline body is well-formed.
pub proof fn lemma_wf_inline(toks: Seq<TokenV>, c: nat)
    ensures
        match sp_inline_body(toks, c) {
            Ok(bc) => wf_body(bc.0),
            Err(_) => true,
        },
    decreases toks.len() - c, 2int,
{
    if tk(toks, c).kind == Tokens::Punctuation(Punctuations::InlineBody) {
        let c1 = adv(toks, c);
        if c1 > c {
            lemma_wf_element(toks, c1);
        }
    }
}

/// A parsed body element is well-formed.
pub proof fn lemma_wf_element(toks: Seq<TokenV>, c: nat)
    ensures
        match sp_element(toks, c) {
            Ok(ec) => wf_elem(ec.0),
            Err(_) => true,
        },
    decreases toks.len() - c, 25int,
{
    if tk(toks, c).kind == Tokens::Punctuation(Punctuations::Semicolon) {
    } else if tk(toks, c).kind == Tokens::Punctuation(Punctuations::BraceOpen) {
        lemma_wf_multiline(toks, c);
    } else {
        lemma_wf_statement(toks, c);
    }
}

/// A parsed statement is well-formed.
#[verifier::rlimit(100)]
#[verifier::spinoff_prover]
pub proof fn lemma_wf_statement(toks: Seq<TokenV>, c: nat)
    ensures
        match sp_statement(toks, c) {
            Ok(sc) => wf_stmt(sc.0),
            Err(_) => true,
        },
    decreases toks.len() - c, 24int,
{
    match tk(toks, c).kind {
        Tokens::Keyword(crate::tokens::Keywords::Var) => {
            lemma_wf_var_decl(toks, c);
        },
        Tokens::Keyword(crate::tokens::Keywords::Func) => {
            lemma_wf_function(toks, c);
        },
        Tokens::Keyword(crate::tokens::Keywords::If) => {
            lemma_wf_if(toks, c);
        },
        Tokens::Keyword(crate::tokens::Keywords::While) => {
            lemma_wf_while(toks, c);
        },
        _ => {},
    }
}

/// A parsed `if` chain is well-formed.
#[verifier::rlimit(100)]
pub proof fn lemma_wf_if(toks: Seq<TokenV>, c: nat)
    ensures
        match sp_if(toks, c) {
            Ok(ic) => wf_if(ic.0),
            Err(_) => true,
        },
    decreases toks.len() - c, 23int,
{
    if tk(toks, c).kind == Tokens::Keyword(crate::tokens::Keywords::If) {
        let c1 = adv(toks, c);
        if c1 > c {
            match sp_expression(toks, c1) {
                Ok((cond, c2)) => {
                    if c2 > c && c2 <= toks.len() {
                        lemma_wf_body(toks, c2);
                        match sp_body(toks, c2) {
                            Ok((body, c3)) => {
                                let c4 = adv(toks, c3);
                                if tk(toks, c4).kind == Tokens::Keyword(
                                    crate::tokens::Keywords::Else,
                                ) {
                                    let c5 = adv(toks, c4);
                                    if tk(toks, c5).kind == Tokens::Keyword(
                                        crate::tokens::Keywords::If,
                                    ) {
                                        if c5 > c && c5 <= toks.len() {
                                            lemma_wf_if(toks, c5);
                                        }
                                    } else {
                                        if c5 > c && c5 <= toks.len() {
                                            lemma_wf_body(toks, c5);
                                            match sp_body(toks, c5) {
                                                Ok((eb, c6)) => {
                                                    assert(wf_if(
                                                        crate::ast::IfV {
                                                            kind: crate::ast::IfKindV::Else,
                                                            body: eb,
                                                        },
                                                    ));
                                                },
                                                Err(_) => {},
                                            }
                                        }
                                    }
                                }
                            },
                            Err(_) => {},
                        }
                    }
                },
                Err(_) => {},
            }
        }
    }
}

/// A parsed `while` chain is well-formed.
#[verifier::rlimit(100)]
pub proof fn lemma_wf_while(toks: Seq<TokenV>, c: nat)
    ensures
        match sp_while(toks, c) {
            Ok(wc) => wf_while(wc.0),
            Err(_) => true,
        },
    decreases toks.len() - c, 23int,
{
    if tk(toks, c).kind == Tokens::Keyword(crate::tokens::Keywords::While) {
        let c1 = adv(toks, c);
        if c1 > c {
            match sp_expression(toks, c1) {
                Ok((cond, c2)) => {
                    if c2 > c && c2 <= toks.len() {
                        lemma_wf_body(toks, c2);
                        match sp_body(toks, c2) {
                            Ok((body, c3)) => {
                                let c4 = adv(toks, c3);
                                if tk(toks, c4).kind == Tokens::Keyword(
                                    crate::tokens::Keywords::Else,
                                ) {
                                    let c5 = adv(toks, c4);
                                    if tk(toks, c5).kind == Tokens::Keyword(
                                        crate::tokens::Keywords::While,
                                    ) {
                                        if c5 > c && c5 <= toks.len() {
                                            lemma_wf_while(toks, c5);
                                        }
                                    } else {
                                        if c5 > c && c5 <= toks.len() {
                                            lemma_wf_body(toks, c5);
                                            match sp_body(toks, c5) {
                                                Ok((eb, c6)) => {
                                                    assert(wf_while(
                                                        crate::ast::WhileV {
                                                            kind: crate::ast::WhileKindV::Else,
                                                            body: eb,
                                                        },
                                                    ));
                                                },
                                                Err(_) => {},
                                            }
                                        }
                                    }
                                }
                            },
                            Err(_) => {},
                        }
                    }
                },
                Err(_) => {},
            }
        }
    }
}

/// A parsed item is well-formed, and is a constant, a static, or a
/// function.
pub proof fn lemma_wf_item(toks: Seq<TokenV>, c: nat)
    ensures
        match sp_item(toks, c) {
            Ok(ic) => wf_item(ic.0) && (ic.0.kind matches ItemKindV::Constant(_) || ic.0.kind
                matches ItemKindV::Static(_) || ic.0.kind matches ItemKindV::Function(_)),
            Err(_) => true,
        },
    decreases toks.len() - c, 6int,
{
    let public = tk(toks, c).kind == Tokens::Keyword(crate::tokens::Keywords::Pub);
    let c1 = if public {
        adv(toks, c)
    } else {
        c
    };
    match tk(toks, c1).kind {
        Tokens::Keyword(crate::tokens::Keywords::Func) => {
            lemma_wf_function(toks, c1);
        },
        _ => {},
    }
}

/// Every item accepted by the top-level loop is well-formed.
pub proof fn lemma_wf_items_loop(toks: Seq<TokenV>, c: nat, items: Seq<crate::ast::ItemV>)
    requires
        wf_items(items),
    ensures
        wf_items(sp_items_loop(toks, c, items).0),
    decreases toks.len() - c, 7int,
{
    if tk(toks, c).kind == Tokens::EOF {
    } else {
        match sp_item(toks, c) {
            Ok((it, c1)) => {
                lemma_wf_item(toks, c);
                let items2 = items.push(it);
                assert forall|i: int| 0 <= i < items2.len() implies wf_item(
                    #[trigger] items2[i],
                ) by {
                    if i < items.len() {
                        assert(wf_item(items[i]));
                    }
                }
                let c2 = adv(toks, c1);
                if c2 > c && c2 <= toks.len() {
                    lemma_wf_items_loop(toks, c2, items2);
                }
            },
            Err(_) => {},
        }
    }
}

/// If parsing succeeds (and even if it stops early), every item in the
/// project root is a constant, a static, or a function, and every argument
/// and variable declaration under it keeps the at-least-one-of invariant.
pub proof fn lemma_parsed_project_wf(toks: Seq<TokenV>)
    ensures
        wf_items(sp_parse(toks).0),
        forall|i: int|
            0 <= i < sp_parse(toks).0.len() ==> ((#[trigger] sp_parse(toks).0[i]).kind
                matches ItemKindV::Constant(_) || sp_parse(toks).0[i].kind
                matches ItemKindV::Static(_) || sp_parse(toks).0[i].kind
                matches ItemKindV::Function(_)),
{
    if toks.len() == 0 {
    } else {
        lemma_wf_items_loop(toks, 0, Seq::empty());
        lemma_items_kinds_loop(toks, 0, Seq::empty());
    }
}

/// A token ends a binary level `k`: the end of input, or any punctuation
/// that cannot continue the level — an assignment, a separator, or an
/// operator of a looser level.
pub open spec fn stops_level(t: TokenV, k: crate::ast::BinaryExpressionKind) -> bool {
    match t.kind {
        Tokens::EOF => true,
        Tokens::Punctuation(p) => p != Punctuations::ParenOpen && p
            != Punctuations::MemberSeparator && p != Punctuations::NamespaceSeparator && (
        match binary_kind_of(p) {
            Some(l) => spec_precedence(l) < spec_precedence(k),
            None => true,
        }),
        _ => false,
    }
}

/// An identifier followed by a token that stops level `k` parses, at level
/// `k`, as just that identifier, leaving the cursor on the stopping token.
pub proof fn lemma_atom_level(toks: Seq<TokenV>, c: nat, k: crate::ast::BinaryExpressionKind)
    requires
        c + 2 <= toks.len(),
        tk(toks, c).kind == Tokens::Identifier,
        stops_level(tk(toks, (c + 1) as nat), k),
    ensures
        sp_binary(toks, c, k) == sp_ok(
            (ExprV::Identifier { name: tok_val(tk(toks, c)) }, (c + 1) as nat),
        ),
    decreases 2 - spec_precedence(k),
{
    let atom = ExprV::Identifier { name: tok_val(tk(toks, c)) };
    let c1 = (c + 1) as nat;
    assert(adv(toks, c) == c1);
    assert(sp_primary(toks, c) == sp_ok((atom, c)));
    assert(sp_resolution(toks, c) == sp_ok((atom, c1))) by {
        assert(crate::grammar::sp_resolution_loop(toks, c, atom) == sp_ok((atom, c1)));
    }
    assert(crate::grammar::sp_call_or_resolution(toks, c) == sp_ok((atom, c1)));
    match crate::ast::kind_of_precedence(spec_precedence(k) + 1) {
        Some(k2) => {
            lemma_atom_level(toks, c, k2);
            assert(crate::grammar::sp_operand(toks, c, k) == sp_ok((atom, c1)));
        },
        None => {
            assert(crate::grammar::sp_operand(toks, c, k) == sp_ok((atom, c1)));
        },
    }
    assert(crate::grammar::sp_binary_loop(toks, c1, k, atom) == sp_ok((atom, c1)));
}

/// The six-token stream `A op1 B op2 C EOF` over identifiers.
pub open spec fn binary_pair_stream(
    toks: Seq<TokenV>,
    a: Seq<char>,
    op1: Punctuations,
    b: Seq<char>,
    op2: Punctuations,
    cc: Seq<char>,
) -> bool {
    &&& toks.len() == 6
    &&& tk(toks, 0).kind == Tokens::Identifier
    &&& tk(toks, 0).value == Some(a)
    &&& tk(toks, 1).kind == Tokens::Punctuation(op1)
    &&& tk(toks, 2).kind == Tokens::Identifier
    &&& tk(toks, 2).value == Some(b)
    &&& tk(toks, 3).kind == Tokens::Punctuation(op2)
    &&& tk(toks, 4).kind == Tokens::Identifier
    &&& tk(toks, 4).value == Some(cc)
    &&& tk(toks, 5).kind == Tokens::EOF
}

/// Assignment is right-associative: `a = b = c` parses as `a = (b = c)`.
pub proof fn lemma_assignment_right_assoc(
    toks: Seq<TokenV>,
    a: Seq<char>,
    b: Seq<char>,
    cc: Seq<char>,
)
    requires
        binary_pair_stream(
            toks,
            a,
            Punctuations::Assignment(Assignments::Straight),
            b,
            Punctuations::Assignment(Assignments::Straight),
            cc,
        ),
    ensures
        sp_expression(toks, 0) == sp_ok(
            (
                ExprV::Assignment {
                    left: Box::new(ExprV::Identifier { name: a }),
                    op: Assignments::Straight,
                    right: Box::new(
                        ExprV::Assignment {
                            left: Box::new(ExprV::Identifier { name: b }),
                            op: Assignments::Straight,
                            right: Box::new(ExprV::Identifier { name: cc }),
                        },
                    ),
                },
                5nat,
            ),
        ),
{
    let ia = ExprV::Identifier { name: a };
    let ib = ExprV::Identifier { name: b };
    let ic = ExprV::Identifier { name: cc };
    lemma_atom_level(toks, 0, crate::ast::BinaryExpressionKind::LogicalAnd);
    lemma_atom_level(toks, 2, crate::ast::BinaryExpressionKind::LogicalAnd);
    lemma_atom_level(toks, 4, crate::ast::BinaryExpressionKind::LogicalAnd);
    assert(sp_assignment(toks, 4) == sp_ok((ic, 5nat)));
    assert(sp_assignment(toks, 2) == sp_ok(
        (
            ExprV::Assignment { left: Box::new(ib), op: Assignments::Straight, right: Box::new(ic) },
            5nat,
        ),
    ));
}

/// Resolution chains bind left-associatively with their kinds kept:
/// `a::b.c` parses as `((a::b).c)`, namespace then member.
pub proof fn lemma_resolution_chain(
    toks: Seq<TokenV>,
    a: Seq<char>,
    b: Seq<char>,
    cc: Seq<char>,
)
    requires
        binary_pair_stream(
            toks,
            a,
            Punctuations::NamespaceSeparator,
            b,
            Punctuations::MemberSeparator,
            cc,
        ),
    ensures
        sp_expression(toks, 0) == sp_ok(
            (
                ExprV::Resolution {
                    left: Box::new(
                        ExprV::Resolution {
                            left: Box::new(ExprV::Identifier { name: a }),
                            right: Box::new(ExprV::Identifier { name: b }),
                            kind: ResolutionExpressionKind::Namespace,
                        },
                    ),
                    right: Box::new(ExprV::Identifier { name: cc }),
                    kind: ResolutionExpressionKind::Member,
                },
                5nat,
            ),
        ),
{
    let ia = ExprV::Identifier { name: a };
    let ib = ExprV::Identifier { name: b };
    let ic = ExprV::Identifier { name: cc };
    let r1 = ExprV::Resolution {
        left: Box::new(ia),
        right: Box::new(ib),
        kind: ResolutionExpressionKind::Namespace,
    };
    let r2 = ExprV::Resolution {
        left: Box::new(r1),
        right: Box::new(ic),
        kind: ResolutionExpressionKind::Member,
    };
    assert(sp_primary(toks, 0) == sp_ok((ia, 0nat)));
    assert(sp_primary(toks, 2) == sp_ok((ib, 2nat)));
    assert(sp_primary(toks, 4) == sp_ok((ic, 4nat)));
    assert(crate::grammar::sp_resolution_loop(toks, 4, r2) == sp_ok((r2, 5nat)));
    assert(crate::grammar::sp_resolution_loop(toks, 2, r1) == sp_ok((r2, 5nat)));
    assert(crate::grammar::sp_resolution_loop(toks, 0, ia) == sp_ok((r2, 5nat)));
    assert(sp_resolution(toks, 0) == sp_ok((r2, 5nat)));
    assert(crate::grammar::sp_call_or_resolution(toks, 0) == sp_ok((r2, 5nat)));
    lemma_tail_levels(toks, 0, r2, 5nat, crate::ast::BinaryExpressionKind::LogicalAnd);
    assert(sp_assignment(toks, 0) == sp_ok((r2, 5nat)));
}

/// If a call-or-resolution at `c` yields `(e, c1)` with `EOF` under `c1`,
/// every binary level from `k` up yields the same.
pub proof fn lemma_tail_levels(
    toks: Seq<TokenV>,
    c: nat,
    e: ExprV,
    c1: nat,
    k: crate::ast::BinaryExpressionKind,
)
    requires
        crate::grammar::sp_call_or_resolution(toks, c) == sp_ok((e, c1)),
        c <= c1 <= toks.len(),
        c1 < toks.len(),
        tk(toks, c1).kind == Tokens::EOF,
    ensures
        sp_binary(toks, c, k) == sp_ok((e, c1)),
    decreases 2 - spec_precedence(k),
{
    match crate::ast::kind_of_precedence(spec_precedence(k) + 1) {
        Some(k2) => {
            lemma_tail_levels(toks, c, e, c1, k2);
            assert(crate::grammar::sp_operand(toks, c, k) == sp_ok((e, c1)));
        },
        None => {
            assert(crate::grammar::sp_operand(toks, c, k) == sp_ok((e, c1)));
        },
    }
    assert(crate::grammar::sp_binary_loop(toks, c1, k, e) == sp_ok((e, c1)));
}

/// Call chaining is left-associative: `f(x)(y)(z)` parses as
/// `((f(x))(y))(z)`.
pub proof fn lemma_call_chain(
    toks: Seq<TokenV>,
    f: Seq<char>,
    x: Seq<char>,
    y: Seq<char>,
    z: Seq<char>,
)
    requires
        toks.len() == 11,
        tk(toks, 0).kind == Tokens::Identifier && tk(toks, 0).value == Some(f),
        tk(toks, 1).kind == Tokens::Punctuation(Punctuations::ParenOpen),
        tk(toks, 2).kind == Tokens::Identifier && tk(toks, 2).value == Some(x),
        tk(toks, 3).kind == Tokens::Punctuation(Punctuations::ParenClose),
        tk(toks, 4).kind == Tokens::Punctuation(Punctuations::ParenOpen),
        tk(toks, 5).kind == Tokens::Identifier && tk(toks, 5).value == Some(y),
        tk(toks, 6).kind == Tokens::Punctuation(Punctuations::ParenClose),
        tk(toks, 7).kind == Tokens::Punctuation(Punctuations::ParenOpen),
        tk(toks, 8).kind == Tokens::Identifier && tk(toks, 8).value == Some(z),
        tk(toks, 9).kind == Tokens::Punctuation(Punctuations::ParenClose),
        tk(toks, 10).kind == Tokens::EOF,
    ensures
        ({
            let cf = ExprV::Identifier { name: f };
            let c1 = ExprV::Call { res: Box::new(cf), args: seq![ExprV::Identifier { name: x }] };
            let c2 = ExprV::Call { res: Box::new(c1), args: seq![ExprV::Identifier { name: y }] };
            let c3 = ExprV::Call { res: Box::new(c2), args: seq![ExprV::Identifier { name: z }] };
            sp_expression(toks, 0) == sp_ok((c3, 10nat))
        }),
{
    let cf = ExprV::Identifier { name: f };
    let ix = ExprV::Identifier { name: x };
    let iy = ExprV::Identifier { name: y };
    let iz = ExprV::Identifier { name: z };
    let c1e = ExprV::Call { res: Box::new(cf), args: seq![ix] };
    let c2e = ExprV::Call { res: Box::new(c1e), args: seq![iy] };
    let c3e = ExprV::Call { res: Box::new(c2e), args: seq![iz] };
    assert(sp_primary(toks, 0) == sp_ok((cf, 0nat)));
    assert(crate::grammar::sp_resolution_loop(toks, 0, cf) == sp_ok((cf, 1nat)));
    assert(sp_resolution(toks, 0) == sp_ok((cf, 1nat)));
    // the three argument expressions
    lemma_atom_level(toks, 2, crate::ast::BinaryExpressionKind::LogicalAnd);
    lemma_atom_level(toks, 5, crate::ast::BinaryExpressionKind::LogicalAnd);
    lemma_atom_level(toks, 8, crate::ast::BinaryExpressionKind::LogicalAnd);
    assert(sp_expression(toks, 2) == sp_ok((ix, 3nat)));
    assert(sp_expression(toks, 5) == sp_ok((iy, 6nat)));
    assert(sp_expression(toks, 8) == sp_ok((iz, 9nat)));
    // the three argument lists
    assert(crate::grammar::sp_call_args_loop(toks, 1, Seq::empty()) == sp_ok((seq![ix], 3nat)))
        by {
        assert(Seq::<ExprV>::empty().push(ix) =~= seq![ix]);
    }
    assert(sp_call_args(toks, 1) == sp_ok((seq![ix], 3nat)));
    assert(crate::grammar::sp_call_args_loop(toks, 4, Seq::empty()) == sp_ok((seq![iy], 6nat)))
        by {
        assert(Seq::<ExprV>::empty().push(iy) =~= seq![iy]);
    }
    assert(sp_call_args(toks, 4) == sp_ok((seq![iy], 6nat)));
    assert(crate::grammar::sp_call_args_loop(toks, 7, Seq::empty()) == sp_ok((seq![iz], 9nat)))
        by {
        assert(Seq::<ExprV>::empty().push(iz) =~= seq![iz]);
    }
    assert(sp_call_args(toks, 7) == sp_ok((seq![iz], 9nat)));
    // the chained calls, innermost last
    assert(sp_call_expression(toks, 7, c2e) == sp_ok((c3e, 10nat)));
    assert(sp_call_expression(toks, 4, c1e) == sp_ok((c3e, 10nat)));
    assert(sp_call_expression(toks, 1, cf) == sp_ok((c3e, 10nat)));
    assert(crate::grammar::sp_call_or_resolution(toks, 0) == sp_ok((c3e, 10nat)));
    lemma_tail_levels(toks, 0, c3e, 10nat, crate::ast::BinaryExpressionKind::LogicalAnd);
    assert(sp_assignment(toks, 0) == sp_ok((c3e, 10nat)));
}

/// A token that cannot extend a primary expression or begin a call:
/// the end of input, or any punctuation other than `(`, `.` and `::`.
pub open spec fn stops_postfix(t: TokenV) -> bool {
    match t.kind {
        Tokens::EOF => true,
        Tokens::Punctuation(p) => p != Punctuations::ParenOpen && p
            != Punctuations::MemberSeparator && p != Punctuations::NamespaceSeparator,
        _ => false,
    }
}

/// An identifier followed by a token that stops every level tighter than
/// `k` is, as an operand at level `k`, just that identifier.
pub proof fn lemma_atom_operand(toks: Seq<TokenV>, c: nat, k: crate::ast::BinaryExpressionKind)
    requires
        c + 2 <= toks.len(),
        tk(toks, c).kind == Tokens::Identifier,
        stops_postfix(tk(toks, (c + 1) as nat)),
        (match crate::ast::kind_of_precedence(spec_precedence(k) + 1) {
            Some(k2) => stops_level(tk(toks, (c + 1) as nat), k2),
            None => true,
        }),
    ensures
        crate::grammar::sp_operand(toks, c, k) == sp_ok(
            (ExprV::Identifier { name: tok_val(tk(toks, c)) }, (c + 1) as nat),
        ),
{
    let atom = ExprV::Identifier { name: tok_val(tk(toks, c)) };
    let c1 = (c + 1) as nat;
    match crate::ast::kind_of_precedence(spec_precedence(k) + 1) {
        Some(k2) => {
            lemma_atom_level(toks, c, k2);
        },
        None => {
            assert(sp_primary(toks, c) == sp_ok((atom, c)));
            assert(crate::grammar::sp_resolution_loop(toks, c, atom) == sp_ok((atom, c1)));
            assert(sp_resolution(toks, c) == sp_ok((atom, c1)));
            assert(crate::grammar::sp_call_or_resolution(toks, c) == sp_ok((atom, c1)));
        },
    }
}

/// The right operand tree `B op2 C` as parsed at any level between the two
/// operators' levels: the inner operator binds it whole.
pub proof fn lemma_inner_levels(
    toks: Seq<TokenV>,
    a: Seq<char>,
    op1: Punctuations,
    b: Seq<char>,
    op2: Punctuations,
    cc: Seq<char>,
    k1: crate::ast::BinaryExpressionKind,
    k2: crate::ast::BinaryExpressionKind,
    kp: crate::ast::BinaryExpressionKind,
)
    requires
        binary_pair_stream(toks, a, op1, b, op2, cc),
        binary_kind_of(op1) == Some(k1),
        binary_kind_of(op2) == Some(k2),
        spec_precedence(k1) < spec_precedence(k2),
        spec_precedence(k1) < spec_precedence(kp) <= spec_precedence(k2),
    ensures
        sp_binary(toks, 2, kp) == sp_ok(
            (
                ExprV::Binary {
                    kind: k2,
                    left: Box::new(ExprV::Identifier { name: b }),
                    op: op2,
                    right: Box::new(ExprV::Identifier { name: cc }),
                },
                5nat,
            ),
        ),
    decreases spec_precedence(k2) - spec_precedence(kp),
{
    let ib = ExprV::Identifier { name: b };
    let ic = ExprV::Identifier { name: cc };
    let tree_b = ExprV::Binary { kind: k2, left: Box::new(ib), op: op2, right: Box::new(ic) };
    if spec_precedence(kp) == spec_precedence(k2) {
        assert(kp == k2);
        lemma_atom_operand(toks, 2, k2);
        lemma_atom_operand(toks, 4, k2);
        assert(crate::grammar::sp_binary_loop(toks, 5, k2, tree_b) == sp_ok((tree_b, 5nat)));
        assert(crate::grammar::sp_binary_loop(toks, 3, k2, ib) == sp_ok((tree_b, 5nat)));
    } else {
        match crate::ast::kind_of_precedence(spec_precedence(kp) + 1) {
            Some(kn) => {
                lemma_inner_levels(toks, a, op1, b, op2, cc, k1, k2, kn);
                assert(crate::grammar::sp_operand(toks, 2, kp) == sp_ok((tree_b, 5nat)));
                assert(crate::grammar::sp_binary_loop(toks, 5, kp, tree_b) == sp_ok(
                    (tree_b, 5nat),
                ));
            },
            None => {
                assert(false);
            },
        }
    }
}

/// The whole expression `A op1 (B op2 C)` as parsed at any level at or
/// below the outer operator's level.
pub proof fn lemma_outer_levels(
    toks: Seq<TokenV>,
    a: Seq<char>,
    op1: Punctuations,
    b: Seq<char>,
    op2: Punctuations,
    cc: Seq<char>,
    k1: crate::ast::BinaryExpressionKind,
    k2: crate::ast::BinaryExpressionKind,
    kp: crate::ast::BinaryExpressionKind,
)
    requires
        binary_pair_stream(toks, a, op1, b, op2, cc),
        binary_kind_of(op1) == Some(k1),
        binary_kind_of(op2) == Some(k2),
        spec_precedence(k1) < spec_precedence(k2),
        spec_precedence(kp) <= spec_precedence(k1),
    ensures
        sp_binary(toks, 0, kp) == sp_ok(
            (
                ExprV::Binary {
                    kind: k1,
                    left: Box::new(ExprV::Identifier { name: a }),
                    op: op1,
                    right: Box::new(
                        ExprV::Binary {
                            kind: k2,
                            left: Box::new(ExprV::Identifier { name: b }),
                            op: op2,
                            right: Box::new(ExprV::Identifier { name: cc }),
                        },
                    ),
                },
                5nat,
            ),
        ),
    decreases spec_precedence(k1) - spec_precedence(kp),
{
    let ia = ExprV::Identifier { name: a };
    let ib = ExprV::Identifier { name: b };
    let ic = ExprV::Identifier { name: cc };
    let tree_b = ExprV::Binary { kind: k2, left: Box::new(ib), op: op2, right: Box::new(ic) };
    let tree = ExprV::Binary { kind: k1, left: Box::new(ia), op: op1, right: Box::new(tree_b) };
    if spec_precedence(kp) == spec_precedence(k1) {
        assert(kp == k1);
        match crate::ast::kind_of_precedence(spec_precedence(k1) + 1) {
            Some(kn) => {
                lemma_atom_operand(toks, 0, k1);
                lemma_inner_levels(toks, a, op1, b, op2, cc, k1, k2, kn);
                assert(crate::grammar::sp_operand(toks, 2, k1) == sp_ok((tree_b, 5nat)));
                assert(crate::grammar::sp_binary_loop(toks, 5, k1, tree) == sp_ok((tree, 5nat)));
                assert(crate::grammar::sp_binary_loop(toks, 1, k1, ia) == sp_ok((tree, 5nat)));
            },
            None => {
                assert(false);
            },
        }
    } else {
        match crate::ast::kind_of_precedence(spec_precedence(kp) + 1) {
            Some(kn) => {
                lemma_outer_levels(toks, a, op1, b, op2, cc, k1, k2, kn);
                assert(crate::grammar::sp_operand(toks, 0, kp) == sp_ok((tree, 5nat)));
                assert(crate::grammar::sp_binary_loop(toks, 5, kp, tree) == sp_ok((tree, 5nat)));
            },
            None => {
                assert(false);
            },
        }
    }
}

/// Precedence: for operators of two distinct binary levels, the tighter
/// level binds first — `a op1 b op2 c` parses as `a op1 (b op2 c)` when
/// `op1` is looser than `op2`.
pub proof fn lemma_precedence(
    toks: Seq<TokenV>,
    a: Seq<char>,
    op1: Punctuations,
    b: Seq<char>,
    op2: Punctuations,
    cc: Seq<char>,
    k1: crate::ast::BinaryExpressionKind,
    k2: crate::ast::BinaryExpressionKind,
)
    requires
        binary_pair_stream(toks, a, op1, b, op2, cc),
        binary_kind_of(op1) == Some(k1),
        binary_kind_of(op2) == Some(k2),
        spec_precedence(k1) < spec_precedence(k2),
    ensures
        sp_expression(toks, 0) == sp_ok(
            (
                ExprV::Binary {
                    kind: k1,
                    left: Box::new(ExprV::Identifier { name: a }),
                    op: op1,
                    right: Box::new(
                        ExprV::Binary {
                            kind: k2,
                            left: Box::new(ExprV::Identifier { name: b }),
                            op: op2,
                            right: Box::new(ExprV::Identifier { name: cc }),
                        },
                    ),
                },
                5nat,
            ),
        ),
{
    lemma_outer_levels(
        toks,
        a,
        op1,
        b,
        op2,
        cc,
        k1,
        k2,
        crate::ast::BinaryExpressionKind::LogicalAnd,
    );
}

/// Binary operators of one level are left-associative: `a op1 b op2 c`
/// with both operators on the same level parses as `(a op1 b) op2 c`.
pub proof fn lemma_left_assoc_levels(
    toks: Seq<TokenV>,
    a: Seq<char>,
    op1: Punctuations,
    b: Seq<char>,
    op2: Punctuations,
    cc: Seq<char>,
    level: crate::ast::BinaryExpressionKind,
    kp: crate::ast::BinaryExpressionKind,
)
    requires
        binary_pair_stream(toks, a, op1, b, op2, cc),
        binary_kind_of(op1) == Some(level),
        binary_kind_of(op2) == Some(level),
        spec_precedence(kp) <= spec_precedence(level),
    ensures
        sp_binary(toks, 0, kp) == sp_ok(
            (
                ExprV::Binary {
                    kind: level,
                    left: Box::new(
                        ExprV::Binary {
                            kind: level,
                            left: Box::new(ExprV::Identifier { name: a }),
                            op: op1,
                            right: Box::new(ExprV::Identifier { name: b }),
                        },
                    ),
                    op: op2,
                    right: Box::new(ExprV::Identifier { name: cc }),
                },
                5nat,
            ),
        ),
    decreases spec_precedence(level) - spec_precedence(kp),
{
    let ia = ExprV::Identifier { name: a };
    let ib = ExprV::Identifier { name: b };
    let ic = ExprV::Identifier { name: cc };
    let tree_l = ExprV::Binary { kind: level, left: Box::new(ia), op: op1, right: Box::new(ib) };
    let tree = ExprV::Binary { kind: level, left: Box::new(tree_l), op: op2, right: Box::new(ic) };
    if spec_precedence(kp) == spec_precedence(level) {
        assert(kp == level);
        lemma_atom_operand(toks, 0, level);
        lemma_atom_operand(toks, 2, level);
        lemma_atom_operand(toks, 4, level);
        assert(crate::grammar::sp_binary_loop(toks, 5, level, tree) == sp_ok((tree, 5nat)));
        assert(crate::grammar::sp_binary_loop(toks, 3, level, tree_l) == sp_ok((tree, 5nat)));
        assert(crate::grammar::sp_binary_loop(toks, 1, level, ia) == sp_ok((tree, 5nat)));
    } else {
        match crate::ast::kind_of_precedence(spec_precedence(kp) + 1) {
            Some(kn) => {
                lemma_left_assoc_levels(toks, a, op1, b, op2, cc, level, kn);
                assert(crate::grammar::sp_operand(toks, 0, kp) == sp_ok((tree, 5nat)));
                assert(crate::grammar::sp_binary_loop(toks, 5, kp, tree) == sp_ok((tree, 5nat)));
            },
            None => {
                assert(false);
            },
        }
    }
}

/// Binary operators of one level are left-associative.
pub proof fn lemma_binary_left_assoc(
    toks: Seq<TokenV>,
    a: Seq<char>,
    op1: Punctuations,
    b: Seq<char>,
    op2: Punctuations,
    cc: Seq<char>,
    level: crate::ast::BinaryExpressionKind,
)
    requires
        binary_pair_stream(toks, a, op1, b, op2, cc),
        binary_kind_of(op1) == Some(level),
        binary_kind_of(op2) == Some(level),
    ensures
        sp_expression(toks, 0) == sp_ok(
            (
                ExprV::Binary {
                    kind: level,
                    left: Box::new(
                        ExprV::Binary {
                            kind: level,
                            left: Box::new(ExprV::Identifier { name: a }),
                            op: op1,
                            right: Box::new(ExprV::Identifier { name: b }),
                        },
                    ),
                    op: op2,
                    right: Box::new(ExprV::Identifier { name: cc }),
                },
                5nat,
            ),
        ),
{
    lemma_left_assoc_levels(
        toks,
        a,
        op1,
        b,
        op2,
        cc,
        level,
        crate::ast::BinaryExpressionKind::LogicalAnd,
    );
}

/// The source text a token stands for: the canonical string of a
/// punctuation, or the captured lexeme.
pub open spec fn token_text(t: TokenV) -> Seq<char> {
    match t.kind {
        Tokens::Punctuation(k) => crate::tokens::punct_str(k),
        _ => match t.value {
            Some(v) => v,
            None => Seq::empty(),
        },
    }
}

/// The concatenated texts of a token sequence.
pub open spec fn texts_of(ts: Seq<TokenV>) -> Seq<char>
    decreases ts.len(),
{
    if ts.len() == 0 {
        Seq::empty()
    } else {
        token_text(ts[0]) + texts_of(ts.subrange(1, ts.len() as int))
    }
}

/// Decoding a punctuation string and rendering it back is the identity.
pub proof fn lemma_punct_roundtrip(s: Seq<char>)
    ensures
        match crate::tokens::punct_of(s) {
            Some(k) => crate::tokens::punct_str(k) == s,
            None => true,
        },
{
}

/// A successful longest match decodes its substring.
pub proof fn lemma_longest_decodes(p: Seq<char>, i: int, j: int)
    ensures
        match crate::lexer::longest_from(p, i, j) {
            Some(jk) => crate::tokens::punct_of(p.subrange(i, jk.0)) == Some(jk.1),
            None => true,
        },
    decreases j - i,
{
    if j <= i {
    } else {
        match crate::tokens::punct_of(p.subrange(i, j)) {
            Some(_) => {},
            None => {
                lemma_longest_decodes(p, i, j - 1);
            },
        }
    }
}

/// The greedy decomposition of a punctuation run emits tokens whose texts
/// concatenate back to the run: each is a valid punctuation, or a final
/// `Undefined` token carrying the rest of the run.
pub proof fn lemma_decompose_loop_roundtrip(
    st: crate::lexer::LexSt,
    p: Seq<char>,
    s: nat,
    i: nat,
)
    requires
        i <= p.len(),
    ensures
        ({
            let r = crate::lexer::st_decompose_loop(st, p, s, i);
            let n = st.toks.len() as int;
            &&& r.toks.len() >= st.toks.len()
            &&& r.toks.subrange(0, n) == st.toks
            &&& texts_of(r.toks.subrange(n, r.toks.len() as int)) == p.subrange(
                i as int,
                p.len() as int,
            )
            &&& forall|x: int|
                n <= x < r.toks.len() ==> ((#[trigger] r.toks[x]).kind
                    matches Tokens::Punctuation(_) || (r.toks[x].kind == Tokens::Undefined && x
                    == r.toks.len() - 1))
        }),
    decreases p.len() - i,
{
    let r = crate::lexer::st_decompose_loop(st, p, s, i);
    let n = st.toks.len() as int;
    if i >= p.len() {
        assert(r.toks.subrange(0, n) =~= st.toks);
        assert(r.toks.subrange(n, r.toks.len() as int) =~= Seq::empty());
        assert(p.subrange(i as int, p.len() as int) =~= Seq::empty());
    } else {
        crate::lexer::lemma_longest_from_bounds(p, i as int, p.len() as int);
        lemma_longest_decodes(p, i as int, p.len() as int);
        match crate::lexer::longest_match(p, i as int) {
            Some(jk) => {
                let j = jk.0;
                let k = jk.1;
                lemma_punct_roundtrip(p.subrange(i as int, j));
                let tokv = TokenV {
                    span: crate::source::spec_one_ln(st.ln, (s + i) as nat, (s + j) as nat),
                    kind: Tokens::Punctuation(k),
                    value: None,
                };
                let st1 = crate::lexer::st_push_new(
                    st,
                    crate::source::spec_one_ln(st.ln, (s + i) as nat, (s + j) as nat),
                    Tokens::Punctuation(k),
                    None,
                );
                assert(st1.toks == st.toks.push(tokv));
                lemma_decompose_loop_roundtrip(st1, p, s, j as nat);
                let r1 = crate::lexer::st_decompose_loop(st1, p, s, j as nat);
                assert(r == r1);
                assert(r.toks.subrange(0, n) =~= st.toks);
                let fresh = r.toks.subrange(n, r.toks.len() as int);
                let rest = r.toks.subrange(n + 1, r.toks.len() as int);
                assert(st1.toks.subrange(0, n + 1) == r.toks.subrange(0, n + 1));
                assert(r.toks[n] == tokv) by {
                    assert(st1.toks.subrange(0, n + 1)[n] == tokv);
                }
                assert(fresh.len() > 0);
                assert(fresh[0] == tokv);
                assert(fresh.subrange(1, fresh.len() as int) =~= rest);
                assert(texts_of(fresh) == token_text(tokv) + texts_of(rest));
                assert(token_text(tokv) == p.subrange(i as int, j));
                assert(texts_of(rest) == p.subrange(j, p.len() as int));
                assert(p.subrange(i as int, j) + p.subrange(j, p.len() as int) =~= p.subrange(
                    i as int,
                    p.len() as int,
                ));
            },
            None => {
                let tokv = TokenV {
                    span: crate::source::spec_one_ln(st.ln, (s + i) as nat, (s + i) as nat),
                    kind: Tokens::Undefined,
                    value: Some(p.subrange(i as int, p.len() as int)),
                };
                assert(r.toks == st.toks.push(tokv));
                assert(r.toks.subrange(0, n) =~= st.toks);
                let fresh = r.toks.subrange(n, r.toks.len() as int);
                assert(fresh =~= seq![tokv]);
                assert(fresh.subrange(1, 1) =~= Seq::empty());
                assert(texts_of(fresh) == token_text(tokv) + texts_of(Seq::empty()));
                assert(token_text(tokv) + Seq::<char>::empty() =~= p.subrange(
                    i as int,
                    p.len() as int,
                ));
            },
        }
    }
}

/// A token's span is ordered: one line, start column at or before the end
/// column.
pub open spec fn span_ok(t: TokenV) -> bool {
    t.span.start.ln == t.span.end.ln && t.span.start.col <= t.span.end.col
}

/// Every span emitted so far is ordered.
pub open spec fn spans_ok(st: crate::lexer::LexSt) -> bool {
    forall|i: int| 0 <= i < st.toks.len() ==> span_ok(#[trigger] st.toks[i])
}

/// The decomposition loop emits only ordered spans.
pub proof fn lemma_decompose_loop_spans(st: crate::lexer::LexSt, p: Seq<char>, s: nat, i: nat)
    requires
        spans_ok(st),
    ensures
        spans_ok(crate::lexer::st_decompose_loop(st, p, s, i)),
    decreases p.len() - i,
{
    if i >= p.len() {
    } else {
        crate::lexer::lemma_longest_from_bounds(p, i as int, p.len() as int);
        match crate::lexer::longest_match(p, i as int) {
            Some(jk) => {
                if i < jk.0 <= p.len() {
                    let st1 = crate::lexer::st_push_new(
                        st,
                        crate::source::spec_one_ln(st.ln, (s + i) as nat, (s + jk.0) as nat),
                        Tokens::Punctuation(jk.1),
                        None,
                    );
                    lemma_decompose_loop_spans(st1, p, s, jk.0 as nat);
                }
            },
            None => {},
        }
    }
}

/// Flushing the value in flight with an ordered span emits only ordered
/// spans: whichever shape the value takes, it is emitted under the given
/// span.
pub proof fn lemma_flush_spans(st: crate::lexer::LexSt, span: crate::source::SpanV)
    requires
        spans_ok(st),
        span_ok(TokenV { span, kind: st.kind, value: None }),
    ensures
        spans_ok(crate::lexer::st_push_keyword_or_ident(st, span)),
{
}

/// Resolving the punctuation run emits only ordered spans.
pub proof fn lemma_process_complex_spans(st: crate::lexer::LexSt, ch: char)
    requires
        spans_ok(st),
        1 <= st.punct.len() <= st.col,
        st.start_col <= st.col,
    ensures
        spans_ok(crate::lexer::st_process_complex(st, ch)),
{
    if st.punct == seq!['.'] {
        if !crate::strutil::is_digit_char(ch) {
            if st.kind == Tokens::Literal(crate::tokens::Literals::Integer) {
                lemma_flush_spans(
                    st,
                    crate::source::spec_one_ln(st.ln, st.start_col, st.col),
                );
            }
        }
    } else if st.punct == seq!['-'] {
    } else {
        if st.punct.len() == 1 {
        } else {
            lemma_decompose_loop_spans(st, st.punct, st.start_col, 0);
            crate::lexer::lemma_decompose_loop_frame(st, st.punct, st.start_col, 0);
        }
    }
}

/// One step of the machine emits only ordered spans.
#[verifier::rlimit(100)]
pub proof fn lemma_iteration_spans(st: crate::lexer::LexSt, ch: char)
    requires
        crate::lexer::st_bounds(st),
        spans_ok(st),
    ensures
        spans_ok(crate::lexer::st_iteration(st, ch)),
{
    if ch == '\r' {
    } else if ch == '\n' {
        let st1 = crate::lexer::LexSt { col: st.col + 1, ..st };
        if !st1.in_str {
            if st1.punct.len() > 0 {
                lemma_process_complex_spans(st1, '\n');
                crate::lexer::lemma_process_complex(st1, '\n');
            } else {
                lemma_flush_spans(
                    st1,
                    crate::source::spec_one_ln(st1.ln, st1.start_col, st1.col),
                );
            }
        }
    } else {
        let st1 = crate::lexer::LexSt { col: st.col + 1, ..st };
        if ch == '"' {
            if !st1.in_str {
                if st1.punct.len() > 0 {
                    lemma_process_complex_spans(st1, ch);
                    crate::lexer::lemma_process_complex(st1, ch);
                } else {
                    lemma_flush_spans(
                        st1,
                        crate::source::spec_one_ln(st1.ln, st1.start_col, st1.col),
                    );
                }
            }
        } else if st1.in_str {
        } else if crate::lexer::simple_punct_of(ch) is Some {
            if st1.punct.len() > 0 {
                lemma_process_complex_spans(st1, ch);
                crate::lexer::lemma_process_complex(st1, ch);
            } else {
                lemma_flush_spans(
                    st1,
                    crate::source::spec_one_ln(st1.ln, st1.start_col, st1.col),
                );
            }
        } else if crate::strutil::is_ascii_punct_char(ch) && ch != '_' {
            if st1.punct.len() == 0 && st1.kind != Tokens::Literal(
                crate::tokens::Literals::Integer,
            ) {
                lemma_flush_spans(
                    st1,
                    crate::source::spec_one_ln(st1.ln, st1.start_col, st1.col),
                );
            }
        } else {
            let st2 = if st1.punct.len() > 0 {
                lemma_process_complex_spans(st1, ch);
                crate::lexer::lemma_process_complex(st1, ch);
                crate::lexer::st_process_complex(st1, ch)
            } else {
                st1
            };
            if crate::strutil::is_whitespace_char(ch) {
                lemma_flush_spans(
                    st2,
                    crate::source::spec_one_ln(st2.ln, st2.start_col, st2.col),
                );
            }
        }
    }
}

/// Every run of the machine emits only ordered spans.
pub proof fn lemma_run_spans(s: Seq<char>, n: int)
    ensures
        spans_ok(crate::lexer::lex_run(s, n)),
    decreases n,
{
    if n <= 0 {
    } else {
        lemma_run_spans(s, n - 1);
        crate::lexer::lemma_run_bounds(s, n - 1);
        lemma_iteration_spans(crate::lexer::lex_run(s, n - 1), s[n - 1]);
    }
}

/// Every token a lex emits has an ordered, single-line span.
pub proof fn lemma_token_spans_ordered(s: Seq<char>)
    ensures
        forall|i: int|
            0 <= i < lex_model(s).toks.len() ==> span_ok(#[trigger] lex_model(s).toks[i]),
{
    {
        let n = s.len() as int;
        lemma_run_spans(s, n);
        crate::lexer::lemma_run_bounds(s, n);
        let st = crate::lexer::lex_run(s, n);
        let st1 = crate::lexer::LexSt { col: st.col + 1, ..st };
        let st2 = if st1.in_str {
            crate::lexer::st_reset(
                crate::lexer::LexSt {
                    diags: st1.diags.push(
                        crate::errors::diag_point(
                            crate::errors::SyntaxErrorKind::Expected(
                                crate::errors::SyntaxErrorSource::Character,
                            ),
                            Some("expected double quote to close string literal"@),
                            st1.ln,
                            st1.col,
                        ),
                    ),
                    ..st1
                },
            )
        } else {
            st1
        };
        if st2.punct.len() > 0 {
            lemma_process_complex_spans(st2, '\n');
            crate::lexer::lemma_process_complex(st2, '\n');
        } else {
            lemma_flush_spans(
                st2,
                crate::source::spec_one_ln(st2.ln, st2.start_col, st2.col),
            );
        }
    }
}

/// Emitted end columns never decrease along one line.
pub open spec fn toks_mono(toks: Seq<TokenV>) -> bool {
    forall|i: int, j: int|
        0 <= i <= j < toks.len() && (#[trigger] toks[i]).span.end.ln == (
        #[trigger] toks[j]).span.end.ln ==> toks[i].span.end.col <= toks[j].span.end.col
}

/// Every emitted token ends on an earlier line, or on line `ln` at or
/// before column `b`.
pub open spec fn toks_below(toks: Seq<TokenV>, ln: nat, b: nat) -> bool {
    forall|i: int|
        0 <= i < toks.len() ==> ((#[trigger] toks[i]).span.end.ln < ln || (toks[i].span.end.ln
            == ln && toks[i].span.end.col <= b))
}

/// A higher bound also bounds the emitted ends.
pub proof fn lemma_below_weaken(toks: Seq<TokenV>, ln: nat, b1: nat, b2: nat)
    requires
        toks_below(toks, ln, b1),
        b1 <= b2,
    ensures
        toks_below(toks, ln, b2),
{
}

/// Pushing a token on the current line at or past the frontier keeps the
/// ends ordered, and moves the frontier to its end.
pub proof fn lemma_push_mono(toks: Seq<TokenV>, t: TokenV, ln: nat, b: nat)
    requires
        toks_mono(toks),
        toks_below(toks, ln, b),
        t.span.end.ln == ln,
        b <= t.span.end.col,
    ensures
        toks_mono(toks.push(t)),
        toks_below(toks.push(t), ln, t.span.end.col as nat),
{
    let ts = toks.push(t);
    assert forall|i: int, j: int|
        0 <= i <= j < ts.len() && (#[trigger] ts[i]).span.end.ln == (
        #[trigger] ts[j]).span.end.ln implies ts[i].span.end.col <= ts[j].span.end.col by {
        if j < toks.len() {
            assert(ts[i] == toks[i] && ts[j] == toks[j]);
        } else if i < toks.len() {
            assert(ts[i] == toks[i] && ts[j] == t);
        }
    }
}

/// The machine state keeps the ends ordered below the start column, with
/// the punctuation run accounted for.
pub open spec fn mono_state(st: crate::lexer::LexSt) -> bool {
    &&& toks_mono(st.toks)
    &&& toks_below(st.toks, st.ln, st.start_col)
    &&& (st.punct.len() > 0 ==> st.start_col + st.punct.len() <= st.col + 1)
}

/// The decomposition loop emits tokens with non-decreasing ends, all of
/// them within the run.
pub proof fn lemma_decompose_loop_mono(st: crate::lexer::LexSt, p: Seq<char>, s: nat, i: nat)
    requires
        toks_mono(st.toks),
        toks_below(st.toks, st.ln, (s + i) as nat),
        i <= p.len(),
    ensures
        ({
            let r = crate::lexer::st_decompose_loop(st, p, s, i);
            toks_mono(r.toks) && toks_below(r.toks, st.ln, (s + p.len()) as nat)
        }),
    decreases p.len() - i,
{
    if i >= p.len() {
        lemma_below_weaken(st.toks, st.ln, (s + i) as nat, (s + p.len()) as nat);
    } else {
        crate::lexer::lemma_longest_from_bounds(p, i as int, p.len() as int);
        match crate::lexer::longest_match(p, i as int) {
            Some(jk) => {
                if i < jk.0 <= p.len() {
                    let t = TokenV {
                        span: crate::source::spec_one_ln(st.ln, (s + i) as nat, (s + jk.0) as nat),
                        kind: Tokens::Punctuation(jk.1),
                        value: None,
                    };
                    lemma_push_mono(st.toks, t, st.ln, (s + i) as nat);
                    let st1 = crate::lexer::st_push_new(
                        st,
                        crate::source::spec_one_ln(st.ln, (s + i) as nat, (s + jk.0) as nat),
                        Tokens::Punctuation(jk.1),
                        None,
                    );
                    lemma_decompose_loop_mono(st1, p, s, jk.0 as nat);
                }
            },
            None => {
                let t = TokenV {
                    span: crate::source::spec_one_ln(st.ln, (s + i) as nat, (s + i) as nat),
                    kind: Tokens::Undefined,
                    value: Some(p.subrange(i as int, p.len() as int)),
                };
                lemma_push_mono(st.toks, t, st.ln, (s + i) as nat);
                let r = crate::lexer::st_decompose_loop(st, p, s, i);
                lemma_below_weaken(r.toks, st.ln, (s + i) as nat, (s + p.len()) as nat);
            },
        }
    }
}

/// Flushing with the standard span keeps the ends ordered and moves the
/// frontier to the cursor.
pub proof fn lemma_flush_mono(st: crate::lexer::LexSt)
    requires
        toks_mono(st.toks),
        toks_below(st.toks, st.ln, st.start_col),
        st.start_col <= st.col,
    ensures
        ({
            let r = crate::lexer::st_push_keyword_or_ident(
                st,
                crate::source::spec_one_ln(st.ln, st.start_col, st.col),
            );
            toks_mono(r.toks) && toks_below(r.toks, st.ln, st.col)
        }),
{
    let span = crate::source::spec_one_ln(st.ln, st.start_col, st.col);
    match crate::tokens::keyword_of(st.value) {
        Some(k) => {
            if k == crate::tokens::Keywords::True || k == crate::tokens::Keywords::False {
                let t = TokenV {
                    span,
                    kind: Tokens::Literal(crate::tokens::Literals::Boolean),
                    value: Some(st.value),
                };
                lemma_push_mono(st.toks, t, st.ln, st.start_col);
            } else {
                let t = TokenV { span, kind: Tokens::Keyword(k), value: None };
                lemma_push_mono(st.toks, t, st.ln, st.start_col);
            }
        },
        None => {
            if st.value.len() > 0 {
                let t = TokenV { span, kind: st.kind, value: Some(st.value) };
                lemma_push_mono(st.toks, t, st.ln, st.start_col);
            } else {
                lemma_below_weaken(st.toks, st.ln, st.start_col, st.col);
            }
        },
    }
}

/// Resolving the punctuation run keeps the ends ordered and leaves the
/// frontier at the cursor.
pub proof fn lemma_process_complex_mono(st: crate::lexer::LexSt, ch: char)
    requires
        toks_mono(st.toks),
        toks_below(st.toks, st.ln, st.start_col),
        1 <= st.punct.len(),
        st.start_col + st.punct.len() <= st.col,
        st.start_col <= st.col,
    ensures
        ({
            let r = crate::lexer::st_process_complex(st, ch);
            toks_mono(r.toks) && toks_below(r.toks, st.ln, st.col) && (r.start_col
                == st.start_col || r.start_col == st.col)
        }),
{
    crate::lexer::lemma_process_complex(st, ch);
    if st.punct == seq!['.'] {
        if crate::strutil::is_digit_char(ch) {
            lemma_below_weaken(st.toks, st.ln, st.start_col, st.col);
        } else {
            let st1 = if st.kind == Tokens::Literal(crate::tokens::Literals::Integer) {
                lemma_flush_mono(st);
                let f = crate::lexer::st_push_keyword_or_ident(
                    st,
                    crate::source::spec_one_ln(st.ln, st.start_col, st.col),
                );
                crate::lexer::LexSt { start_col: f.col, ..f }
            } else {
                crate::lexer::LexSt { ..st }
            };
            if st.kind != Tokens::Literal(crate::tokens::Literals::Integer) {
                lemma_below_weaken(st.toks, st.ln, st.start_col, st.col);
            }
            let t = TokenV {
                span: crate::source::spec_one_ln(st1.ln, (st1.col - 1) as nat, st1.col),
                kind: Tokens::Punctuation(crate::tokens::Punctuations::MemberSeparator),
                value: None,
            };
            lemma_push_mono(st1.toks, t, st1.ln, st1.col as nat);
        }
    } else if st.punct == seq!['-'] {
        if crate::strutil::is_digit_char(ch) && st.value.len() > 0 && (st.value.last() == 'e'
            || st.value.last() == 'E') && crate::lexer::st_numeric_kind(st.kind) {
            lemma_below_weaken(st.toks, st.ln, st.start_col, st.col);
        } else {
            lemma_below_weaken(st.toks, st.ln, st.start_col, (st.col - 1) as nat);
            let t = TokenV {
                span: crate::source::spec_one_ln(st.ln, (st.col - 1) as nat, st.col),
                kind: Tokens::Punctuation(crate::tokens::Punctuations::OperatorMinus),
                value: None,
            };
            lemma_push_mono(st.toks, t, st.ln, (st.col - 1) as nat);
        }
    } else {
        if st.punct.len() == 1 {
            lemma_below_weaken(st.toks, st.ln, st.start_col, (st.col - 1) as nat);
            match crate::tokens::punct_of(st.punct) {
                Some(k) => {
                    let t = TokenV {
                        span: crate::source::spec_one_ln(st.ln, (st.col - 1) as nat, st.col),
                        kind: Tokens::Punctuation(k),
                        value: None,
                    };
                    lemma_push_mono(st.toks, t, st.ln, (st.col - 1) as nat);
                },
                None => {
                    let t = TokenV {
                        span: crate::source::spec_one_ln(st.ln, (st.col - 1) as nat, st.col),
                        kind: Tokens::Undefined,
                        value: Some(st.punct),
                    };
                    lemma_push_mono(st.toks, t, st.ln, (st.col - 1) as nat);
                },
            }
        } else {
            lemma_decompose_loop_mono(st, st.punct, st.start_col, 0);
            crate::lexer::lemma_decompose_loop_frame(st, st.punct, st.start_col, 0);
            let st1 = crate::lexer::st_decompose_loop(st, st.punct, st.start_col, 0);
            lemma_below_weaken(
                st1.toks,
                st.ln,
                (st.start_col + st.punct.len()) as nat,
                st.col as nat,
            );
        }
    }
}

/// One step of the machine keeps the ends ordered.
#[verifier::rlimit(100)]
#[verifier::spinoff_prover]
pub proof fn lemma_iteration_mono(st: crate::lexer::LexSt, ch: char)
    requires
        crate::lexer::st_bounds(st),
        mono_state(st),
    ensures
        mono_state(crate::lexer::st_iteration(st, ch)),
{
    if ch == '\r' {
    } else if ch == '\n' {
        let st1 = crate::lexer::LexSt { col: st.col + 1, ..st };
        if !st1.in_str {
            if st1.punct.len() > 0 {
                lemma_process_complex_mono(st1, '\n');
                crate::lexer::lemma_process_complex(st1, '\n');
            } else {
                lemma_flush_mono(st1);
            }
        }
    } else {
        let st1 = crate::lexer::LexSt { col: st.col + 1, ..st };
        if ch == '"' {
            if !st1.in_str {
                let st2 = if st1.punct.len() > 0 {
                    lemma_process_complex_mono(st1, ch);
                    crate::lexer::lemma_process_complex(st1, ch);
                    crate::lexer::st_process_complex(st1, ch)
                } else {
                    lemma_flush_mono(st1);
                    crate::lexer::st_push_keyword_or_ident(
                        st1,
                        crate::source::spec_one_ln(st1.ln, st1.start_col, st1.col),
                    )
                };
            } else {
                let t = TokenV {
                    span: crate::source::spec_one_ln(st1.ln, st1.start_col, (st1.col + 1) as nat),
                    kind: Tokens::Literal(crate::tokens::Literals::String),
                    value: Some(st1.value),
                };
                lemma_push_mono(st1.toks, t, st1.ln, st1.start_col);
            }
        } else if st1.in_str {
        } else if crate::lexer::simple_punct_of(ch) is Some {
            let st2 = if st1.punct.len() > 0 {
                lemma_process_complex_mono(st1, ch);
                crate::lexer::lemma_process_complex(st1, ch);
                crate::lexer::st_process_complex(st1, ch)
            } else {
                lemma_flush_mono(st1);
                crate::lexer::st_push_keyword_or_ident(
                    st1,
                    crate::source::spec_one_ln(st1.ln, st1.start_col, st1.col),
                )
            };
            let t = TokenV {
                span: crate::source::spec_one_ln(st2.ln, st2.col, (st2.col + 1) as nat),
                kind: Tokens::Punctuation(crate::lexer::simple_punct_of(ch).unwrap()),
                value: None,
            };
            lemma_push_mono(st2.toks, t, st2.ln, st2.col as nat);
        } else if crate::strutil::is_ascii_punct_char(ch) && ch != '_' {
            if st1.punct.len() == 0 && st1.kind != Tokens::Literal(
                crate::tokens::Literals::Integer,
            ) {
                lemma_flush_mono(st1);
            }
        } else {
            let st2 = if st1.punct.len() > 0 {
                lemma_process_complex_mono(st1, ch);
                crate::lexer::lemma_process_complex(st1, ch);
                crate::lexer::st_process_complex(st1, ch)
            } else {
                st1
            };
            if crate::strutil::is_whitespace_char(ch) {
                lemma_flush_mono(st2);
            }
        }
    }
}

/// Every run of the machine keeps the ends ordered.
pub proof fn lemma_run_mono(s: Seq<char>, n: int)
    ensures
        mono_state(crate::lexer::lex_run(s, n)),
    decreases n,
{
    if n <= 0 {
    } else {
        lemma_run_mono(s, n - 1);
        crate::lexer::lemma_run_bounds(s, n - 1);
        lemma_iteration_mono(crate::lexer::lex_run(s, n - 1), s[n - 1]);
    }
}

/// Across any lex, end columns never decrease between tokens on one line,
/// and tokens are emitted in non-decreasing line order.
pub proof fn lemma_token_ends_monotone(s: Seq<char>)
    ensures
        toks_mono(lex_model(s).toks),
{
    {
        let n = s.len() as int;
        lemma_run_mono(s, n);
        crate::lexer::lemma_run_bounds(s, n);
        let st = crate::lexer::lex_run(s, n);
        let st1 = crate::lexer::LexSt { col: st.col + 1, ..st };
        let st2 = if st1.in_str {
            crate::lexer::st_reset(
                crate::lexer::LexSt {
                    diags: st1.diags.push(
                        crate::errors::diag_point(
                            crate::errors::SyntaxErrorKind::Expected(
                                crate::errors::SyntaxErrorSource::Character,
                            ),
                            Some("expected double quote to close string literal"@),
                            st1.ln,
                            st1.col,
                        ),
                    ),
                    ..st1
                },
            )
        } else {
            st1
        };
        let st3 = if st2.punct.len() > 0 {
            lemma_process_complex_mono(st2, '\n');
            crate::lexer::lemma_process_complex(st2, '\n');
            crate::lexer::st_process_complex(st2, '\n')
        } else {
            lemma_flush_mono(st2);
            crate::lexer::st_push_keyword_or_ident(
                st2,
                crate::source::spec_one_ln(st2.ln, st2.start_col, st2.col),
            )
        };
        let t = TokenV {
            span: crate::source::spec_one_ln(st3.ln, st3.col, st3.col),
            kind: Tokens::EOF,
            value: None,
        };
        lemma_push_mono(st3.toks, t, st3.ln, st3.col as nat);
    }
}

/// A classification the value buffer can be in: never a keyword, a
/// punctuation, or the terminator.
pub open spec fn kind_feed_ok(k: Tokens) -> bool {
    k == Tokens::Undefined || k == Tokens::Identifier || k == Tokens::InvalidIdentifier || (
    k matches Tokens::Literal(_))
}

/// A mid-lex stream: no token is `EOF`, and every identifier or literal
/// token carries its lexeme.
pub open spec fn feed_ok(st: crate::lexer::LexSt) -> bool {
    &&& forall|i: int|
        0 <= i < st.toks.len() ==> (#[trigger] st.toks[i]).kind != Tokens::EOF && ((st.toks[
            i
        ].kind == Tokens::Identifier || st.toks[i].kind matches Tokens::Literal(_))
            ==> st.toks[i].value is Some)
    &&& kind_feed_ok(st.kind)
}

/// The decomposition loop emits only punctuation and valued tokens.
pub proof fn lemma_decompose_loop_feed(st: crate::lexer::LexSt, p: Seq<char>, s: nat, i: nat)
    requires
        feed_ok(st),
    ensures
        feed_ok(crate::lexer::st_decompose_loop(st, p, s, i)),
    decreases p.len() - i,
{
    if i >= p.len() {
    } else {
        match crate::lexer::longest_match(p, i as int) {
            Some(jk) => {
                if i < jk.0 <= p.len() {
                    lemma_decompose_loop_feed(
                        crate::lexer::st_push_new(
                            st,
                            crate::source::spec_one_ln(st.ln, (s + i) as nat, (s + jk.0) as nat),
                            Tokens::Punctuation(jk.1),
                            None,
                        ),
                        p,
                        s,
                        jk.0 as nat,
                    );
                }
            },
            None => {},
        }
    }
}

/// Resolving the punctuation run keeps the stream mid-lex.
pub proof fn lemma_process_complex_feed(st: crate::lexer::LexSt, ch: char)
    requires
        feed_ok(st),
    ensures
        feed_ok(crate::lexer::st_process_complex(st, ch)),
{
    if st.punct == seq!['.'] {
    } else if st.punct == seq!['-'] {
    } else {
        if st.punct.len() == 1 {
        } else {
            lemma_decompose_loop_feed(st, st.punct, st.start_col, 0);
            crate::lexer::lemma_decompose_loop_frame(st, st.punct, st.start_col, 0);
        }
    }
}

/// One step of the machine keeps the stream mid-lex.
#[verifier::rlimit(100)]
pub proof fn lemma_iteration_feed(st: crate::lexer::LexSt, ch: char)
    requires
        feed_ok(st),
    ensures
        feed_ok(crate::lexer::st_iteration(st, ch)),
{
    if ch == '\r' {
    } else if ch == '\n' {
        let st1 = crate::lexer::LexSt { col: st.col + 1, ..st };
        if !st1.in_str && st1.punct.len() > 0 {
            lemma_process_complex_feed(st1, '\n');
        }
    } else {
        let st1 = crate::lexer::LexSt { col: st.col + 1, ..st };
        if ch == '"' {
            if !st1.in_str && st1.punct.len() > 0 {
                lemma_process_complex_feed(st1, ch);
            }
        } else if st1.in_str {
        } else if crate::lexer::simple_punct_of(ch) is Some {
            if st1.punct.len() > 0 {
                lemma_process_complex_feed(st1, ch);
            }
        } else if crate::strutil::is_ascii_punct_char(ch) && ch != '_' {
        } else {
            if st1.punct.len() > 0 {
                lemma_process_complex_feed(st1, ch);
            }
        }
    }
}

/// Every run of the machine keeps the stream mid-lex.
pub proof fn lemma_run_feed(s: Seq<char>, n: int)
    ensures
        feed_ok(crate::lexer::lex_run(s, n)),
    decreases n,
{
    if n <= 0 {
    } else {
        lemma_run_feed(s, n - 1);
        lemma_iteration_feed(crate::lexer::lex_run(s, n - 1), s[n - 1]);
    }
}

/// A lex of any input yields exactly the stream shape the parser is
/// specified for: one `EOF` token at the end and no other, with every
/// identifier and literal carrying its lexeme. The two stages compose:
/// the lexer's output satisfies `Parser::parse`'s requirement.
pub proof fn lemma_lex_feeds_parser(s: Seq<char>)
    ensures
        crate::grammar::wf_toks(lex_model(s).toks),
{
    {
        let n = s.len() as int;
        lemma_run_feed(s, n);
        let st = crate::lexer::lex_run(s, n);
        let st1 = crate::lexer::LexSt { col: st.col + 1, ..st };
        let st2 = if st1.in_str {
            crate::lexer::st_reset(
                crate::lexer::LexSt {
                    diags: st1.diags.push(
                        crate::errors::diag_point(
                            crate::errors::SyntaxErrorKind::Expected(
                                crate::errors::SyntaxErrorSource::Character,
                            ),
                            Some("expected double quote to close string literal"@),
                            st1.ln,
                            st1.col,
                        ),
                    ),
                    ..st1
                },
            )
        } else {
            st1
        };
        let st3 = if st2.punct.len() > 0 {
            lemma_process_complex_feed(st2, '\n');
            crate::lexer::st_process_complex(st2, '\n')
        } else {
            crate::lexer::st_push_keyword_or_ident(
                st2,
                crate::source::spec_one_ln(st2.ln, st2.start_col, st2.col),
            )
        };
        assert(feed_ok(st3));
        assert(lex_model(s).toks == st3.toks.push(
            TokenV {
                span: crate::source::spec_one_ln(st3.ln, st3.col, st3.col),
                kind: Tokens::EOF,
                value: None,
            },
        ));
    }
}

/// The greedy decomposition records exactly one diagnostic, of kind
/// invalid-token, when and only when it ends in an `Undefined` token.
pub proof fn lemma_decompose_undefined_diag(st: crate::lexer::LexSt, p: Seq<char>, s: nat, i: nat)
    requires
        i <= p.len(),
    ensures
        ({
            let r = crate::lexer::st_decompose_loop(st, p, s, i);
            &&& st.toks.len() <= r.toks.len()
            &&& r.toks.subrange(0, st.toks.len() as int) == st.toks
            &&& st.diags.len() <= r.diags.len() <= st.diags.len() + 1
            &&& r.diags.subrange(0, st.diags.len() as int) == st.diags
            &&& (r.diags.len() == st.diags.len() + 1 <==> (r.toks.len() > st.toks.len()
                && r.toks.last().kind == Tokens::Undefined))
            &&& (r.diags.len() == st.diags.len() + 1 ==> r.diags.last().kind == Some(
                crate::errors::SyntaxErrorKind::Invalid(
                    crate::errors::SyntaxErrorSource::Token,
                ),
            ))
        }),
    decreases p.len() - i,
{
    let r = crate::lexer::st_decompose_loop(st, p, s, i);
    if i >= p.len() {
        assert(r.toks.subrange(0, st.toks.len() as int) =~= st.toks);
        assert(r.diags.subrange(0, st.diags.len() as int) =~= st.diags);
    } else {
        crate::lexer::lemma_longest_from_bounds(p, i as int, p.len() as int);
        match crate::lexer::longest_match(p, i as int) {
            Some(jk) => {
                if i < jk.0 <= p.len() {
                    let st1 = crate::lexer::st_push_new(
                        st,
                        crate::source::spec_one_ln(st.ln, (s + i) as nat, (s + jk.0) as nat),
                        Tokens::Punctuation(jk.1),
                        None,
                    );
                    lemma_decompose_undefined_diag(st1, p, s, jk.0 as nat);
                    assert(r.toks.subrange(0, st.toks.len() as int) =~= st.toks) by {
                        assert(r.toks.subrange(0, st1.toks.len() as int).subrange(
                            0,
                            st.toks.len() as int,
                        ) =~= r.toks.subrange(0, st.toks.len() as int));
                    }
                    if r.toks.len() == st1.toks.len() {
                        assert(r.toks =~= st1.toks);
                        assert(r.toks.last().kind == Tokens::Punctuation(jk.1));
                    }
                }
            },
            None => {
                assert(r.toks.subrange(0, st.toks.len() as int) =~= st.toks);
                assert(r.diags.subrange(0, st.diags.len() as int) =~= st.diags);
            },
        }
    }
}

/// The kinds of the items accepted by the top-level loop.
pub proof fn lemma_items_kinds_loop(toks: Seq<TokenV>, c: nat, items: Seq<crate::ast::ItemV>)
    requires
        forall|i: int|
            0 <= i < items.len() ==> ((#[trigger] items[i]).kind matches ItemKindV::Constant(_)
                || items[i].kind matches ItemKindV::Static(_) || items[i].kind
                matches ItemKindV::Function(_)),
    ensures
        forall|i: int|
            0 <= i < sp_items_loop(toks, c, items).0.len() ==> ((#[trigger] sp_items_loop(
                toks,
                c,
                items,
            ).0[i]).kind matches ItemKindV::Constant(_) || sp_items_loop(toks, c, items).0[i].kind
                matches ItemKindV::Static(_) || sp_items_loop(toks, c, items).0[i].kind
                matches ItemKindV::Function(_)),
    decreases toks.len() - c, 7int,
{
    if tk(toks, c).kind == Tokens::EOF {
    } else {
        match sp_item(toks, c) {
            Ok((it, c1)) => {
                lemma_wf_item(toks, c);
                let c2 = adv(toks, c1);
                if c2 > c && c2 <= toks.len() {
                    lemma_items_kinds_loop(toks, c2, items.push(it));
                }
            },
            Err(_) => {},
        }
    }
}

} // verus!
