use meowind::ast::{
    BinaryExpressionKind, BodyKind, ExpressionKind, ExpressionNode, IfKind, ItemKind,
    ResolutionExpressionKind, StatementKind, UnaryExpressionKind,
};
use meowind::ast::BodyElementKind;
use meowind::lexer::Lexer;
use meowind::parser::Parser;
use meowind::source::SourceFile;
use meowind::tokens::{Assignments, Literals, Punctuations};

fn parse(src: &str) -> Parser {
    let lx = Lexer::tokenize(SourceFile::new(String::from("test.mw"), String::from(src)));
    assert!(lx.errors.is_empty(), "lexer reported errors");
    Parser::parse(lx.tokens, lx.src)
}

fn parse_ok(src: &str) -> Parser {
    let p = parse(src);
    assert!(p.errors.is_empty(), "parser reported errors");
    p
}

fn ident_name(e: &ExpressionNode) -> &str {
    match &e.kind {
        ExpressionKind::Identifier { name } => name,
        _ => panic!("expected an identifier"),
    }
}

// The first statement of the first (function) item's braced body.
fn first_statement(p: &Parser) -> &StatementKind {
    match &p.project.root.items[0].kind {
        ItemKind::Function(f) => match &f.body.kind {
            BodyKind::Multiline(els) => match &els[0].kind {
                BodyElementKind::Statement(s) => &s.kind,
                _ => panic!("expected a statement"),
            },
            _ => panic!("expected a braced body"),
        },
        _ => panic!("expected a function"),
    }
}

#[test]
fn empty_source_parses_to_empty_root() {
    let p = parse_ok("");
    assert_eq!(p.project.root.items.len(), 0);
}

#[test]
fn public_constant() {
    let p = parse_ok("pub const PI: Float = 3.14;");
    assert_eq!(p.project.root.items.len(), 1);
    let item = &p.project.root.items[0];
    assert!(item.public);
    match &item.kind {
        ItemKind::Constant(c) => {
            assert_eq!(c.name, "PI");
            assert_eq!(c.ty.raw, "Float");
            match &c.value.kind {
                ExpressionKind::Literal { kind, value } => {
                    assert_eq!(*kind, Literals::Float);
                    assert_eq!(value, "3.14");
                },
                _ => panic!("expected a literal"),
            }
        },
        _ => panic!("expected a constant"),
    }
}

#[test]
fn static_with_mut_and_inferred_type() {
    let p = parse_ok("static mut counter = 0;");
    match &p.project.root.items[0].kind {
        ItemKind::Static(s) => {
            assert_eq!(s.name, "counter");
            assert!(s.mutable);
            assert!(s.ty.is_none());
        },
        _ => panic!("expected a static"),
    }
}

#[test]
fn variable_declaration_with_precedence() {
    let p = parse_ok("func m() { let mut x: Int = 1 + 2 * 3; }");
    match first_statement(&p) {
        StatementKind::VariableDeclaration(v) => {
            assert_eq!(v.name, "x");
            assert!(v.mutable);
            assert_eq!(v.ty.as_ref().unwrap().raw, "Int");
            match &v.value.as_ref().unwrap().kind {
                ExpressionKind::Binary { kind, left, op, right } => {
                    assert_eq!(*kind, BinaryExpressionKind::Additive);
                    assert_eq!(*op, Punctuations::OperatorPlus);
                    assert!(matches!(
                        left.kind,
                        ExpressionKind::Literal { kind: Literals::Integer, .. }
                    ));
                    match &right.kind {
                        ExpressionKind::Binary { kind, .. } => {
                            assert_eq!(*kind, BinaryExpressionKind::Multiplicative);
                        },
                        _ => panic!("expected the multiplication to bind tighter"),
                    }
                },
                _ => panic!("expected a binary expression"),
            }
        },
        _ => panic!("expected a variable declaration"),
    }
}

#[test]
fn function_with_default_argument_and_inline_body() {
    let p = parse_ok("func f(a: Int, b: Int = 0) -> Int => return a + b;");
    match &p.project.root.items[0].kind {
        ItemKind::Function(f) => {
            assert_eq!(f.name, "f");
            assert_eq!(f.args.len(), 2);
            assert_eq!(f.args[0].name, "a");
            assert_eq!(f.args[0].ty.as_ref().unwrap().raw, "Int");
            assert!(f.args[0].default.is_none());
            assert_eq!(f.args[1].name, "b");
            assert!(matches!(
                f.args[1].default.as_ref().unwrap().kind,
                ExpressionKind::Literal { kind: Literals::Integer, .. }
            ));
            assert_eq!(f.ty.as_ref().unwrap().raw, "Int");
            assert!(f.return_var.is_none());
            match &f.body.kind {
                BodyKind::Inline(el) => match &el.kind {
                    BodyElementKind::Statement(s) => {
                        assert!(matches!(s.kind, StatementKind::Return(_)));
                    },
                    _ => panic!("expected a statement element"),
                },
                _ => panic!("expected an inline body"),
            }
        },
        _ => panic!("expected a function"),
    }
}

#[test]
fn named_return_variable() {
    let p = parse_ok("func g() -> out: Int => return out;");
    match &p.project.root.items[0].kind {
        ItemKind::Function(f) => {
            assert_eq!(f.return_var.as_deref(), Some("out"));
            assert_eq!(f.ty.as_ref().unwrap().raw, "Int");
        },
        _ => panic!("expected a function"),
    }
}

// Assignment is right-associative: `a = b = c + d` parses as
// `a = (b = (c + d))`.
#[test]
fn assignment_is_right_associative() {
    let p = parse_ok("func m() { a = b = c + d; }");
    match first_statement(&p) {
        StatementKind::Expression(e) => match &e.kind {
            ExpressionKind::Assignment { left, op, right } => {
                assert_eq!(ident_name(left), "a");
                assert_eq!(*op, Assignments::Straight);
                match &right.kind {
                    ExpressionKind::Assignment { left, right, .. } => {
                        assert_eq!(ident_name(left), "b");
                        assert!(matches!(
                            right.kind,
                            ExpressionKind::Binary { kind: BinaryExpressionKind::Additive, .. }
                        ));
                    },
                    _ => panic!("expected a nested assignment"),
                }
            },
            _ => panic!("expected an assignment"),
        },
        _ => panic!("expected an expression statement"),
    }
}

// Binary operators of one level are left-associative.
#[test]
fn binary_operators_are_left_associative() {
    let p = parse_ok("func m() { x = a - b + c; }");
    match first_statement(&p) {
        StatementKind::Expression(e) => match &e.kind {
            ExpressionKind::Assignment { right, .. } => match &right.kind {
                ExpressionKind::Binary { op, left, right, .. } => {
                    assert_eq!(*op, Punctuations::OperatorPlus);
                    assert_eq!(ident_name(right), "c");
                    assert!(matches!(
                        left.kind,
                        ExpressionKind::Binary { kind: BinaryExpressionKind::Additive, .. }
                    ));
                },
                _ => panic!("expected a binary expression"),
            },
            _ => panic!("expected an assignment"),
        },
        _ => panic!("expected an expression statement"),
    }
}

// `a::b.c` parses as `((a::b).c)` with the kinds kept.
#[test]
fn resolution_chain_kinds_and_association() {
    let p = parse_ok("func m() { x = a::b.c; }");
    match first_statement(&p) {
        StatementKind::Expression(e) => match &e.kind {
            ExpressionKind::Assignment { right, .. } => match &right.kind {
                ExpressionKind::Resolution { left, right, kind } => {
                    assert_eq!(*kind, ResolutionExpressionKind::Member);
                    assert_eq!(ident_name(right), "c");
                    match &left.kind {
                        ExpressionKind::Resolution { left, right, kind } => {
                            assert_eq!(*kind, ResolutionExpressionKind::Namespace);
                            assert_eq!(ident_name(left), "a");
                            assert_eq!(ident_name(right), "b");
                        },
                        _ => panic!("expected a nested resolution"),
                    }
                },
                _ => panic!("expected a resolution"),
            },
            _ => panic!("expected an assignment"),
        },
        _ => panic!("expected an expression statement"),
    }
}

// `f(x)(y)(z)` parses as `((f(x))(y))(z)`.
#[test]
fn call_chaining_is_left_associative() {
    let p = parse_ok("func m() { r = f(x)(y)(z); }");
    match first_statement(&p) {
        StatementKind::Expression(e) => match &e.kind {
            ExpressionKind::Assignment { right, .. } => match &right.kind {
                ExpressionKind::Call { res, args } => {
                    assert_eq!(args.len(), 1);
                    assert_eq!(ident_name(&args[0]), "z");
                    match &res.kind {
                        ExpressionKind::Call { res, args } => {
                            assert_eq!(ident_name(&args[0]), "y");
                            match &res.kind {
                                ExpressionKind::Call { res, args } => {
                                    assert_eq!(ident_name(&args[0]), "x");
                                    assert_eq!(ident_name(res), "f");
                                },
                                _ => panic!("expected the innermost call"),
                            }
                        },
                        _ => panic!("expected a nested call"),
                    }
                },
                _ => panic!("expected a call"),
            },
            _ => panic!("expected an assignment"),
        },
        _ => panic!("expected an expression statement"),
    }
}

// In-order leaves of a parenthesized expression equal the input sequence.
#[test]
fn inorder_leaves_match_input() {
    fn leaves(e: &ExpressionNode, out: &mut Vec<String>) {
        match &e.kind {
            ExpressionKind::Identifier { name } => out.push(name.clone()),
            ExpressionKind::Binary { left, right, .. } => {
                leaves(left, out);
                leaves(right, out);
            },
            _ => panic!("unexpected node"),
        }
    }
    let p = parse_ok("func m() { r = (a + b) * (c - d) / e; }");
    match first_statement(&p) {
        StatementKind::Expression(e) => match &e.kind {
            ExpressionKind::Assignment { right, .. } => {
                let mut out = Vec::new();
                leaves(right, &mut out);
                assert_eq!(out, vec!["a", "b", "c", "d", "e"]);
            },
            _ => panic!("expected an assignment"),
        },
        _ => panic!("expected an expression statement"),
    }
}

#[test]
fn unary_operators() {
    let p = parse_ok("func m() { r = -x; s = !y; }");
    match first_statement(&p) {
        StatementKind::Expression(e) => match &e.kind {
            ExpressionKind::Assignment { right, .. } => match &right.kind {
                ExpressionKind::Unary { kind, op, right } => {
                    assert_eq!(*kind, UnaryExpressionKind::ArithmeticNegation);
                    assert_eq!(*op, Punctuations::OperatorMinus);
                    assert_eq!(ident_name(right), "x");
                },
                _ => panic!("expected a unary expression"),
            },
            _ => panic!("expected an assignment"),
        },
        _ => panic!("expected an expression statement"),
    }
}

// S7: a chained else-if becomes a nested IfNode.
#[test]
fn if_else_chain() {
    let p = parse_ok(
        "func m() => if x { return a; } else if y { return b; } else { return c; }",
    );
    match &p.project.root.items[0].kind {
        ItemKind::Function(f) => match &f.body.kind {
            BodyKind::Inline(el) => match &el.kind {
                BodyElementKind::Statement(s) => match &s.kind {
                    StatementKind::If(i) => match &i.kind {
                        IfKind::If { cond, else_branch } => {
                            assert_eq!(ident_name(cond), "x");
                            let e1 = else_branch.as_ref().expect("else-if expected");
                            match &e1.kind {
                                IfKind::If { cond, else_branch } => {
                                    assert_eq!(ident_name(cond), "y");
                                    let e2 = else_branch.as_ref().expect("final else expected");
                                    assert!(matches!(e2.kind, IfKind::Else));
                                },
                                _ => panic!("expected a conditional arm"),
                            }
                        },
                        IfKind::Else => panic!("expected a conditional arm"),
                    },
                    _ => panic!("expected an if statement"),
                },
                _ => panic!("expected a statement"),
            },
            _ => panic!("expected an inline body"),
        },
        _ => panic!("expected a function"),
    }
}

#[test]
fn while_else_chain() {
    let p = parse_ok("func m() { while x { a(); } else { b(); } }");
    match first_statement(&p) {
        StatementKind::WhileLoop(w) => match &w.kind {
            meowind::ast::WhileLoopKind::While { cond, else_branch } => {
                assert_eq!(ident_name(cond), "x");
                let e = else_branch.as_ref().expect("else expected");
                assert!(matches!(e.kind, meowind::ast::WhileLoopKind::Else));
            },
            _ => panic!("expected a loop arm"),
        },
        _ => panic!("expected a while loop"),
    }
}

#[test]
fn stray_semicolons_are_empty_elements() {
    let p = parse_ok("func m() { ; ; }");
    match &p.project.root.items[0].kind {
        ItemKind::Function(f) => match &f.body.kind {
            BodyKind::Multiline(els) => {
                assert_eq!(els.len(), 2);
                assert!(matches!(els[0].kind, BodyElementKind::Empty));
            },
            _ => panic!("expected a braced body"),
        },
        _ => panic!("expected a function"),
    }
}

#[test]
fn nested_bodies() {
    let p = parse_ok("func m() { { return x; } }");
    match &p.project.root.items[0].kind {
        ItemKind::Function(f) => match &f.body.kind {
            BodyKind::Multiline(els) => {
                assert!(matches!(els[0].kind, BodyElementKind::Body(_)));
            },
            _ => panic!("expected a braced body"),
        },
        _ => panic!("expected a function"),
    }
}

// Error cases: the parser records exactly one diagnostic and stops.
#[test]
fn missing_semicolon_is_an_error() {
    let p = parse("const A: Int = 1");
    assert_eq!(p.errors.len(), 1);
}

#[test]
fn unexpected_top_level_token_is_an_error() {
    let p = parse("42");
    assert_eq!(p.errors.len(), 1);
    assert_eq!(p.project.root.items.len(), 0);
}

#[test]
fn argument_without_type_or_default_is_an_error() {
    let p = parse("func f(a) => return a;");
    assert_eq!(p.errors.len(), 1);
}

#[test]
fn variable_without_type_or_value_is_an_error() {
    let p = parse("func f() { let x; }");
    assert_eq!(p.errors.len(), 1);
}

#[test]
fn items_before_an_error_are_kept() {
    let p = parse("const A: Int = 1; nonsense");
    assert_eq!(p.errors.len(), 1);
    assert_eq!(p.project.root.items.len(), 1);
}

#[test]
fn project_defaults() {
    let p = parse_ok("const A: Int = 1;");
    assert_eq!(p.project.name, "");
    assert!(matches!(p.project.kind, meowind::ast::ProjectKind::Program));
    assert!(matches!(p.project.root.kind, meowind::ast::NamespaceKind::Root));
}
