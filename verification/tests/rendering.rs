use meowind::ast::{NamespaceKind, NamespaceNode, NamespacePath};
use meowind::errors::{
    CommandLineError, CommandLineErrorKind, CompilerError, CompilerErrorKind, ErrorContext,
    MeowindError, SyntaxError, SyntaxErrorKind, SyntaxErrorSource,
};
use meowind::lexer::Lexer;
use meowind::source::{SourceFile, SourcePoint, SourceSpan};
use meowind::strutil::StringUtils;

fn src(text: &str) -> SourceFile {
    SourceFile::new(String::from("demo.mw"), String::from(text))
}

#[test]
fn source_file_splits_lines() {
    let s = src("one\ntwo\n");
    assert_eq!(s.lines.len(), 3);
    assert_eq!(s.lines[0], "one");
    assert_eq!(s.lines[1], "two");
    assert_eq!(s.lines[2], "");
    assert_eq!(s.chars.len(), 8);
}

#[test]
fn source_points_and_spans() {
    let p = SourcePoint::new(2, 7);
    assert_eq!(p.ln, 2);
    assert_eq!(p.col, 7);
    let sp = SourceSpan::one_ln(1, 3, 9);
    assert_eq!(sp.start.ln, 1);
    assert_eq!(sp.start.col, 3);
    assert_eq!(sp.end.col, 9);
    let m = SourceSpan::mul_ln(1, 2, 3, 4);
    assert_eq!(m.end.ln, 3);
    assert_eq!(m.end.col, 4);
    let n = SourceSpan::new(p, p);
    assert_eq!(n.start.col, 7);
}

#[test]
fn grapheme_counting() {
    assert_eq!("hello".count(), 5);
    assert_eq!(String::from("héllo").count(), 5);
    assert_eq!("".count(), 0);
}

#[test]
fn point_context_renders_with_caret() {
    let c = ErrorContext::point(1, 5, src("let x = 1;"));
    let body = c.render().expect("in range");
    assert!(body.contains("demo.mw"));
    assert!(body.contains("(1, 5)"));
    assert!(body.contains("HERE ^"));
    assert!(body.contains("let x = 1;"));
}

#[test]
fn out_of_range_context_does_not_render() {
    let c = ErrorContext::point(9, 1, src("one line"));
    assert!(c.render().is_none());
}

#[test]
fn span_context_renders_window() {
    let c = ErrorContext::span(
        SourcePoint::new(1, 5),
        SourcePoint::new(1, 6),
        src("let xy = 1;"),
    );
    let body = c.render().expect("in range");
    assert!(body.contains("demo.mw"));
    assert!(body.contains("(1, 5)"));
    // the window keeps the line's first cluster and underlines exactly
    // the spanned range
    assert!(body.contains("let "));
    assert!(body.contains("\u{1b}[4m\u{1b}[97mx"));
    assert!(body.contains("x\u{1b}[0m\u{1b}[90my"));
    assert!(body.contains("y = 1;"));
}

#[test]
fn syntax_error_renders_kind_message_and_snippet() {
    let e = SyntaxError::default()
        .kind(SyntaxErrorKind::Expected(SyntaxErrorSource::Token))
        .msg("expected \";\"")
        .ctx(ErrorContext::point(1, 9, src("let x = 1")));
    let text = e.to_string();
    assert!(text.contains("syntax error"));
    assert!(text.contains("expected token"));
    assert!(text.contains("expected \";\""));
    assert!(text.contains("demo.mw"));
}

#[test]
fn lexer_errors_render() {
    let lx = Lexer::tokenize(src("2abc"));
    assert_eq!(lx.errors.len(), 1);
    let text = lx.errors[0].to_string();
    assert!(text.contains("syntax error"));
    assert!(text.contains("unexpected character"));
    assert!(text.contains("identifiers cannot start with a digit"));
}

#[test]
fn compiler_error_renders() {
    let e = CompilerError::default()
        .kind(CompilerErrorKind::Undeclared)
        .msg("name is not known here");
    let text = e.to_string();
    assert!(text.contains("compiler error"));
    assert!(text.contains("undeclared"));
    assert!(text.contains("name is not known here"));
}

#[test]
fn command_line_error_renders() {
    let e = CommandLineError::new(CommandLineErrorKind::InvalidArguments, "path not provided");
    let text = e.to_string();
    assert!(text.contains("command line error"));
    assert!(text.contains("invalid arguments"));
    assert!(text.contains("path not provided"));
}

// The parser's diagnostics are part of its contract: an unmet expectation
// renders as `expected <kind>` anchored in the source.
#[test]
fn parser_error_messages_render() {
    let lx = Lexer::tokenize(src("const A: Int = 1"));
    assert!(lx.errors.is_empty());
    let p = meowind::parser::Parser::parse(lx.tokens, lx.src);
    assert_eq!(p.errors.len(), 1);
    let text = p.errors[0].to_string();
    assert!(text.contains("syntax error"));
    assert!(text.contains("expected token"));
    assert!(text.contains("expected \";\""));
}

#[test]
fn argument_error_message_renders() {
    let lx = Lexer::tokenize(src("func f(a) => return a;"));
    let p = meowind::parser::Parser::parse(lx.tokens, lx.src);
    assert_eq!(p.errors.len(), 1);
    let text = p.errors[0].to_string();
    assert!(text.contains("argument requires type or default value"));
}

#[test]
fn variable_error_message_renders() {
    let lx = Lexer::tokenize(src("func f() { let x; }"));
    let p = meowind::parser::Parser::parse(lx.tokens, lx.src);
    assert_eq!(p.errors.len(), 1);
    let text = p.errors[0].to_string();
    assert!(text.contains("variable requires type or default value"));
}

#[test]
fn body_error_message_lists_both_kinds() {
    let lx = Lexer::tokenize(src("func f() return 1;"));
    let p = meowind::parser::Parser::parse(lx.tokens, lx.src);
    assert_eq!(p.errors.len(), 1);
    let text = p.errors[0].to_string();
    assert!(text.contains("expected \"{\" or \"=>\""));
}

#[test]
fn expression_error_at_end_of_input() {
    let lx = Lexer::tokenize(src("const A: Int ="));
    let p = meowind::parser::Parser::parse(lx.tokens, lx.src);
    assert_eq!(p.errors.len(), 1);
    let text = p.errors[0].to_string();
    assert!(text.contains("expected expression"));
}

#[test]
fn namespace_paths() {
    let p = NamespacePath::new(vec![
        String::from("core"),
        String::from("math"),
        String::from("trig"),
    ]);
    assert_eq!(p.name(), "trig");
    let parent = p.parent().expect("has a parent");
    assert_eq!(parent.name(), "math");
    let root = NamespacePath::new(vec![String::from("core")]);
    assert!(root.parent().is_none());
}

#[test]
fn namespace_nodes() {
    let n = NamespaceNode::new(NamespaceKind::Root, Vec::new());
    assert!(matches!(n.kind, NamespaceKind::Root));
    assert_eq!(n.items.len(), 0);
}
