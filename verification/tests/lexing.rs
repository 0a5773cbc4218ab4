use meowind::lexer::Lexer;
use meowind::source::SourceFile;
use meowind::tokens::{Assignments, Keywords, Literals, Punctuations, Tokens};

fn lex(src: &str) -> Lexer {
    Lexer::tokenize(SourceFile::new(String::from("test.mw"), String::from(src)))
}

fn kinds(lx: &Lexer) -> Vec<Tokens> {
    lx.tokens.iter().map(|t| t.kind).collect()
}

// Even an empty source lexes to the terminating token, and nothing else.
#[test]
fn empty_source_emits_only_eof() {
    let lx = lex("");
    assert_eq!(kinds(&lx), vec![Tokens::EOF]);
    assert_eq!(lx.tokens[0].span.start.ln, 1);
    assert_eq!(lx.tokens[0].span.start.col, 1);
    assert_eq!(lx.errors.len(), 0);
}

#[test]
fn final_token_is_always_eof() {
    for src in ["", "x", "let x = 1;", "2abc", "\"open", "+-*/", "a\nb\nc"] {
        let lx = lex(src);
        assert!(!lx.tokens.is_empty());
        assert_eq!(lx.tokens.last().unwrap().kind, Tokens::EOF);
    }
}

#[test]
fn keywords_and_identifiers() {
    let lx = lex("let mut pub const static return while if else func foo");
    let ks = kinds(&lx);
    assert_eq!(
        ks,
        vec![
            Tokens::Keyword(Keywords::Var),
            Tokens::Keyword(Keywords::Mut),
            Tokens::Keyword(Keywords::Pub),
            Tokens::Keyword(Keywords::Const),
            Tokens::Keyword(Keywords::Static),
            Tokens::Keyword(Keywords::Return),
            Tokens::Keyword(Keywords::While),
            Tokens::Keyword(Keywords::If),
            Tokens::Keyword(Keywords::Else),
            Tokens::Keyword(Keywords::Func),
            Tokens::Identifier,
            Tokens::EOF,
        ]
    );
    assert_eq!(lx.tokens[10].value.as_deref(), Some("foo"));
    assert!(lx.errors.is_empty());
}

#[test]
fn booleans_are_retagged_as_literals() {
    let lx = lex("true false");
    assert_eq!(lx.tokens[0].kind, Tokens::Literal(Literals::Boolean));
    assert_eq!(lx.tokens[0].value.as_deref(), Some("true"));
    assert_eq!(lx.tokens[1].kind, Tokens::Literal(Literals::Boolean));
    assert_eq!(lx.tokens[1].value.as_deref(), Some("false"));
}

#[test]
fn numeric_literals() {
    let lx = lex("1 2.5 1e-5");
    assert_eq!(lx.tokens[0].kind, Tokens::Literal(Literals::Integer));
    assert_eq!(lx.tokens[0].value.as_deref(), Some("1"));
    assert_eq!(lx.tokens[1].kind, Tokens::Literal(Literals::Float));
    assert_eq!(lx.tokens[1].value.as_deref(), Some("2.5"));
    assert_eq!(lx.tokens[2].kind, Tokens::Literal(Literals::Float));
    assert_eq!(lx.tokens[2].value.as_deref(), Some("1e-5"));
    assert!(lx.errors.is_empty());
}

// The exponent-sign join applies while the mantissa is still an integer in
// flight; once a decimal point made it a float, a following `-` is an
// operator again.
#[test]
fn exponent_sign_only_joins_integer_mantissas() {
    let lx = lex("3.0e-2");
    assert_eq!(lx.tokens[0].kind, Tokens::Literal(Literals::Float));
    assert_eq!(lx.tokens[0].value.as_deref(), Some("3.0e"));
    assert_eq!(lx.tokens[1].kind, Tokens::Punctuation(Punctuations::OperatorMinus));
    assert_eq!(lx.tokens[2].kind, Tokens::Literal(Literals::Integer));
    assert_eq!(lx.tokens[2].value.as_deref(), Some("2"));
}

#[test]
fn dot_after_identifier_is_member_separator() {
    let lx = lex("a.b");
    let ks = kinds(&lx);
    assert_eq!(
        ks,
        vec![
            Tokens::Identifier,
            Tokens::Punctuation(Punctuations::MemberSeparator),
            Tokens::Identifier,
            Tokens::EOF,
        ]
    );
}

#[test]
fn minus_is_operator_outside_exponents() {
    let lx = lex("a-1");
    let ks = kinds(&lx);
    assert_eq!(
        ks,
        vec![
            Tokens::Identifier,
            Tokens::Punctuation(Punctuations::OperatorMinus),
            Tokens::Literal(Literals::Integer),
            Tokens::EOF,
        ]
    );
}

#[test]
fn string_literals_are_captured_verbatim() {
    let lx = lex("\"hi there\"");
    assert_eq!(lx.tokens[0].kind, Tokens::Literal(Literals::String));
    assert_eq!(lx.tokens[0].value.as_deref(), Some("hi there"));
    assert!(lx.errors.is_empty());
}

// A digit-started identifier produces a diagnostic and a recovered token.
#[test]
fn digit_started_identifier_is_invalid() {
    let lx = lex("2abc");
    assert_eq!(lx.errors.len(), 1);
    assert_eq!(lx.tokens[0].kind, Tokens::InvalidIdentifier);
    assert_eq!(lx.tokens[0].value.as_deref(), Some("2abc"));
    assert_eq!(lx.tokens[0].span.start.col, 1);
    assert_eq!(lx.tokens[0].span.end.col, 5);
    assert_eq!(lx.tokens[1].kind, Tokens::EOF);
}

// Lexing continues after a recovered invalid identifier.
#[test]
fn tokens_still_lex_after_invalid_identifier() {
    let lx = lex("2abc x");
    assert_eq!(lx.errors.len(), 1);
    assert_eq!(lx.tokens[0].kind, Tokens::InvalidIdentifier);
    assert_eq!(lx.tokens[1].kind, Tokens::Identifier);
    assert_eq!(lx.tokens[1].value.as_deref(), Some("x"));
}

// An unterminated string at end of input reports a diagnostic and emits no
// string token.
#[test]
fn unterminated_string_reports_and_recovers() {
    let lx = lex("\"hello");
    assert_eq!(lx.errors.len(), 1);
    assert_eq!(kinds(&lx), vec![Tokens::EOF]);
}

#[test]
fn string_over_newline_reports_and_recovers() {
    let lx = lex("\"ab\ncd\"");
    assert!(lx.errors.len() >= 1);
}

// Greedy longest match: the run decomposes into the longest operators at
// each position, and the emitted texts concatenate back to the run.
#[test]
fn greedy_decomposition_longest_match() {
    let lx = lex("a<=>=!b");
    let ks = kinds(&lx);
    assert_eq!(
        ks,
        vec![
            Tokens::Identifier,
            Tokens::Punctuation(Punctuations::OperatorLessEqual),
            Tokens::Punctuation(Punctuations::OperatorGreaterEqual),
            Tokens::Punctuation(Punctuations::OperatorNot),
            Tokens::Identifier,
            Tokens::EOF,
        ]
    );
    assert!(lx.errors.is_empty());
}

#[test]
fn greedy_decomposition_assignment_operators() {
    let lx = lex("x**=2");
    assert_eq!(
        kinds(&lx),
        vec![
            Tokens::Identifier,
            Tokens::Punctuation(Punctuations::Assignment(Assignments::Power)),
            Tokens::Literal(Literals::Integer),
            Tokens::EOF,
        ]
    );
}

// An unknown punctuation rest becomes a single Undefined token with its
// text preserved, plus an invalid-token diagnostic.
#[test]
fn unknown_punctuation_becomes_undefined() {
    let lx = lex("a&&&b");
    assert_eq!(lx.tokens[1].kind, Tokens::Punctuation(Punctuations::OperatorAnd));
    assert_eq!(lx.tokens[2].kind, Tokens::Undefined);
    assert_eq!(lx.tokens[2].value.as_deref(), Some("&"));
    assert_eq!(lx.errors.len(), 1);
}

// Spans are ordered: start before end, and end columns non-decreasing
// along a line.
#[test]
fn spans_are_ordered_on_a_line() {
    let lx = lex("let x = 12 + foo;");
    let mut prev_end = 0;
    for t in &lx.tokens {
        assert!(t.span.start.col <= t.span.end.col);
        assert!(prev_end <= t.span.end.col);
        prev_end = t.span.end.col;
    }
}

fn token_source_text(t: &meowind::tokens::Token) -> String {
    match &t.kind {
        Tokens::Keyword(Keywords::Var) => String::from("let"),
        Tokens::Keyword(k) => k.to_string(),
        Tokens::Punctuation(p) => p.to_string(),
        _ => t.value.clone().unwrap_or_default(),
    }
}

// A clean lex re-renders the source: placing each lexeme at its span
// rebuilds the line, whitespace aside.
#[test]
fn clean_lex_rerenders_line() {
    let src = "let x = 12 + foo;";
    let lx = lex(src);
    assert!(lx.errors.is_empty());
    let mut rebuilt: Vec<char> = vec![' '; src.len()];
    for t in &lx.tokens {
        if t.kind == Tokens::EOF {
            continue;
        }
        let text = token_source_text(t);
        for (i, ch) in text.chars().enumerate() {
            rebuilt[t.span.start.col - 1 + i] = ch;
        }
    }
    let rebuilt: String = rebuilt.into_iter().collect();
    assert_eq!(rebuilt, src);
}

// Stripping extra whitespace does not change the token kinds or lexemes.
#[test]
fn whitespace_insensitive_token_stream() {
    let a = lex("a + b * ( c )");
    let b = lex("a+b*(c)");
    let ka: Vec<_> = a.tokens.iter().map(|t| (t.kind, t.value.clone())).collect();
    let kb: Vec<_> = b.tokens.iter().map(|t| (t.kind, t.value.clone())).collect();
    assert_eq!(ka, kb);
}

#[test]
fn carriage_returns_are_dropped() {
    let a = lex("let x = 1;\r\nlet y = 2;");
    let b = lex("let x = 1;\nlet y = 2;");
    let ka: Vec<_> = a.tokens.iter().map(|t| (t.kind, t.value.clone())).collect();
    let kb: Vec<_> = b.tokens.iter().map(|t| (t.kind, t.value.clone())).collect();
    assert_eq!(ka, kb);
}

#[test]
fn line_numbers_advance() {
    let lx = lex("a\nb");
    assert_eq!(lx.tokens[0].span.start.ln, 1);
    assert_eq!(lx.tokens[1].span.start.ln, 2);
}

#[test]
fn keyword_tables_round_trip() {
    for (s, k) in [
        ("let", Keywords::Var),
        ("func", Keywords::Func),
        ("mut", Keywords::Mut),
        ("pub", Keywords::Pub),
        ("const", Keywords::Const),
        ("static", Keywords::Static),
        ("true", Keywords::True),
        ("false", Keywords::False),
        ("return", Keywords::Return),
        ("while", Keywords::While),
        ("if", Keywords::If),
        ("else", Keywords::Else),
    ] {
        assert_eq!(Keywords::from_str(s), Ok(k));
    }
    assert_eq!(Keywords::from_str("letx"), Err(()));
    assert_eq!(Keywords::Var.to_string(), "var");
    assert_eq!(Keywords::Func.to_string(), "func");
}

#[test]
fn punctuation_tables_round_trip() {
    for s in [
        "+", "-", "*", "/", "%", "**", "==", "!=", "<=", ">=", "&&", "||", "!", "->", ".", "::",
        ":", "<", ">", "~", "=>", "(", ")", "{", "}", "[", "]", ";", ",", "=", "+=", "-=", "*=",
        "/=", "%=", "**=",
    ] {
        let k = Punctuations::from_str(s).expect("valid punctuation");
        assert_eq!(k.to_string(), s);
    }
    assert_eq!(Punctuations::from_str("&"), Err(()));
    assert_eq!(
        Punctuations::from_str("="),
        Ok(Punctuations::Assignment(Assignments::Straight))
    );
}

#[test]
fn literal_kind_predicates() {
    assert!(Literals::Integer.is_number());
    assert!(Literals::Float.is_number());
    assert!(!Literals::String.is_number());
    assert!(!Literals::Boolean.is_number());
    assert_eq!(Literals::Integer.to_string(), "integer");
    assert_eq!(Tokens::Literal(Literals::Integer).to_string(), "integer literal");
    assert_eq!(Tokens::Keyword(Keywords::Var).to_string(), "keyword var");
    assert_eq!(
        Tokens::Punctuation(Punctuations::Semicolon).to_string(),
        "\";\""
    );
}
