//! The token model: token kinds as a closed sum, the string tables that
//! decode keywords, punctuations and assignment operators, and the canonical
//! rendering of each kind for diagnostics.

use vstd::prelude::*;

use crate::source::{SourceSpan, SpanV};
use crate::strutil::str_eq;
use vstd::string::*;

verus! {

/// A lexed token: where it lies, what kind it is, and the captured lexeme
/// for kinds that carry one.
#[derive(Clone, Debug)]
pub struct Token {
    pub span: SourceSpan,
    pub kind: Tokens,
    pub value: Option<String>,
}

/// A token in the mathematical model: span over `nat`s, lexeme as a
/// character sequence.
pub struct TokenV {
    pub span: SpanV,
    pub kind: Tokens,
    pub value: Option<Seq<char>>,
}

impl View for Token {
    type V = TokenV;

    open spec fn view(&self) -> TokenV {
        TokenV {
            span: self.span@,
            kind: self.kind,
            value: match self.value {
                Some(s) => Some(s@),
                None => None,
            },
        }
    }
}

impl DeepView for Token {
    type V = TokenV;

    open spec fn deep_view(&self) -> TokenV {
        self@
    }
}

impl Token {
    /// A token from its parts.
    pub fn new(span: SourceSpan, kind: Tokens, value: Option<String>) -> (t: Token)
        ensures
            t == (Token { span, kind, value }),
    {
        Token { span, kind, value }
    }
}

/// The kinds of token the lexer emits.
#[derive(Debug, Clone, Copy, PartialEq, Eq, Structural)]
pub enum Tokens {
    Literal(Literals),
    Identifier,
    Keyword(Keywords),
    Punctuation(Punctuations),
    EOF,
    Undefined,
    InvalidIdentifier,
}

/// The kinds of literal.
#[derive(Debug, Clone, Copy, PartialEq, Eq, Structural)]
pub enum Literals {
    Integer,
    Float,
    String,
    Boolean,
}

impl Literals {
    /// Whether this literal kind is numeric.
    pub fn is_number(&self) -> (r: bool)
        ensures
            r == (*self == Literals::Integer || *self == Literals::Float),
    {
        matches!(self, Literals::Integer | Literals::Float)
    }
}

/// The reserved words.
#[derive(Debug, Clone, Copy, PartialEq, Eq, Structural)]
pub enum Keywords {
    Var,
    Func,
    Mut,
    Pub,
    Const,
    Static,
    True,
    False,
    Return,
    While,
    If,
    Else,
}

/// The keyword for a source word, if the word is reserved.
pub open spec fn keyword_of(s: Seq<char>) -> Option<Keywords> {
    if s == "let"@ {
        Some(Keywords::Var)
    } else if s == "func"@ {
        Some(Keywords::Func)
    } else if s == "mut"@ {
        Some(Keywords::Mut)
    } else if s == "pub"@ {
        Some(Keywords::Pub)
    } else if s == "const"@ {
        Some(Keywords::Const)
    } else if s == "static"@ {
        Some(Keywords::Static)
    } else if s == "true"@ {
        Some(Keywords::True)
    } else if s == "false"@ {
        Some(Keywords::False)
    } else if s == "return"@ {
        Some(Keywords::Return)
    } else if s == "while"@ {
        Some(Keywords::While)
    } else if s == "if"@ {
        Some(Keywords::If)
    } else if s == "else"@ {
        Some(Keywords::Else)
    } else {
        None
    }
}

/// The rendering of a keyword kind: its name in lower case, so the variable
/// keyword renders as `var` although it is written `let`.
pub open spec fn keyword_str(k: Keywords) -> Seq<char> {
    match k {
        Keywords::Var => "var"@,
        Keywords::Func => "func"@,
        Keywords::Mut => "mut"@,
        Keywords::Pub => "pub"@,
        Keywords::Const => "const"@,
        Keywords::Static => "static"@,
        Keywords::True => "true"@,
        Keywords::False => "false"@,
        Keywords::Return => "return"@,
        Keywords::While => "while"@,
        Keywords::If => "if"@,
        Keywords::Else => "else"@,
    }
}

impl Keywords {
    /// Decodes a reserved word.
    pub fn from_str(s: &str) -> (r: Result<Keywords, ()>)
        ensures
            r == match keyword_of(s@) {
                Some(k) => Result::<Keywords, ()>::Ok(k),
                None => Result::<Keywords, ()>::Err(()),
            },
    {
        if str_eq(s, "let") {
            Ok(Keywords::Var)
        } else if str_eq(s, "func") {
            Ok(Keywords::Func)
        } else if str_eq(s, "mut") {
            Ok(Keywords::Mut)
        } else if str_eq(s, "pub") {
            Ok(Keywords::Pub)
        } else if str_eq(s, "const") {
            Ok(Keywords::Const)
        } else if str_eq(s, "static") {
            Ok(Keywords::Static)
        } else if str_eq(s, "true") {
            Ok(Keywords::True)
        } else if str_eq(s, "false") {
            Ok(Keywords::False)
        } else if str_eq(s, "return") {
            Ok(Keywords::Return)
        } else if str_eq(s, "while") {
            Ok(Keywords::While)
        } else if str_eq(s, "if") {
            Ok(Keywords::If)
        } else if str_eq(s, "else") {
            Ok(Keywords::Else)
        } else {
            Err(())
        }
    }

    /// Renders the keyword for diagnostics.
    pub fn to_string(&self) -> (r: String)
        ensures
            r@ == keyword_str(*self),
    {
        match self {
            Keywords::Var => String::from_str("var"),
            Keywords::Func => String::from_str("func"),
            Keywords::Mut => String::from_str("mut"),
            Keywords::Pub => String::from_str("pub"),
            Keywords::Const => String::from_str("const"),
            Keywords::Static => String::from_str("static"),
            Keywords::True => String::from_str("true"),
            Keywords::False => String::from_str("false"),
            Keywords::Return => String::from_str("return"),
            Keywords::While => String::from_str("while"),
            Keywords::If => String::from_str("if"),
            Keywords::Else => String::from_str("else"),
        }
    }
}

/// Brackets, separators, operators, and (nested) assignment operators.
#[derive(Debug, Clone, Copy, PartialEq, Eq, Structural)]
pub enum Punctuations {
    OperatorPlus,
    OperatorMinus,
    OperatorMultiply,
    OperatorDivide,
    OperatorModulo,
    OperatorPower,
    OperatorEqual,
    OperatorNotEqual,
    OperatorLessEqual,
    OperatorGreaterEqual,
    OperatorAnd,
    OperatorOr,
    OperatorNot,
    Assignment(Assignments),
    ReturnSeparator,
    MemberSeparator,
    NamespaceSeparator,
    Colon,
    AngleOpen,
    AngleClose,
    Tilde,
    InlineBody,
    ParenOpen,
    ParenClose,
    BraceOpen,
    BraceClose,
    BracketOpen,
    BracketClose,
    Semicolon,
    Comma,
}

/// The assignment operators.
#[derive(Debug, Clone, Copy, PartialEq, Eq, Structural)]
pub enum Assignments {
    Straight,
    Add,
    Subtract,
    Multiply,
    Divide,
    Modulo,
    Power,
}

/// The assignment operator for a source string, if it is one.
pub open spec fn assign_of(s: Seq<char>) -> Option<Assignments> {
    if s == "="@ {
        Some(Assignments::Straight)
    } else if s == "+="@ {
        Some(Assignments::Add)
    } else if s == "-="@ {
        Some(Assignments::Subtract)
    } else if s == "*="@ {
        Some(Assignments::Multiply)
    } else if s == "/="@ {
        Some(Assignments::Divide)
    } else if s == "%="@ {
        Some(Assignments::Modulo)
    } else if s == "**="@ {
        Some(Assignments::Power)
    } else {
        None
    }
}

/// The source string of an assignment operator.
pub open spec fn assign_str(a: Assignments) -> Seq<char> {
    match a {
        Assignments::Straight => "="@,
        Assignments::Add => "+="@,
        Assignments::Subtract => "-="@,
        Assignments::Multiply => "*="@,
        Assignments::Divide => "/="@,
        Assignments::Modulo => "%="@,
        Assignments::Power => "**="@,
    }
}

/// The punctuation for a source string, if it is one; unrecognized strings
/// fall back to the assignment operators.
pub open spec fn punct_of(s: Seq<char>) -> Option<Punctuations> {
    if s == "+"@ {
        Some(Punctuations::OperatorPlus)
    } else if s == "-"@ {
        Some(Punctuations::OperatorMinus)
    } else if s == "*"@ {
        Some(Punctuations::OperatorMultiply)
    } else if s == "/"@ {
        Some(Punctuations::OperatorDivide)
    } else if s == "%"@ {
        Some(Punctuations::OperatorModulo)
    } else if s == "**"@ {
        Some(Punctuations::OperatorPower)
    } else if s == "=="@ {
        Some(Punctuations::OperatorEqual)
    } else if s == "!="@ {
        Some(Punctuations::OperatorNotEqual)
    } else if s == "<="@ {
        Some(Punctuations::OperatorLessEqual)
    } else if s == ">="@ {
        Some(Punctuations::OperatorGreaterEqual)
    } else if s == "&&"@ {
        Some(Punctuations::OperatorAnd)
    } else if s == "||"@ {
        Some(Punctuations::OperatorOr)
    } else if s == "!"@ {
        Some(Punctuations::OperatorNot)
    } else if s == "->"@ {
        Some(Punctuations::ReturnSeparator)
    } else if s == "."@ {
        Some(Punctuations::MemberSeparator)
    } else if s == "::"@ {
        Some(Punctuations::NamespaceSeparator)
    } else if s == ":"@ {
        Some(Punctuations::Colon)
    } else if s == "<"@ {
        Some(Punctuations::AngleOpen)
    } else if s == ">"@ {
        Some(Punctuations::AngleClose)
    } else if s == "~"@ {
        Some(Punctuations::Tilde)
    } else if s == "=>"@ {
        Some(Punctuations::InlineBody)
    } else if s == "("@ {
        Some(Punctuations::ParenOpen)
    } else if s == ")"@ {
        Some(Punctuations::ParenClose)
    } else if s == "{"@ {
        Some(Punctuations::BraceOpen)
    } else if s == "}"@ {
        Some(Punctuations::BraceClose)
    } else if s == "["@ {
        Some(Punctuations::BracketOpen)
    } else if s == "]"@ {
        Some(Punctuations::BracketClose)
    } else if s == ";"@ {
        Some(Punctuations::Semicolon)
    } else if s == ","@ {
        Some(Punctuations::Comma)
    } else {
        match assign_of(s) {
            Some(a) => Some(Punctuations::Assignment(a)),
            None => None,
        }
    }
}

/// The source string of a punctuation.
pub open spec fn punct_str(p: Punctuations) -> Seq<char> {
    match p {
        Punctuations::OperatorPlus => "+"@,
        Punctuations::OperatorMinus => "-"@,
        Punctuations::OperatorMultiply => "*"@,
        Punctuations::OperatorDivide => "/"@,
        Punctuations::OperatorModulo => "%"@,
        Punctuations::OperatorPower => "**"@,
        Punctuations::OperatorEqual => "=="@,
        Punctuations::OperatorNotEqual => "!="@,
        Punctuations::OperatorLessEqual => "<="@,
        Punctuations::OperatorGreaterEqual => ">="@,
        Punctuations::OperatorAnd => "&&"@,
        Punctuations::OperatorOr => "||"@,
        Punctuations::OperatorNot => "!"@,
        Punctuations::Assignment(a) => assign_str(a),
        Punctuations::ReturnSeparator => "->"@,
        Punctuations::MemberSeparator => "."@,
        Punctuations::NamespaceSeparator => "::"@,
        Punctuations::Colon => ":"@,
        Punctuations::AngleOpen => "<"@,
        Punctuations::AngleClose => ">"@,
        Punctuations::Tilde => "~"@,
        Punctuations::InlineBody => "=>"@,
        Punctuations::ParenOpen => "("@,
        Punctuations::ParenClose => ")"@,
        Punctuations::BraceOpen => "{"@,
        Punctuations::BraceClose => "}"@,
        Punctuations::BracketOpen => "["@,
        Punctuations::BracketClose => "]"@,
        Punctuations::Semicolon => ";"@,
        Punctuations::Comma => ","@,
    }
}

impl Assignments {
    /// Decodes an assignment operator.
    pub fn from_str(s: &str) -> (r: Result<Assignments, ()>)
        ensures
            r == match assign_of(s@) {
                Some(a) => Result::<Assignments, ()>::Ok(a),
                None => Result::<Assignments, ()>::Err(()),
            },
    {
        if str_eq(s, "=") {
            Ok(Assignments::Straight)
        } else if str_eq(s, "+=") {
            Ok(Assignments::Add)
        } else if str_eq(s, "-=") {
            Ok(Assignments::Subtract)
        } else if str_eq(s, "*=") {
            Ok(Assignments::Multiply)
        } else if str_eq(s, "/=") {
            Ok(Assignments::Divide)
        } else if str_eq(s, "%=") {
            Ok(Assignments::Modulo)
        } else if str_eq(s, "**=") {
            Ok(Assignments::Power)
        } else {
            Err(())
        }
    }

    /// Renders the assignment operator as written in source.
    pub fn to_string(&self) -> (r: String)
        ensures
            r@ == assign_str(*self),
    {
        match self {
            Assignments::Straight => String::from_str("="),
            Assignments::Add => String::from_str("+="),
            Assignments::Subtract => String::from_str("-="),
            Assignments::Multiply => String::from_str("*="),
            Assignments::Divide => String::from_str("/="),
            Assignments::Modulo => String::from_str("%="),
            Assignments::Power => String::from_str("**="),
        }
    }
}

impl Punctuations {
    /// Decodes a punctuation string, falling back to assignment lookup.
    pub fn from_str(s: &str) -> (r: Result<Punctuations, ()>)
        ensures
            r == match punct_of(s@) {
                Some(p) => Result::<Punctuations, ()>::Ok(p),
                None => Result::<Punctuations, ()>::Err(()),
            },
    {
        if str_eq(s, "+") {
            Ok(Punctuations::OperatorPlus)
        } else if str_eq(s, "-") {
            Ok(Punctuations::OperatorMinus)
        } else if str_eq(s, "*") {
            Ok(Punctuations::OperatorMultiply)
        } else if str_eq(s, "/") {
            Ok(Punctuations::OperatorDivide)
        } else if str_eq(s, "%") {
            Ok(Punctuations::OperatorModulo)
        } else if str_eq(s, "**") {
            Ok(Punctuations::OperatorPower)
        } else if str_eq(s, "==") {
            Ok(Punctuations::OperatorEqual)
        } else if str_eq(s, "!=") {
            Ok(Punctuations::OperatorNotEqual)
        } else if str_eq(s, "<=") {
            Ok(Punctuations::OperatorLessEqual)
        } else if str_eq(s, ">=") {
            Ok(Punctuations::OperatorGreaterEqual)
        } else if str_eq(s, "&&") {
            Ok(Punctuations::OperatorAnd)
        } else if str_eq(s, "||") {
            Ok(Punctuations::OperatorOr)
        } else if str_eq(s, "!") {
            Ok(Punctuations::OperatorNot)
        } else if str_eq(s, "->") {
            Ok(Punctuations::ReturnSeparator)
        } else if str_eq(s, ".") {
            Ok(Punctuations::MemberSeparator)
        } else if str_eq(s, "::") {
            Ok(Punctuations::NamespaceSeparator)
        } else if str_eq(s, ":") {
            Ok(Punctuations::Colon)
        } else if str_eq(s, "<") {
            Ok(Punctuations::AngleOpen)
        } else if str_eq(s, ">") {
            Ok(Punctuations::AngleClose)
        } else if str_eq(s, "~") {
            Ok(Punctuations::Tilde)
        } else if str_eq(s, "=>") {
            Ok(Punctuations::InlineBody)
        } else if str_eq(s, "(") {
            Ok(Punctuations::ParenOpen)
        } else if str_eq(s, ")") {
            Ok(Punctuations::ParenClose)
        } else if str_eq(s, "{") {
            Ok(Punctuations::BraceOpen)
        } else if str_eq(s, "}") {
            Ok(Punctuations::BraceClose)
        } else if str_eq(s, "[") {
            Ok(Punctuations::BracketOpen)
        } else if str_eq(s, "]") {
            Ok(Punctuations::BracketClose)
        } else if str_eq(s, ";") {
            Ok(Punctuations::Semicolon)
        } else if str_eq(s, ",") {
            Ok(Punctuations::Comma)
        } else {
            match Assignments::from_str(s) {
                Ok(kind) => Ok(Punctuations::Assignment(kind)),
                Err(_) => Err(()),
            }
        }
    }

    /// Renders the punctuation as written in source.
    pub fn to_string(&self) -> (r: String)
        ensures
            r@ == punct_str(*self),
    {
        match self {
            Punctuations::OperatorPlus => String::from_str("+"),
            Punctuations::OperatorMinus => String::from_str("-"),
            Punctuations::OperatorMultiply => String::from_str("*"),
            Punctuations::OperatorDivide => String::from_str("/"),
            Punctuations::OperatorModulo => String::from_str("%"),
            Punctuations::OperatorPower => String::from_str("**"),
            Punctuations::OperatorEqual => String::from_str("=="),
            Punctuations::OperatorNotEqual => String::from_str("!="),
            Punctuations::OperatorLessEqual => String::from_str("<="),
            Punctuations::OperatorGreaterEqual => String::from_str(">="),
            Punctuations::OperatorAnd => String::from_str("&&"),
            Punctuations::OperatorOr => String::from_str("||"),
            Punctuations::OperatorNot => String::from_str("!"),
            Punctuations::Assignment(a) => a.to_string(),
            Punctuations::ReturnSeparator => String::from_str("->"),
            Punctuations::MemberSeparator => String::from_str("."),
            Punctuations::NamespaceSeparator => String::from_str("::"),
            Punctuations::Colon => String::from_str(":"),
            Punctuations::AngleOpen => String::from_str("<"),
            Punctuations::AngleClose => String::from_str(">"),
            Punctuations::Tilde => String::from_str("~"),
            Punctuations::InlineBody => String::from_str("=>"),
            Punctuations::ParenOpen => String::from_str("("),
            Punctuations::ParenClose => String::from_str(")"),
            Punctuations::BraceOpen => String::from_str("{"),
            Punctuations::BraceClose => String::from_str("}"),
            Punctuations::BracketOpen => String::from_str("["),
            Punctuations::BracketClose => String::from_str("]"),
            Punctuations::Semicolon => String::from_str(";"),
            Punctuations::Comma => String::from_str(","),
        }
    }
}

/// The rendering of a literal kind in diagnostics.
pub open spec fn literal_str(l: Literals) -> Seq<char> {
    match l {
        Literals::Integer => "integer"@,
        Literals::Float => "float"@,
        Literals::String => "string"@,
        Literals::Boolean => "boolean"@,
    }
}

impl Literals {
    /// Renders the literal kind for diagnostics.
    pub fn to_string(&self) -> (r: String)
        ensures
            r@ == literal_str(*self),
    {
        match self {
            Literals::Integer => String::from_str("integer"),
            Literals::Float => String::from_str("float"),
            Literals::String => String::from_str("string"),
            Literals::Boolean => String::from_str("boolean"),
        }
    }
}

/// The rendering of a token kind in diagnostics.
pub open spec fn tokens_str(t: Tokens) -> Seq<char> {
    match t {
        Tokens::Literal(k) => literal_str(k) + " literal"@,
        Tokens::Keyword(k) => "keyword "@ + keyword_str(k),
        Tokens::Punctuation(k) => "\""@ + punct_str(k) + "\""@,
        Tokens::Identifier => "Identifier"@,
        Tokens::EOF => "EOF"@,
        Tokens::Undefined => "Undefined"@,
        Tokens::InvalidIdentifier => "InvalidIdentifier"@,
    }
}

impl Tokens {
    /// Renders the token kind for diagnostics.
    pub fn to_string(&self) -> (r: String)
        ensures
            r@ == tokens_str(*self),
    {
        match self {
            Tokens::Literal(k) => k.to_string().concat(" literal"),
            Tokens::Keyword(k) => String::from_str("keyword ").concat(k.to_string().as_str()),
            Tokens::Punctuation(k) => String::from_str("\"").concat(
                k.to_string().as_str(),
            ).concat("\""),
            Tokens::Identifier => String::from_str("Identifier"),
            Tokens::EOF => String::from_str("EOF"),
            Tokens::Undefined => String::from_str("Undefined"),
            Tokens::InvalidIdentifier => String::from_str("InvalidIdentifier"),
        }
    }
}

} // verus!
