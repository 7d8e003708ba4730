//! Lexical token model: token kinds, literal payloads, and the `Token`
//! value produced by the scanner and consumed by the parser.

use vstd::prelude::*;

verus! {

/// The kind of a lexical token. `Int` is the tag the code generator gives
/// to numeric results and to comparison results; the scanner never emits it.
#[derive(Clone, Copy, Debug, PartialEq, Eq, Structural)]
pub enum TokenType {
    LeftParen,
    RightParen,
    LeftBrace,
    RightBrace,
    Comma,
    Dot,
    Minus,
    Plus,
    Semicolon,
    Slash,
    Star,
    Modulus,
    Bang,
    BangEqual,
    Equal,
    EqualEqual,
    Greater,
    GreaterEqual,
    Less,
    LessEqual,
    Identifier,
    StringLit,
    Number,
    KwAnd,
    KwClass,
    KwElse,
    KwFalse,
    KwFor,
    KwFun,
    KwIf,
    KwNil,
    KwOr,
    KwPrint,
    KwReturn,
    KwSuper,
    KwThis,
    KwTrue,
    KwFloat,
    KwString,
    KwBool,
    KwWhile,
    KwBreak,
    KwContinue,
    Int,
    Eof,
}

/// A literal payload attached to a token. A number literal carries the
/// numeral exactly as it was spelled in the source (a digit run, optionally
/// followed by `.` and a digit run); the backend turns that text into a
/// machine float when it emits the constant.
#[derive(Clone, Debug)]
pub enum Literal {
    StringLiteral(String),
    FLiteral(String),
    ILiteral(i64),
    IdentifierLiteral(String),
}

/// Mathematical model of a `Literal`.
pub enum LiteralModel {
    StringLiteral(Seq<char>),
    FLiteral(Seq<char>),
    ILiteral(int),
    IdentifierLiteral(Seq<char>),
}

impl View for Literal {
    type V = LiteralModel;

    open spec fn view(&self) -> LiteralModel {
        match self {
            Literal::StringLiteral(s) => LiteralModel::StringLiteral(s@),
            Literal::FLiteral(s) => LiteralModel::FLiteral(s@),
            Literal::ILiteral(i) => LiteralModel::ILiteral(*i as int),
            Literal::IdentifierLiteral(s) => LiteralModel::IdentifierLiteral(s@),
        }
    }
}

/// A classified lexical unit: kind, the source text it covers, an optional
/// literal payload, and the 1-based source line it was reported on.
#[derive(Clone, Debug)]
pub struct Token {
    pub token_type: TokenType,
    pub lexeme: String,
    pub literal: Option<Literal>,
    pub line: usize,
}

/// Mathematical model of a `Token`.
pub struct TokenModel {
    pub token_type: TokenType,
    pub lexeme: Seq<char>,
    pub literal: Option<LiteralModel>,
    pub line: int,
}

impl View for Token {
    type V = TokenModel;

    open spec fn view(&self) -> TokenModel {
        TokenModel {
            token_type: self.token_type,
            lexeme: self.lexeme@,
            literal: match self.literal {
                Option::Some(l) => Option::Some(l@),
                Option::None => Option::None,
            },
            line: self.line as int,
        }
    }
}

impl Token {
    pub fn new(t_type: TokenType, lexeme: String, literal: Option<Literal>, line: usize) -> (t:
        Token)
        ensures
            t.token_type == t_type,
            t.lexeme == lexeme,
            t.literal == literal,
            t.line == line,
    {
        Token { token_type: t_type, lexeme, literal, line }
    }
}

} // verus!
