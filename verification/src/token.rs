//! Token records produced by the scanner: the token kind, the decoded
//! literal payload, and the token itself with its source position.

use vstd::prelude::*;

verus! {

/// The closed enumeration of token kinds: single-character punctuation,
/// one/two-character operators, literal kinds, reserved words, and the
/// terminal end-of-input marker.
#[derive(Debug, Clone, Copy, PartialEq, Eq, Structural)]
pub enum TokenType {
    LeftParen,
    RightParen,
    LeftBrace,
    RightBrace,
    Comma,
    Dot,
    Minus,
    Plus,
    Semicolon,
    Star,
    Slash,
    Bang,
    BangEqual,
    Equal,
    EqualEqual,
    Less,
    LessEqual,
    Greater,
    GreaterEqual,
    String,
    Number,
    Identifier,
    And,
    Class,
    Else,
    False,
    For,
    Fun,
    If,
    Nil,
    Or,
    Print,
    Return,
    Super,
    This,
    True,
    Var,
    While,
    Eof,
}

/// Decoded literal value carried by literal-bearing tokens.
///
/// A number literal carries the exact numeric text of its lexeme (a run of
/// decimal digits with at most one interior dot), which is guaranteed to
/// parse as a 64-bit floating-point value; the conversion itself is left to
/// unverified callers, since verified code holds no floating point.
#[derive(Debug, Clone, PartialEq, Eq)]
pub enum Literal {
    String(std::string::String),
    Number(std::string::String),
    Boolean(bool),
    Nil,
}

/// Mathematical image of a `Literal`: text payloads become character
/// sequences.
pub ghost enum LiteralV {
    String(Seq<char>),
    Number(Seq<char>),
    Boolean(bool),
    Nil,
}

impl View for Literal {
    type V = LiteralV;

    open spec fn view(&self) -> LiteralV {
        match self {
            Literal::String(s) => LiteralV::String(s@),
            Literal::Number(s) => LiteralV::Number(s@),
            Literal::Boolean(b) => LiteralV::Boolean(*b),
            Literal::Nil => LiteralV::Nil,
        }
    }
}

impl DeepView for Literal {
    type V = LiteralV;

    open spec fn deep_view(&self) -> LiteralV {
        self.view()
    }
}

/// One lexeme of the source, classified: its kind, the exact source
/// substring it was derived from, an optional decoded literal, and the
/// line/column of its last consumed character.
#[derive(Debug, Clone)]
pub struct Token {
    pub token_type: TokenType,
    pub lexeme: std::string::String,
    pub literal: Option<Literal>,
    pub line: u32,
    pub column: u32,
}

/// Mathematical image of a `Token`: the lexeme as a character sequence and
/// positions as unbounded integers.
#[verifier::ext_equal]
pub ghost struct TokenV {
    pub token_type: TokenType,
    pub lexeme: Seq<char>,
    pub literal: Option<LiteralV>,
    pub line: int,
    pub column: int,
}

impl View for Token {
    type V = TokenV;

    open spec fn view(&self) -> TokenV {
        TokenV {
            token_type: self.token_type,
            lexeme: self.lexeme@,
            literal: match self.literal {
                Some(l) => Some(l@),
                None => None,
            },
            line: self.line as int,
            column: self.column as int,
        }
    }
}

impl DeepView for Token {
    type V = TokenV;

    open spec fn deep_view(&self) -> TokenV {
        self.view()
    }
}

impl Token {
    /// Builds a token from its parts; the record is immutable afterwards.
    pub fn new(
        token_type: TokenType,
        lexeme: std::string::String,
        literal: Option<Literal>,
        line: u32,
        column: u32,
    ) -> (t: Token)
        ensures
            t@ == (TokenV {
                token_type,
                lexeme: lexeme@,
                literal: match literal {
                    Some(l) => Some(l@),
                    None => None,
                },
                line: line as int,
                column: column as int,
            }),
    {
        Token { token_type, lexeme, literal, line, column }
    }
}

} // verus!
