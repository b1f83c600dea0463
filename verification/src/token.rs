//! Tokens, as the parser reads them.
use vstd::prelude::*;

verus! {

/// The kind of a token. A number holds the IEEE-754 binary64 bit pattern of
/// its value.
#[derive(Debug)]
pub enum TokenKind {
    Let,
    Print,
    Ident(String),
    Number(u64),
    String(String),
    Plus,
    Minus,
    Star,
    Slash,
    Equal,
    EqualEqual,
    BangEqual,
    Greater,
    GreaterEqual,
    Less,
    LessEqual,
    LParen,
    RParen,
    LBrace,
    RBrace,
    Semicolon,
    LBracket,
    RBracket,
    If,
    Else,
    While,
    For,
    In,
    Eof,
    Fn,
    Return,
    Comma,
    True,
    False,
}

/// A token: its kind, the text it was read from, and where that text starts.
#[derive(Debug)]
pub struct Token {
    pub kind: TokenKind,
    pub lexeme: String,
    pub pos: usize,
}

/// The variant of a kind, as a number (the payload of identifiers,
/// numbers and strings does not count).
pub open spec fn kind_tag(k: TokenKind) -> int {
    match k {
        TokenKind::Let => 0,
        TokenKind::Print => 1,
        TokenKind::Ident(_) => 2,
        TokenKind::Number(_) => 3,
        TokenKind::String(_) => 4,
        TokenKind::Plus => 5,
        TokenKind::Minus => 6,
        TokenKind::Star => 7,
        TokenKind::Slash => 8,
        TokenKind::Equal => 9,
        TokenKind::EqualEqual => 10,
        TokenKind::BangEqual => 11,
        TokenKind::Greater => 12,
        TokenKind::GreaterEqual => 13,
        TokenKind::Less => 14,
        TokenKind::LessEqual => 15,
        TokenKind::LParen => 16,
        TokenKind::RParen => 17,
        TokenKind::LBrace => 18,
        TokenKind::RBrace => 19,
        TokenKind::Semicolon => 20,
        TokenKind::LBracket => 21,
        TokenKind::RBracket => 22,
        TokenKind::If => 23,
        TokenKind::Else => 24,
        TokenKind::While => 25,
        TokenKind::For => 26,
        TokenKind::In => 27,
        TokenKind::Eof => 28,
        TokenKind::Fn => 29,
        TokenKind::Return => 30,
        TokenKind::Comma => 31,
        TokenKind::True => 32,
        TokenKind::False => 33,
    }
}

/// Two kinds match when they are the same variant; `true` and `false`
/// match nothing.
pub open spec fn spec_kind_matches(a: TokenKind, b: TokenKind) -> bool {
    kind_tag(a) == kind_tag(b) && !(a is True) && !(a is False)
}

/// Whether a kind is the end-of-input marker.
pub open spec fn is_eof(k: TokenKind) -> bool {
    k is Eof
}

/// Whether two kinds match, as `spec_kind_matches` states.
pub fn token_kind_matches(a: &TokenKind, b: &TokenKind) -> (r: bool)
    ensures
        r == spec_kind_matches(*a, *b),
{
    match (a, b) {
        (TokenKind::Let, TokenKind::Let)
        | (TokenKind::Print, TokenKind::Print)
        | (TokenKind::If, TokenKind::If)
        | (TokenKind::Else, TokenKind::Else)
        | (TokenKind::While, TokenKind::While)
        | (TokenKind::Plus, TokenKind::Plus)
        | (TokenKind::Minus, TokenKind::Minus)
        | (TokenKind::Star, TokenKind::Star)
        | (TokenKind::Slash, TokenKind::Slash)
        | (TokenKind::EqualEqual, TokenKind::EqualEqual)
        | (TokenKind::BangEqual, TokenKind::BangEqual)
        | (TokenKind::Greater, TokenKind::Greater)
        | (TokenKind::GreaterEqual, TokenKind::GreaterEqual)
        | (TokenKind::Less, TokenKind::Less)
        | (TokenKind::LessEqual, TokenKind::LessEqual)
        | (TokenKind::Equal, TokenKind::Equal)
        | (TokenKind::LParen, TokenKind::LParen)
        | (TokenKind::RParen, TokenKind::RParen)
        | (TokenKind::LBrace, TokenKind::LBrace)
        | (TokenKind::RBrace, TokenKind::RBrace)
        | (TokenKind::LBracket, TokenKind::LBracket)
        | (TokenKind::RBracket, TokenKind::RBracket)
        | (TokenKind::Semicolon, TokenKind::Semicolon)
        | (TokenKind::Eof, TokenKind::Eof)
        | (TokenKind::Number(_), TokenKind::Number(_))
        | (TokenKind::String(_), TokenKind::String(_))
        | (TokenKind::Ident(_), TokenKind::Ident(_))
        | (TokenKind::Fn, TokenKind::Fn)
        | (TokenKind::Return, TokenKind::Return)
        | (TokenKind::Comma, TokenKind::Comma)
        | (TokenKind::For, TokenKind::For)
        | (TokenKind::In, TokenKind::In) => true,
        _ => false,
    }
}

impl TokenKind {
    /// An identical copy.
    pub fn copy(&self) -> (r: TokenKind)
        ensures
            r == *self,
    {
        match self {
            TokenKind::Let => TokenKind::Let,
            TokenKind::Print => TokenKind::Print,
            TokenKind::Ident(s) => TokenKind::Ident(s.clone()),
            TokenKind::Number(n) => TokenKind::Number(*n),
            TokenKind::String(s) => TokenKind::String(s.clone()),
            TokenKind::Plus => TokenKind::Plus,
            TokenKind::Minus => TokenKind::Minus,
            TokenKind::Star => TokenKind::Star,
            TokenKind::Slash => TokenKind::Slash,
            TokenKind::Equal => TokenKind::Equal,
            TokenKind::EqualEqual => TokenKind::EqualEqual,
            TokenKind::BangEqual => TokenKind::BangEqual,
            TokenKind::Greater => TokenKind::Greater,
            TokenKind::GreaterEqual => TokenKind::GreaterEqual,
            TokenKind::Less => TokenKind::Less,
            TokenKind::LessEqual => TokenKind::LessEqual,
            TokenKind::LParen => TokenKind::LParen,
            TokenKind::RParen => TokenKind::RParen,
            TokenKind::LBrace => TokenKind::LBrace,
            TokenKind::RBrace => TokenKind::RBrace,
            TokenKind::Semicolon => TokenKind::Semicolon,
            TokenKind::LBracket => TokenKind::LBracket,
            TokenKind::RBracket => TokenKind::RBracket,
            TokenKind::If => TokenKind::If,
            TokenKind::Else => TokenKind::Else,
            TokenKind::While => TokenKind::While,
            TokenKind::For => TokenKind::For,
            TokenKind::In => TokenKind::In,
            TokenKind::Eof => TokenKind::Eof,
            TokenKind::Fn => TokenKind::Fn,
            TokenKind::Return => TokenKind::Return,
            TokenKind::Comma => TokenKind::Comma,
            TokenKind::True => TokenKind::True,
            TokenKind::False => TokenKind::False,
        }
    }
}

impl Token {
    /// An identical copy.
    pub fn copy(&self) -> (r: Token)
        ensures
            r == *self,
    {
        Token { kind: self.kind.copy(), lexeme: self.lexeme.clone(), pos: self.pos }
    }
}

} // verus!
