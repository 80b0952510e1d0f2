use vstd::prelude::*;

verus! {

/// Where a token starts in the source: a 1-based line and a 0-based column.
#[derive(Debug, PartialEq, Eq, Structural, Clone, Copy)]
pub struct SourceRef {
    pub line: u32,
    pub column: u32,
}

/// The kinds of tokens. A float literal keeps its source text.
#[derive(Debug, PartialEq, Clone)]
pub enum TokenKind {
    Let,
    Const,
    Fun,
    Return,
    If,
    True,
    False,
    Null,
    Assign,
    Equals,
    NotEquals,
    Minus,
    Plus,
    Multiplication,
    Division,
    Arrow,
    Comma,
    Dot,
    Semicolon,
    LeftParens,
    RightParens,
    LeftBrace,
    RightBrace,
    Identifier(String),
    Integer(i32),
    Float(String),
    Str(String),
}

/// The mathematical form of a token kind: texts as character sequences.
pub enum Kind {
    Let,
    Const,
    Fun,
    Return,
    If,
    True,
    False,
    Null,
    Assign,
    Equals,
    NotEquals,
    Minus,
    Plus,
    Multiplication,
    Division,
    Arrow,
    Comma,
    Dot,
    Semicolon,
    LeftParens,
    RightParens,
    LeftBrace,
    RightBrace,
    Identifier(Seq<char>),
    Integer(i32),
    Float(Seq<char>),
    Str(Seq<char>),
}

impl View for TokenKind {
    type V = Kind;

    open spec fn view(&self) -> Kind {
        match self {
            TokenKind::Let => Kind::Let,
            TokenKind::Const => Kind::Const,
            TokenKind::Fun => Kind::Fun,
            TokenKind::Return => Kind::Return,
            TokenKind::If => Kind::If,
            TokenKind::True => Kind::True,
            TokenKind::False => Kind::False,
            TokenKind::Null => Kind::Null,
            TokenKind::Assign => Kind::Assign,
            TokenKind::Equals => Kind::Equals,
            TokenKind::NotEquals => Kind::NotEquals,
            TokenKind::Minus => Kind::Minus,
            TokenKind::Plus => Kind::Plus,
            TokenKind::Multiplication => Kind::Multiplication,
            TokenKind::Division => Kind::Division,
            TokenKind::Arrow => Kind::Arrow,
            TokenKind::Comma => Kind::Comma,
            TokenKind::Dot => Kind::Dot,
            TokenKind::Semicolon => Kind::Semicolon,
            TokenKind::LeftParens => Kind::LeftParens,
            TokenKind::RightParens => Kind::RightParens,
            TokenKind::LeftBrace => Kind::LeftBrace,
            TokenKind::RightBrace => Kind::RightBrace,
            TokenKind::Identifier(s) => Kind::Identifier(s@),
            TokenKind::Integer(i) => Kind::Integer(*i),
            TokenKind::Float(s) => Kind::Float(s@),
            TokenKind::Str(s) => Kind::Str(s@),
        }
    }
}

/// A token together with the place where it starts.
#[derive(Debug, PartialEq)]
pub struct Token {
    pub source_ref: SourceRef,
    pub token_kind: TokenKind,
}

/// The mathematical form of a token.
pub struct TokenModel {
    pub kind: Kind,
    pub source_ref: SourceRef,
}

impl View for Token {
    type V = TokenModel;

    open spec fn view(&self) -> TokenModel {
        TokenModel { kind: self.token_kind@, source_ref: self.source_ref }
    }
}

impl Token {
    pub fn new(token_kind: TokenKind, line: u32, column: u32) -> (r: Token)
        ensures
            r.token_kind == token_kind,
            r.source_ref == (SourceRef { line, column }),
    {
        Token { token_kind, source_ref: SourceRef { line, column } }
    }
}

} // verus!
