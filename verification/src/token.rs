use vstd::prelude::*;

verus! {

/// Kind tag of a lexical token. The tag carries no payload, so it stays a
/// plain structurally comparable value; a string token's contents and a
/// number token's digits travel in the `Token` beside its lexeme.
#[derive(Clone, Copy, PartialEq, Eq, Structural, Debug)]
pub enum TokenType {
    LeftParen,
    RightParen,
    LeftBrace,
    RightBrace,
    Comma,
    Dot,
    Minus,
    Plus,
    Semicolon,
    Slash,
    Star,
    Bang,
    BangEqual,
    Equal,
    EqualEqual,
    Greater,
    GreaterEqual,
    Less,
    LessEqual,
    Identifier,
    Str,
    Number,
    And,
    Class,
    Else,
    False,
    Fun,
    For,
    If,
    Nil,
    Or,
    Print,
    Return,
    Super,
    This,
    True,
    Var,
    While,
    Eof,
    Unknown,
}

/// One lexical token: its kind, the source text it covers, the contents of
/// a string literal (between the quotes) when the kind is `Str`, and the
/// line it started on, for diagnostics.
#[derive(Debug)]
pub struct Token {
    pub token_type: TokenType,
    pub lexeme: String,
    pub literal: Option<String>,
    pub line: i32,
}

impl Token {
    pub fn new(token_type: TokenType, lexeme: String, line: i32) -> (r: Self)
        ensures
            r.token_type == token_type,
            r.lexeme == lexeme,
            r.literal is None,
            r.line == line,
    {
        Self { token_type, lexeme, literal: None, line }
    }
}

impl Clone for Token {
    fn clone(&self) -> (r: Self)
        ensures
            r == *self,
    {
        Token {
            token_type: self.token_type,
            lexeme: self.lexeme.clone(),
            literal: match &self.literal {
                Some(s) => Some(s.clone()),
                None => None,
            },
            line: self.line,
        }
    }
}

} // verus!
