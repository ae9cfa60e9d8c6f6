//! Tokens: a kind tag together with the exact lexeme.

use vstd::prelude::*;
use vstd::string::StringExecFns;

verus! {

/// The closed set of token kinds.
#[derive(Clone, Copy, Debug, PartialEq, Eq, Hash, Structural)]
pub enum TokenType {
    Eof,
    Illegal,
    // Identifiers and literals
    Ident,
    Int,
    // Operators
    Assign,
    Plus,
    Minus,
    Bang,
    Star,
    Slash,
    Lt,
    Gt,
    Eq,
    NotEq,
    // Delimiters
    Comma,
    Semicolon,
    LParen,
    RParen,
    LBrace,
    RBrace,
    // Keywords
    Function,
    Let,
    If,
    Else,
    Return,
    True,
    False,
}

impl TokenType {
    /// The name under which a kind appears in diagnostics.
    pub open spec fn name(self) -> Seq<char> {
        match self {
            TokenType::Illegal => "ILLEGAL"@,
            TokenType::Eof => "EOF"@,
            TokenType::Ident => "IDENT"@,
            TokenType::Int => "INT"@,
            TokenType::Assign => "="@,
            TokenType::Plus => "+"@,
            TokenType::Minus => "-"@,
            TokenType::Bang => "!"@,
            TokenType::Star => "*"@,
            TokenType::Slash => "/"@,
            TokenType::Lt => "<"@,
            TokenType::Gt => ">"@,
            TokenType::Eq => "=="@,
            TokenType::NotEq => "!="@,
            TokenType::Comma => ","@,
            TokenType::Semicolon => ";"@,
            TokenType::LParen => "("@,
            TokenType::RParen => ")"@,
            TokenType::LBrace => "{"@,
            TokenType::RBrace => "}"@,
            TokenType::Function => "FUNCTION"@,
            TokenType::Let => "LET"@,
            TokenType::If => "IF"@,
            TokenType::Else => "ELSE"@,
            TokenType::Return => "RETURN"@,
            TokenType::True => "TRUE"@,
            TokenType::False => "FALSE"@,
        }
    }

    /// The diagnostic name as a borrowed string.
    pub fn as_str(&self) -> (s: &'static str)
        ensures
            s@ == self.name(),
    {
        match self {
            TokenType::Illegal => "ILLEGAL",
            TokenType::Eof => "EOF",
            TokenType::Ident => "IDENT",
            TokenType::Int => "INT",
            TokenType::Assign => "=",
            TokenType::Plus => "+",
            TokenType::Minus => "-",
            TokenType::Bang => "!",
            TokenType::Star => "*",
            TokenType::Slash => "/",
            TokenType::Lt => "<",
            TokenType::Gt => ">",
            TokenType::Eq => "==",
            TokenType::NotEq => "!=",
            TokenType::Comma => ",",
            TokenType::Semicolon => ";",
            TokenType::LParen => "(",
            TokenType::RParen => ")",
            TokenType::LBrace => "{",
            TokenType::RBrace => "}",
            TokenType::Function => "FUNCTION",
            TokenType::Let => "LET",
            TokenType::If => "IF",
            TokenType::Else => "ELSE",
            TokenType::Return => "RETURN",
            TokenType::True => "TRUE",
            TokenType::False => "FALSE",
        }
    }

    /// The diagnostic name as an owned string.
    pub fn to_string(&self) -> (s: String)
        ensures
            s@ == self.name(),
    {
        String::from_str(self.as_str())
    }
}

impl Default for TokenType {
    fn default() -> (kind: TokenType)
        ensures
            kind == TokenType::Eof,
    {
        TokenType::Eof
    }
}

/// What a token is, as a mathematical value: its kind and its lexeme.
pub struct TokenView {
    pub kind: TokenType,
    pub literal: Seq<char>,
}

/// A token: the kind and the exact lexeme it was read from.
#[derive(Debug, Eq, Hash)]
pub struct Token {
    /// The kind of the token.
    pub kind: TokenType,
    /// The lexeme.
    pub literal: String,
}

impl View for Token {
    type V = TokenView;

    open spec fn view(&self) -> TokenView {
        TokenView { kind: self.kind, literal: self.literal@ }
    }
}

impl PartialEq for Token {
    /// Two tokens are equal if they are of one kind and have one lexeme.
    fn eq(&self, other: &Token) -> (same: bool) {
        self.kind == other.kind && self.literal == other.literal
    }
}

impl vstd::std_specs::cmp::PartialEqSpecImpl for Token {
    open spec fn obeys_eq_spec() -> bool {
        true
    }

    open spec fn eq_spec(&self, other: &Token) -> bool {
        self.kind == other.kind && self.literal@ == other.literal@
    }
}

impl Clone for Token {
    fn clone(&self) -> (token: Token)
        ensures
            token == *self,
    {
        Token { kind: self.kind, literal: self.literal.clone() }
    }
}

impl Default for Token {
    fn default() -> (token: Token)
        ensures
            token@ == end_of_input(),
    {
        Token { kind: TokenType::Eof, literal: String::new() }
    }
}

/// The token that stands for the end of the input: `Eof` with an empty lexeme.
pub open spec fn end_of_input() -> TokenView {
    TokenView { kind: TokenType::Eof, literal: Seq::empty() }
}

/// The kind of a word: one of the seven keywords, or `Ident`.
pub open spec fn keyword_kind(word: Seq<char>) -> TokenType {
    if word == "fn"@ {
        TokenType::Function
    } else if word == "let"@ {
        TokenType::Let
    } else if word == "if"@ {
        TokenType::If
    } else if word == "else"@ {
        TokenType::Else
    } else if word == "true"@ {
        TokenType::True
    } else if word == "false"@ {
        TokenType::False
    } else if word == "return"@ {
        TokenType::Return
    } else {
        TokenType::Ident
    }
}

/// Whether `word` is spelled exactly as `expected`.
fn spelled(word: &String, expected: &str) -> (same: bool)
    ensures
        same == (word@ == expected@),
{
    let other = String::from_str(expected);
    *word == other
}

impl Token {
    /// A token of the given kind with the given lexeme.
    pub fn new(kind: TokenType, literal: &str) -> (token: Token)
        ensures
            token@ == (TokenView { kind, literal: literal@ }),
    {
        Token { kind, literal: String::from_str(literal) }
    }

    /// The token for a word read by the lexer: a keyword token if the word is
    /// a keyword, an identifier token otherwise. The word is the lexeme.
    pub fn from_ident(ident: String) -> (token: Token)
        ensures
            token@ == (TokenView { kind: keyword_kind(ident@), literal: ident@ }),
    {
        let kind = if spelled(&ident, "fn") {
            TokenType::Function
        } else if spelled(&ident, "let") {
            TokenType::Let
        } else if spelled(&ident, "if") {
            TokenType::If
        } else if spelled(&ident, "else") {
            TokenType::Else
        } else if spelled(&ident, "true") {
            TokenType::True
        } else if spelled(&ident, "false") {
            TokenType::False
        } else if spelled(&ident, "return") {
            TokenType::Return
        } else {
            TokenType::Ident
        };
        Token { kind, literal: ident }
    }
}

} // verus!
