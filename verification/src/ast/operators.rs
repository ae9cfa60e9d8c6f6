//! Operators: the operator of a prefix or infix expression, with the token it was read from.

use vstd::prelude::*;
use vstd::string::StringExecFns;
use crate::ast::Node;
use crate::token::{Token, TokenType};

verus! {

/// The two prefix operators.
#[derive(Clone, Copy, Debug, PartialEq, Eq, Structural)]
pub enum PrefixOperatorType {
    /// `!`
    Bang,
    /// `-`
    Neg,
}

impl PrefixOperatorType {
    /// How the operator is written.
    pub open spec fn symbol(self) -> Seq<char> {
        match self {
            PrefixOperatorType::Bang => "!"@,
            PrefixOperatorType::Neg => "-"@,
        }
    }

    /// The token kind that the lexer gives the operator.
    pub open spec fn token_kind(self) -> TokenType {
        match self {
            PrefixOperatorType::Bang => TokenType::Bang,
            PrefixOperatorType::Neg => TokenType::Minus,
        }
    }

    pub fn as_str(&self) -> (s: &'static str)
        ensures
            s@ == self.symbol(),
    {
        match self {
            PrefixOperatorType::Bang => "!",
            PrefixOperatorType::Neg => "-",
        }
    }

    pub fn to_string(&self) -> (s: String)
        ensures
            s@ == self.symbol(),
    {
        String::from_str(self.as_str())
    }
}

/// A prefix operator as it stands in the syntax tree.
#[derive(Debug, PartialEq, Eq)]
pub struct PrefixOperator {
    /// The token that the operator was read from.
    pub token: Token,
    /// Which operator it is.
    pub kind: PrefixOperatorType,
}

impl PrefixOperator {
    pub fn new(token: Token, kind: PrefixOperatorType) -> (operator: PrefixOperator)
        ensures
            operator.token == token,
            operator.kind == kind,
    {
        PrefixOperator { token, kind }
    }

    pub fn to_string(&self) -> (s: String)
        ensures
            s@ == self.kind.symbol(),
    {
        self.kind.to_string()
    }
}

impl Clone for PrefixOperator {
    fn clone(&self) -> (operator: PrefixOperator)
        ensures
            operator == *self,
    {
        PrefixOperator { token: self.token.clone(), kind: self.kind }
    }
}

impl Node for PrefixOperator {
    open spec fn token_lexeme(&self) -> Seq<char> {
        self.token.literal@
    }

    fn token_literal(&self) -> (literal: String)
        ensures
            literal@ == self.token.literal@,
    {
        self.token.literal.clone()
    }
}

/// The eight infix operators.
#[derive(Clone, Copy, Debug, PartialEq, Eq, Structural)]
pub enum InfixOperatorType {
    /// `+`
    Add,
    /// `-`
    Sub,
    /// `*`
    Mul,
    /// `/`
    Div,
    /// `==`
    Eq,
    /// `!=`
    NotEq,
    /// `<`
    Lt,
    /// `>`
    Gt,
}

impl InfixOperatorType {
    /// How the operator is written.
    pub open spec fn symbol(self) -> Seq<char> {
        match self {
            InfixOperatorType::Add => "+"@,
            InfixOperatorType::Sub => "-"@,
            InfixOperatorType::Mul => "*"@,
            InfixOperatorType::Div => "/"@,
            InfixOperatorType::Eq => "=="@,
            InfixOperatorType::NotEq => "!="@,
            InfixOperatorType::Lt => "<"@,
            InfixOperatorType::Gt => ">"@,
        }
    }

    /// The token kind that the lexer gives the operator.
    pub open spec fn token_kind(self) -> TokenType {
        match self {
            InfixOperatorType::Add => TokenType::Plus,
            InfixOperatorType::Sub => TokenType::Minus,
            InfixOperatorType::Mul => TokenType::Star,
            InfixOperatorType::Div => TokenType::Slash,
            InfixOperatorType::Eq => TokenType::Eq,
            InfixOperatorType::NotEq => TokenType::NotEq,
            InfixOperatorType::Lt => TokenType::Lt,
            InfixOperatorType::Gt => TokenType::Gt,
        }
    }

    pub fn as_str(&self) -> (s: &'static str)
        ensures
            s@ == self.symbol(),
    {
        match self {
            InfixOperatorType::Add => "+",
            InfixOperatorType::Sub => "-",
            InfixOperatorType::Mul => "*",
            InfixOperatorType::Div => "/",
            InfixOperatorType::Eq => "==",
            InfixOperatorType::NotEq => "!=",
            InfixOperatorType::Lt => "<",
            InfixOperatorType::Gt => ">",
        }
    }

    pub fn to_string(&self) -> (s: String)
        ensures
            s@ == self.symbol(),
    {
        String::from_str(self.as_str())
    }
}

/// An infix operator as it stands in the syntax tree.
#[derive(Debug, PartialEq, Eq)]
pub struct InfixOperator {
    /// The token that the operator was read from.
    pub token: Token,
    /// Which operator it is.
    pub kind: InfixOperatorType,
}

impl InfixOperator {
    pub fn new(token: Token, kind: InfixOperatorType) -> (operator: InfixOperator)
        ensures
            operator.token == token,
            operator.kind == kind,
    {
        InfixOperator { token, kind }
    }

    pub fn to_string(&self) -> (s: String)
        ensures
            s@ == self.kind.symbol(),
    {
        self.kind.to_string()
    }
}

impl Clone for InfixOperator {
    fn clone(&self) -> (operator: InfixOperator)
        ensures
            operator == *self,
    {
        InfixOperator { token: self.token.clone(), kind: self.kind }
    }
}

impl Node for InfixOperator {
    open spec fn token_lexeme(&self) -> Seq<char> {
        self.token.literal@
    }

    fn token_literal(&self) -> (literal: String)
        ensures
            literal@ == self.token.literal@,
    {
        self.token.literal.clone()
    }
}

} // verus!
