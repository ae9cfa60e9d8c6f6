//! Binding powers: how tightly each operator holds its operands.

use vstd::prelude::*;
use crate::token::TokenType;

verus! {

/// The seven levels of binding power, from the loosest to the tightest.
#[derive(Clone, Copy, Debug, PartialEq, Eq, PartialOrd, Ord, Structural)]
pub enum Precedence {
    Lowest,
    /// `==` and `!=`
    Equals,
    /// `<` and `>`
    LessGreater,
    /// `+` and `-`
    Sum,
    /// `*` and `/`
    Product,
    /// `-x` and `!x`
    Prefix,
    /// `f(x)`
    Call,
}

impl Precedence {
    /// The level as a number: `0` for the loosest, `6` for the tightest.
    pub open spec fn level(self) -> nat {
        match self {
            Precedence::Lowest => 0,
            Precedence::Equals => 1,
            Precedence::LessGreater => 2,
            Precedence::Sum => 3,
            Precedence::Product => 4,
            Precedence::Prefix => 5,
            Precedence::Call => 6,
        }
    }

    /// The level as a number.
    pub fn rank(&self) -> (rank: u8)
        ensures
            rank == self.level(),
    {
        match self {
            Precedence::Lowest => 0,
            Precedence::Equals => 1,
            Precedence::LessGreater => 2,
            Precedence::Sum => 3,
            Precedence::Product => 4,
            Precedence::Prefix => 5,
            Precedence::Call => 6,
        }
    }
}

/// The binding power of a token kind in infix position. A kind that is no
/// infix operator binds at the lowest level; no kind binds at the level
/// `Prefix`.
pub open spec fn binding_power(kind: TokenType) -> Precedence {
    match kind {
        TokenType::Eq => Precedence::Equals,
        TokenType::NotEq => Precedence::Equals,
        TokenType::Lt => Precedence::LessGreater,
        TokenType::Gt => Precedence::LessGreater,
        TokenType::Plus => Precedence::Sum,
        TokenType::Minus => Precedence::Sum,
        TokenType::Slash => Precedence::Product,
        TokenType::Star => Precedence::Product,
        TokenType::LParen => Precedence::Call,
        _ => Precedence::Lowest,
    }
}

/// The binding power of a token kind in infix position.
pub fn precedence_of(token_type: &TokenType) -> (precedence: Precedence)
    ensures
        precedence == binding_power(*token_type),
{
    match token_type {
        TokenType::Eq => Precedence::Equals,
        TokenType::NotEq => Precedence::Equals,
        TokenType::Lt => Precedence::LessGreater,
        TokenType::Gt => Precedence::LessGreater,
        TokenType::Plus => Precedence::Sum,
        TokenType::Minus => Precedence::Sum,
        TokenType::Slash => Precedence::Product,
        TokenType::Star => Precedence::Product,
        TokenType::LParen => Precedence::Call,
        _ => Precedence::Lowest,
    }
}

} // verus!
