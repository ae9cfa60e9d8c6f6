//! The parse tables: which token kinds start an expression, which continue
//! one, and which operator each stands for.

use vstd::prelude::*;
use crate::ast::operators::{InfixOperatorType, PrefixOperatorType};
use crate::parser::precedence::{binding_power, precedence_of, Precedence};
use crate::token::TokenType;

verus! {

/// How an expression may start.
#[derive(Clone, Copy, Debug, PartialEq, Eq, Structural)]
pub enum PrefixHandler {
    /// A name.
    Identifier,
    /// An integer literal.
    Integer,
    /// `true` or `false`.
    Boolean,
    /// A prefix operator and its operand.
    Prefix(PrefixOperatorType),
    /// An expression in parentheses.
    Grouped,
    /// A conditional.
    If,
    /// A function literal.
    Function,
}

/// How an expression may go on after a left operand.
#[derive(Clone, Copy, Debug, PartialEq, Eq, Structural)]
pub enum InfixHandler {
    /// A binary operator and its right operand.
    Binary(InfixOperatorType),
    /// The arguments of a call.
    Call,
}

/// The prefix table: the handler registered for a token kind, if any.
pub open spec fn prefix_handler(kind: TokenType) -> Option<PrefixHandler> {
    match kind {
        TokenType::Ident => Some(PrefixHandler::Identifier),
        TokenType::Int => Some(PrefixHandler::Integer),
        TokenType::True => Some(PrefixHandler::Boolean),
        TokenType::False => Some(PrefixHandler::Boolean),
        TokenType::Bang => Some(PrefixHandler::Prefix(PrefixOperatorType::Bang)),
        TokenType::Minus => Some(PrefixHandler::Prefix(PrefixOperatorType::Neg)),
        TokenType::LParen => Some(PrefixHandler::Grouped),
        TokenType::If => Some(PrefixHandler::If),
        TokenType::Function => Some(PrefixHandler::Function),
        _ => None,
    }
}

/// The infix table: the handler registered for a token kind, if any.
pub open spec fn infix_handler(kind: TokenType) -> Option<InfixHandler> {
    match kind {
        TokenType::Plus => Some(InfixHandler::Binary(InfixOperatorType::Add)),
        TokenType::Minus => Some(InfixHandler::Binary(InfixOperatorType::Sub)),
        TokenType::Slash => Some(InfixHandler::Binary(InfixOperatorType::Div)),
        TokenType::Star => Some(InfixHandler::Binary(InfixOperatorType::Mul)),
        TokenType::Eq => Some(InfixHandler::Binary(InfixOperatorType::Eq)),
        TokenType::NotEq => Some(InfixHandler::Binary(InfixOperatorType::NotEq)),
        TokenType::Lt => Some(InfixHandler::Binary(InfixOperatorType::Lt)),
        TokenType::Gt => Some(InfixHandler::Binary(InfixOperatorType::Gt)),
        TokenType::LParen => Some(InfixHandler::Call),
        _ => None,
    }
}

/// Looks a token kind up in the prefix table.
pub fn lookup_prefix(kind: TokenType) -> (handler: Option<PrefixHandler>)
    ensures
        handler == prefix_handler(kind),
{
    match kind {
        TokenType::Ident => Some(PrefixHandler::Identifier),
        TokenType::Int => Some(PrefixHandler::Integer),
        TokenType::True => Some(PrefixHandler::Boolean),
        TokenType::False => Some(PrefixHandler::Boolean),
        TokenType::Bang => Some(PrefixHandler::Prefix(PrefixOperatorType::Bang)),
        TokenType::Minus => Some(PrefixHandler::Prefix(PrefixOperatorType::Neg)),
        TokenType::LParen => Some(PrefixHandler::Grouped),
        TokenType::If => Some(PrefixHandler::If),
        TokenType::Function => Some(PrefixHandler::Function),
        _ => None,
    }
}

/// Looks a token kind up in the infix table.
pub fn lookup_infix(kind: TokenType) -> (handler: Option<InfixHandler>)
    ensures
        handler == infix_handler(kind),
{
    match kind {
        TokenType::Plus => Some(InfixHandler::Binary(InfixOperatorType::Add)),
        TokenType::Minus => Some(InfixHandler::Binary(InfixOperatorType::Sub)),
        TokenType::Slash => Some(InfixHandler::Binary(InfixOperatorType::Div)),
        TokenType::Star => Some(InfixHandler::Binary(InfixOperatorType::Mul)),
        TokenType::Eq => Some(InfixHandler::Binary(InfixOperatorType::Eq)),
        TokenType::NotEq => Some(InfixHandler::Binary(InfixOperatorType::NotEq)),
        TokenType::Lt => Some(InfixHandler::Binary(InfixOperatorType::Lt)),
        TokenType::Gt => Some(InfixHandler::Binary(InfixOperatorType::Gt)),
        TokenType::LParen => Some(InfixHandler::Call),
        _ => None,
    }
}

/// The binding power of a token kind in infix position.
pub fn token_precedence(token_type: &TokenType) -> (precedence: Precedence)
    ensures
        precedence == binding_power(*token_type),
{
    precedence_of(token_type)
}

} // verus!
