//! Parse errors.

use vstd::prelude::*;
use vstd::string::StringExecFns;
use crate::token::TokenType;

verus! {

/// A parse error: a message for the user.
#[derive(Debug, Eq)]
pub struct Error {
    pub message: String,
}

impl View for Error {
    type V = Seq<char>;

    open spec fn view(&self) -> Seq<char> {
        self.message@
    }
}

impl PartialEq for Error {
    /// Two errors are equal if they have one message.
    fn eq(&self, other: &Error) -> (same: bool) {
        self.message == other.message
    }
}

impl vstd::std_specs::cmp::PartialEqSpecImpl for Error {
    open spec fn obeys_eq_spec() -> bool {
        true
    }

    open spec fn eq_spec(&self, other: &Error) -> bool {
        self.message@ == other.message@
    }
}

impl Clone for Error {
    fn clone(&self) -> (error: Error)
        ensures
            error == *self,
    {
        Error { message: self.message.clone() }
    }
}

/// The message for a token that is not the one the grammar asks for.
pub open spec fn unexpected_token_message(expected: TokenType, got: TokenType) -> Seq<char> {
    "expected next token to be "@ + expected.name() + ", got "@ + got.name() + " instead"@
}

/// The message for a token that cannot start an expression.
pub open spec fn no_prefix_message(kind: TokenType) -> Seq<char> {
    "no prefix parse function for "@ + kind.name() + " found"@
}

/// The message for an integer literal that does not fit in 64 bits.
pub open spec fn invalid_integer_message(literal: Seq<char>) -> Seq<char> {
    "could not parse "@ + literal + " as integer"@
}

impl Error {
    /// An error with the given message.
    pub fn new(message: &str) -> (error: Error)
        ensures
            error@ == message@,
    {
        Error { message: String::from_str(message) }
    }

    /// The message.
    pub fn to_string(&self) -> (text: String)
        ensures
            text@ == self@,
    {
        self.message.clone()
    }

    /// The error for a token of kind `got` where one of kind `expected` must stand.
    pub fn unexpected_token(expected: TokenType, got: TokenType) -> (error: Error)
        ensures
            error@ == unexpected_token_message(expected, got),
    {
        let mut message = String::from_str("expected next token to be ");
        message.append(expected.as_str());
        message.append(", got ");
        message.append(got.as_str());
        message.append(" instead");
        Error { message }
    }

    /// The error for a token of kind `kind` where an expression must start.
    pub fn no_prefix_parse_fn(kind: TokenType) -> (error: Error)
        ensures
            error@ == no_prefix_message(kind),
    {
        let mut message = String::from_str("no prefix parse function for ");
        message.append(kind.as_str());
        message.append(" found");
        Error { message }
    }

    /// The error for an integer literal that cannot be read as a 64-bit integer.
    pub fn invalid_integer(literal: &str) -> (error: Error)
        ensures
            error@ == invalid_integer_message(literal@),
    {
        let mut message = String::from_str("could not parse ");
        message.append(literal);
        message.append(" as integer");
        Error { message }
    }
}

} // verus!
