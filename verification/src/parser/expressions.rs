//! Parsing of expressions, by operator precedence.

use vstd::prelude::*;
use crate::ast::expressions::{
    expressions_view, identifiers_view, BooleanLiteral, CallExpression, Expression,
    FunctionLiteral, Identifier, IfExpression, InfixExpression, IntegerLiteral,
    PrefixExpression,
};
use crate::ast::model::ExpressionView;
use crate::ast::operators::{
    InfixOperator, InfixOperatorType, PrefixOperator, PrefixOperatorType,
};
use crate::decimal::parse_i64;
use crate::parser::errors::Error;
use crate::parser::grammar;
use crate::parser::grammar::{kind_of, remaining};
use crate::parser::operators::{
    infix_handler, lookup_infix, lookup_prefix, prefix_handler, InfixHandler, PrefixHandler,
};
use crate::parser::precedence::{binding_power, precedence_of, Precedence};
use crate::parser::Parser;
use crate::token::TokenType;

verus! {

/// What an expression parser returns, as a mathematical value.
pub open spec fn expression_outcome(result: Result<Expression, Error>) -> Result<
    ExpressionView,
    Seq<char>,
> {
    match result {
        Ok(expression) => Ok(expression@),
        Err(error) => Err(error@),
    }
}

/// What the parameter parser returns, as a mathematical value.
pub open spec fn parameters_outcome(result: Result<Vec<Identifier>, Error>) -> Result<
    Seq<Seq<char>>,
    Seq<char>,
> {
    match result {
        Ok(identifiers) => Ok(identifiers_view(identifiers@)),
        Err(error) => Err(error@),
    }
}

/// What the argument parser returns, as a mathematical value.
pub open spec fn arguments_outcome(result: Result<Vec<Expression>, Error>) -> Result<
    Seq<ExpressionView>,
    Seq<char>,
> {
    match result {
        Ok(expressions) => Ok(expressions_view(expressions@)),
        Err(error) => Err(error@),
    }
}

impl Parser {
    /// Parses an expression that binds tighter than `precedence`; the current
    /// token is its first. Ends on the last token of the expression.
    #[verifier::rlimit(60)]
    pub(crate) fn parse_expression(&mut self, precedence: Precedence) -> (result: Result<
        Expression,
        Error,
    >)
        requires
            old(self).wf(),
        ensures
            expression_outcome(result) == grammar::parse_expression(
                old(self).tokens(),
                old(self).index(),
                precedence,
            ).result,
            final(self).moved(
                *old(self),
                grammar::parse_expression(
                    old(self).tokens(),
                    old(self).index(),
                    precedence,
                ).consumed,
            ),
        decreases remaining(old(self).tokens(), old(self).index()), 4nat,
    {
        let ghost tokens = self.tokens();
        let ghost start = self.index();
        let ghost whole = grammar::parse_expression(tokens, start, precedence);
        let mut left = match self.parse_head() {
            Err(error) => {
                return Err(error);
            },
            Ok(left) => left,
        };
        while !self.peek_token_is(TokenType::Semicolon) && precedence.rank()
            < self.peek_precedence().rank()
            invariant
                self.wf(),
                self.tokens() == tokens,
                old(self).tokens() == tokens,
                old(self).index() == start,
                self.index() >= start,
                whole == grammar::parse_expression(tokens, start, precedence),
                whole == grammar::after(
                    (self.index() - start) as nat,
                    grammar::parse_tail(tokens, self.index(), precedence, left@),
                ),
            decreases remaining(tokens, self.index()),
        {
            match lookup_infix(self.peek().kind) {
                None => {
                    return Ok(left);
                },
                Some(InfixHandler::Binary(operator)) => {
                    self.next_token();
                    left = match self.parse_infix(left, operator) {
                        Err(error) => {
                            return Err(error);
                        },
                        Ok(expression) => expression,
                    };
                },
                Some(InfixHandler::Call) => {
                    self.next_token();
                    left = match self.parse_call(left) {
                        Err(error) => {
                            return Err(error);
                        },
                        Ok(expression) => expression,
                    };
                },
            }
        }
        Ok(left)
    }

    /// Parses the head of an expression, as the prefix table says for the
    /// current token; fails if the table has nothing for it.
    fn parse_head(&mut self) -> (result: Result<Expression, Error>)
        requires
            old(self).wf(),
        ensures
            expression_outcome(result) == grammar::parse_head(
                old(self).tokens(),
                old(self).index(),
            ).result,
            final(self).moved(
                *old(self),
                grammar::parse_head(old(self).tokens(), old(self).index()).consumed,
            ),
        decreases remaining(old(self).tokens(), old(self).index()), 3nat,
    {
        let kind = self.current().kind;
        match lookup_prefix(kind) {
            None => Err(Error::no_prefix_parse_fn(kind)),
            Some(PrefixHandler::Identifier) => self.parse_identifier(),
            Some(PrefixHandler::Integer) => self.parse_integer(),
            Some(PrefixHandler::Boolean) => self.parse_boolean(),
            Some(PrefixHandler::Prefix(operator)) => self.parse_prefix(operator),
            Some(PrefixHandler::Grouped) => self.parse_grouped(),
            Some(PrefixHandler::If) => self.parse_if(),
            Some(PrefixHandler::Function) => self.parse_function(),
        }
    }

    /// The current token as a name.
    fn parse_identifier(&mut self) -> (result: Result<Expression, Error>)
        requires
            old(self).wf(),
        ensures
            result is Ok,
            result->Ok_0@ == (ExpressionView::Identifier {
                name: grammar::literal_of(old(self).tokens(), old(self).index()),
            }),
            final(self).moved(*old(self), 0),
    {
        Ok(Expression::Identifier(self.current_identifier()))
    }

    /// The current token as an identifier node.
    fn current_identifier(&self) -> (identifier: Identifier)
        requires
            self.wf(),
        ensures
            identifier.value@ == grammar::literal_of(self.tokens(), self.index()),
            identifier.token@ == grammar::token_of(self.tokens(), self.index()),
    {
        Identifier { token: self.current().clone(), value: self.current().literal.clone() }
    }

    /// The current token as an integer literal; fails if its lexeme is no
    /// 64-bit integer in decimal notation.
    fn parse_integer(&mut self) -> (result: Result<Expression, Error>)
        requires
            old(self).wf(),
        ensures
            expression_outcome(result) == (match crate::decimal::parse_decimal(
                grammar::literal_of(old(self).tokens(), old(self).index()),
            ) {
                Some(value) => Ok(ExpressionView::Integer { value }),
                None => Err(
                    crate::parser::errors::invalid_integer_message(
                        grammar::literal_of(old(self).tokens(), old(self).index()),
                    ),
                ),
            }),
            final(self).moved(*old(self), 0),
    {
        let token = self.current().clone();
        match parse_i64(token.literal.as_str()) {
            Some(value) => Ok(Expression::Integer(IntegerLiteral { token, value })),
            None => Err(Error::invalid_integer(token.literal.as_str())),
        }
    }

    /// The current token as a boolean literal: `true` if it is the keyword `true`.
    fn parse_boolean(&mut self) -> (result: Result<Expression, Error>)
        requires
            old(self).wf(),
        ensures
            result is Ok,
            result->Ok_0@ == (ExpressionView::Boolean {
                value: kind_of(old(self).tokens(), old(self).index()) == TokenType::True,
            }),
            final(self).moved(*old(self), 0),
    {
        Ok(
            Expression::Boolean(
                BooleanLiteral {
                    token: self.current().clone(),
                    value: self.cur_token_is(TokenType::True),
                },
            ),
        )
    }

    /// Parses a prefix operator, which is the current token, and its operand.
    fn parse_prefix(&mut self, kind: PrefixOperatorType) -> (result: Result<Expression, Error>)
        requires
            old(self).wf(),
            prefix_handler(kind_of(old(self).tokens(), old(self).index())) == Some(
                PrefixHandler::Prefix(kind),
            ),
        ensures
            expression_outcome(result) == grammar::parse_prefix(
                old(self).tokens(),
                old(self).index(),
                kind,
            ).result,
            final(self).moved(
                *old(self),
                grammar::parse_prefix(old(self).tokens(), old(self).index(), kind).consumed,
            ),
        decreases remaining(old(self).tokens(), old(self).index()), 2nat,
    {
        let token = self.current().clone();
        let operator = PrefixOperator::new(token.clone(), kind);
        self.next_token();
        let right = match self.parse_expression(Precedence::Prefix) {
            Err(error) => {
                return Err(error);
            },
            Ok(right) => right,
        };
        Ok(Expression::Prefix(PrefixExpression { token, operator, right: Box::new(right) }))
    }

    /// Parses a binary operator, which is the current token, and its right
    /// operand, an expression that binds tighter than the operator.
    fn parse_infix(&mut self, left: Expression, kind: InfixOperatorType) -> (result: Result<
        Expression,
        Error,
    >)
        requires
            old(self).wf(),
            infix_handler(kind_of(old(self).tokens(), old(self).index())) == Some(
                InfixHandler::Binary(kind),
            ),
        ensures
            expression_outcome(result) == grammar::parse_infix(
                old(self).tokens(),
                old(self).index(),
                left@,
                kind,
            ).result,
            final(self).moved(
                *old(self),
                grammar::parse_infix(old(self).tokens(), old(self).index(), left@, kind).consumed,
            ),
        decreases remaining(old(self).tokens(), old(self).index()), 2nat,
    {
        let token = self.current().clone();
        let operator = InfixOperator::new(token.clone(), kind);
        let precedence = self.current_precedence();
        self.next_token();
        let right = match self.parse_expression(precedence) {
            Err(error) => {
                return Err(error);
            },
            Ok(right) => right,
        };
        Ok(
            Expression::Infix(
                InfixExpression {
                    token,
                    left: Box::new(left),
                    operator,
                    right: Box::new(right),
                },
            ),
        )
    }

    /// Parses an expression in parentheses; the current token is the opening
    /// one. Returns the inner expression itself.
    fn parse_grouped(&mut self) -> (result: Result<Expression, Error>)
        requires
            old(self).wf(),
            kind_of(old(self).tokens(), old(self).index()) == TokenType::LParen,
        ensures
            expression_outcome(result) == grammar::parse_grouped(
                old(self).tokens(),
                old(self).index(),
            ).result,
            final(self).moved(
                *old(self),
                grammar::parse_grouped(old(self).tokens(), old(self).index()).consumed,
            ),
        decreases remaining(old(self).tokens(), old(self).index()), 2nat,
    {
        self.next_token();
        let expression = match self.parse_expression(Precedence::Lowest) {
            Err(error) => {
                return Err(error);
            },
            Ok(expression) => expression,
        };
        match self.expect_peek(TokenType::RParen) {
            Err(error) => Err(error),
            Ok(_) => Ok(expression),
        }
    }

    /// Parses a conditional; the current token is `if`.
    #[verifier::rlimit(60)]
    fn parse_if(&mut self) -> (result: Result<Expression, Error>)
        requires
            old(self).wf(),
            kind_of(old(self).tokens(), old(self).index()) == TokenType::If,
        ensures
            expression_outcome(result) == grammar::parse_if(
                old(self).tokens(),
                old(self).index(),
            ).result,
            final(self).moved(
                *old(self),
                grammar::parse_if(old(self).tokens(), old(self).index()).consumed,
            ),
        decreases remaining(old(self).tokens(), old(self).index()), 2nat,
    {
        let token = self.current().clone();
        match self.expect_peek(TokenType::LParen) {
            Err(error) => {
                return Err(error);
            },
            Ok(_) => {},
        }
        self.next_token();
        let condition = match self.parse_expression(Precedence::Lowest) {
            Err(error) => {
                return Err(error);
            },
            Ok(condition) => condition,
        };
        match self.expect_peek(TokenType::RParen) {
            Err(error) => {
                return Err(error);
            },
            Ok(_) => {},
        }
        match self.expect_peek(TokenType::LBrace) {
            Err(error) => {
                return Err(error);
            },
            Ok(_) => {},
        }
        let consequence = match self.parse_block_statement() {
            Err(error) => {
                return Err(error);
            },
            Ok(block) => block,
        };
        let alternative = if self.peek_token_is(TokenType::Else) {
            self.next_token();
            match self.expect_peek(TokenType::LBrace) {
                Err(error) => {
                    return Err(error);
                },
                Ok(_) => {},
            }
            match self.parse_block_statement() {
                Err(error) => {
                    return Err(error);
                },
                Ok(block) => Some(block),
            }
        } else {
            None
        };
        Ok(
            Expression::If(
                IfExpression { token, condition: Box::new(condition), consequence, alternative },
            ),
        )
    }

    /// Parses a function literal; the current token is `fn`.
    #[verifier::rlimit(60)]
    fn parse_function(&mut self) -> (result: Result<Expression, Error>)
        requires
            old(self).wf(),
            kind_of(old(self).tokens(), old(self).index()) == TokenType::Function,
        ensures
            expression_outcome(result) == grammar::parse_function(
                old(self).tokens(),
                old(self).index(),
            ).result,
            final(self).moved(
                *old(self),
                grammar::parse_function(old(self).tokens(), old(self).index()).consumed,
            ),
        decreases remaining(old(self).tokens(), old(self).index()), 2nat,
    {
        let token = self.current().clone();
        match self.expect_peek(TokenType::LParen) {
            Err(error) => {
                return Err(error);
            },
            Ok(_) => {},
        }
        let parameters = match self.parse_function_parameters() {
            Err(error) => {
                return Err(error);
            },
            Ok(parameters) => parameters,
        };
        match self.expect_peek(TokenType::LBrace) {
            Err(error) => {
                return Err(error);
            },
            Ok(_) => {},
        }
        let body = match self.parse_block_statement() {
            Err(error) => {
                return Err(error);
            },
            Ok(block) => block,
        };
        Ok(Expression::Function(FunctionLiteral { token, parameters, body }))
    }

    /// Parses a parameter list; the current token is the opening parenthesis.
    /// Ends on the closing one.
    #[verifier::rlimit(60)]
    fn parse_function_parameters(&mut self) -> (result: Result<Vec<Identifier>, Error>)
        requires
            old(self).wf(),
        ensures
            parameters_outcome(result) == grammar::parse_function_parameters(
                old(self).tokens(),
                old(self).index(),
            ).result,
            final(self).moved(
                *old(self),
                grammar::parse_function_parameters(
                    old(self).tokens(),
                    old(self).index(),
                ).consumed,
            ),
    {
        let ghost tokens = self.tokens();
        let ghost start = self.index();
        let ghost whole = grammar::parse_function_parameters(tokens, start);
        let mut identifiers: Vec<Identifier> = Vec::new();
        if self.peek_token_is(TokenType::RParen) {
            self.next_token();
            assert(identifiers_view(identifiers@) =~= Seq::empty());
            return Ok(identifiers);
        }
        match self.expect_peek(TokenType::Ident) {
            Err(error) => {
                return Err(error);
            },
            Ok(_) => {},
        }
        identifiers.push(self.current_identifier());
        assert(identifiers_view(identifiers@) =~= seq![grammar::literal_of(tokens, start + 1)]);
        while self.peek_token_is(TokenType::Comma)
            invariant
                self.wf(),
                self.tokens() == tokens,
                old(self).tokens() == tokens,
                old(self).index() == start,
                self.index() > start,
                whole == grammar::parse_function_parameters(tokens, start),
                whole == grammar::after(
                    (self.index() - start) as nat,
                    grammar::more_parameters(
                        tokens,
                        self.index(),
                        identifiers_view(identifiers@),
                    ),
                ),
            decreases remaining(tokens, self.index()),
        {
            let ghost before = identifiers_view(identifiers@);
            self.next_token();
            match self.expect_peek(TokenType::Ident) {
                Err(error) => {
                    return Err(error);
                },
                Ok(_) => {},
            }
            let identifier = self.current_identifier();
            identifiers.push(identifier);
            assert(identifiers_view(identifiers@) =~= before.push(identifier.value@));
        }
        match self.expect_peek(TokenType::RParen) {
            Err(error) => Err(error),
            Ok(_) => Ok(identifiers),
        }
    }

    /// Parses a call; the current token is the opening parenthesis, and
    /// `function` is the expression in front of it.
    fn parse_call(&mut self, function: Expression) -> (result: Result<Expression, Error>)
        requires
            old(self).wf(),
            kind_of(old(self).tokens(), old(self).index()) == TokenType::LParen,
        ensures
            expression_outcome(result) == grammar::parse_call(
                old(self).tokens(),
                old(self).index(),
                function@,
            ).result,
            final(self).moved(
                *old(self),
                grammar::parse_call(old(self).tokens(), old(self).index(), function@).consumed,
            ),
        decreases remaining(old(self).tokens(), old(self).index()), 2nat,
    {
        let token = self.current().clone();
        let arguments = match self.parse_call_arguments() {
            Err(error) => {
                return Err(error);
            },
            Ok(arguments) => arguments,
        };
        Ok(Expression::Call(CallExpression { token, function: Box::new(function), arguments }))
    }

    /// Parses an argument list; the current token is the opening parenthesis.
    /// Ends on the closing one.
    #[verifier::rlimit(60)]
    fn parse_call_arguments(&mut self) -> (result: Result<Vec<Expression>, Error>)
        requires
            old(self).wf(),
            kind_of(old(self).tokens(), old(self).index()) == TokenType::LParen,
        ensures
            arguments_outcome(result) == grammar::parse_call_arguments(
                old(self).tokens(),
                old(self).index(),
            ).result,
            final(self).moved(
                *old(self),
                grammar::parse_call_arguments(old(self).tokens(), old(self).index()).consumed,
            ),
        decreases remaining(old(self).tokens(), old(self).index()), 1nat,
    {
        let ghost tokens = self.tokens();
        let ghost start = self.index();
        let ghost whole = grammar::parse_call_arguments(tokens, start);
        let mut arguments: Vec<Expression> = Vec::new();
        if self.peek_token_is(TokenType::RParen) {
            self.next_token();
            assert(expressions_view(arguments@) =~= Seq::empty());
            return Ok(arguments);
        }
        self.next_token();
        let first = match self.parse_expression(Precedence::Lowest) {
            Err(error) => {
                return Err(error);
            },
            Ok(expression) => expression,
        };
        arguments.push(first);
        assert(expressions_view(arguments@) =~= seq![first@]);
        while self.peek_token_is(TokenType::Comma)
            invariant
                self.wf(),
                self.tokens() == tokens,
                old(self).tokens() == tokens,
                old(self).index() == start,
                self.index() > start,
                start < tokens.len(),
                whole == grammar::parse_call_arguments(tokens, start),
                whole == grammar::after(
                    (self.index() - start) as nat,
                    grammar::more_arguments(tokens, self.index(), expressions_view(arguments@)),
                ),
            decreases remaining(tokens, self.index()),
        {
            let ghost before = expressions_view(arguments@);
            self.next_token();
            self.next_token();
            let next = match self.parse_expression(Precedence::Lowest) {
                Err(error) => {
                    return Err(error);
                },
                Ok(expression) => expression,
            };
            arguments.push(next);
            assert(expressions_view(arguments@) =~= before.push(next@));
        }
        match self.expect_peek(TokenType::RParen) {
            Err(error) => Err(error),
            Ok(_) => Ok(arguments),
        }
    }

    /// The binding power of the next token.
    fn peek_precedence(&self) -> (precedence: Precedence)
        requires
            self.wf(),
        ensures
            precedence == binding_power(kind_of(self.tokens(), self.index() + 1)),
    {
        precedence_of(&self.peek().kind)
    }

    /// The binding power of the current token.
    fn current_precedence(&self) -> (precedence: Precedence)
        requires
            self.wf(),
        ensures
            precedence == binding_power(kind_of(self.tokens(), self.index())),
    {
        precedence_of(&self.current().kind)
    }
}

} // verus!
