//! Parsing of statements.

use vstd::prelude::*;
use crate::ast::expressions::Identifier;
use crate::ast::model::StatementView;
use crate::ast::statements::{
    statements_view, BlockStatement, ExpressionStatement, LetStatement, ReturnStatement,
    Statement,
};
use crate::parser::errors::Error;
use crate::parser::grammar;
use crate::parser::grammar::{kind_of, remaining};
use crate::parser::precedence::Precedence;
use crate::parser::Parser;
use crate::token::TokenType;

verus! {

/// What a statement parser returns, as a mathematical value.
pub open spec fn statement_outcome(result: Result<Statement, Error>) -> Result<
    StatementView,
    Seq<char>,
> {
    match result {
        Ok(statement) => Ok(statement@),
        Err(error) => Err(error@),
    }
}

/// What the block parser returns, as a mathematical value.
pub open spec fn block_outcome(result: Result<BlockStatement, Error>) -> Result<
    Seq<StatementView>,
    Seq<char>,
> {
    match result {
        Ok(block) => Ok(block@),
        Err(error) => Err(error@),
    }
}

impl Parser {
    /// Parses one statement, by the kind of the current token.
    pub(crate) fn parse_statement(&mut self) -> (result: Result<Statement, Error>)
        requires
            old(self).wf(),
        ensures
            statement_outcome(result) == grammar::parse_statement(
                old(self).tokens(),
                old(self).index(),
            ).result,
            final(self).moved(
                *old(self),
                grammar::parse_statement(old(self).tokens(), old(self).index()).consumed,
            ),
        decreases remaining(old(self).tokens(), old(self).index()), 6nat,
    {
        if self.cur_token_is(TokenType::Let) {
            self.parse_let_statement()
        } else if self.cur_token_is(TokenType::Return) {
            self.parse_return_statement()
        } else {
            self.parse_expression_statement()
        }
    }

    /// Parses a `let` statement; the current token is `let`.
    #[verifier::rlimit(60)]
    fn parse_let_statement(&mut self) -> (result: Result<Statement, Error>)
        requires
            old(self).wf(),
            kind_of(old(self).tokens(), old(self).index()) == TokenType::Let,
        ensures
            statement_outcome(result) == grammar::parse_let_statement(
                old(self).tokens(),
                old(self).index(),
            ).result,
            final(self).moved(
                *old(self),
                grammar::parse_let_statement(old(self).tokens(), old(self).index()).consumed,
            ),
        decreases remaining(old(self).tokens(), old(self).index()), 5nat,
    {
        let token = self.current().clone();
        match self.expect_peek(TokenType::Ident) {
            Err(error) => {
                return Err(error);
            },
            Ok(_) => {},
        }
        let name = Identifier {
            token: self.current().clone(),
            value: self.current().literal.clone(),
        };
        match self.expect_peek(TokenType::Assign) {
            Err(error) => {
                return Err(error);
            },
            Ok(_) => {},
        }
        self.next_token();
        let value = match self.parse_expression(Precedence::Lowest) {
            Err(error) => {
                return Err(error);
            },
            Ok(value) => value,
        };
        if self.peek_token_is(TokenType::Semicolon) {
            self.next_token();
        }
        Ok(Statement::Let(LetStatement { token, name, value: Box::new(value) }))
    }

    /// Parses a `return` statement; the current token is `return`.
    fn parse_return_statement(&mut self) -> (result: Result<Statement, Error>)
        requires
            old(self).wf(),
            kind_of(old(self).tokens(), old(self).index()) == TokenType::Return,
        ensures
            statement_outcome(result) == grammar::parse_return_statement(
                old(self).tokens(),
                old(self).index(),
            ).result,
            final(self).moved(
                *old(self),
                grammar::parse_return_statement(old(self).tokens(), old(self).index()).consumed,
            ),
        decreases remaining(old(self).tokens(), old(self).index()), 5nat,
    {
        let token = self.current().clone();
        self.next_token();
        let return_value = match self.parse_expression(Precedence::Lowest) {
            Err(error) => {
                return Err(error);
            },
            Ok(value) => value,
        };
        if self.peek_token_is(TokenType::Semicolon) {
            self.next_token();
        }
        Ok(Statement::Return(ReturnStatement { token, return_value: Box::new(return_value) }))
    }

    /// Parses an expression that stands as a statement. The semicolon after
    /// it is taken if it is there, and not asked for.
    fn parse_expression_statement(&mut self) -> (result: Result<Statement, Error>)
        requires
            old(self).wf(),
        ensures
            statement_outcome(result) == grammar::parse_expression_statement(
                old(self).tokens(),
                old(self).index(),
            ).result,
            final(self).moved(
                *old(self),
                grammar::parse_expression_statement(
                    old(self).tokens(),
                    old(self).index(),
                ).consumed,
            ),
        decreases remaining(old(self).tokens(), old(self).index()), 5nat,
    {
        let token = self.current().clone();
        let expression = match self.parse_expression(Precedence::Lowest) {
            Err(error) => {
                return Err(error);
            },
            Ok(expression) => expression,
        };
        if self.peek_token_is(TokenType::Semicolon) {
            self.next_token();
        }
        Ok(Statement::Expression(ExpressionStatement { token, expression }))
    }

    /// Parses a block; the current token is the opening brace. Ends on the
    /// closing brace, or at the end of the input.
    #[verifier::rlimit(60)]
    pub(crate) fn parse_block_statement(&mut self) -> (result: Result<BlockStatement, Error>)
        requires
            old(self).wf(),
            kind_of(old(self).tokens(), old(self).index()) == TokenType::LBrace,
        ensures
            block_outcome(result) == grammar::parse_block(
                old(self).tokens(),
                old(self).index(),
            ).result,
            final(self).moved(
                *old(self),
                grammar::parse_block(old(self).tokens(), old(self).index()).consumed,
            ),
        decreases remaining(old(self).tokens(), old(self).index()), 8nat,
    {
        let ghost tokens = self.tokens();
        let ghost start = self.index();
        let ghost whole = grammar::parse_block(tokens, start);
        let token = self.current().clone();
        let mut statements: Vec<Statement> = Vec::new();
        self.next_token();
        assert(statements_view(statements@) =~= Seq::empty());
        while !self.cur_token_is(TokenType::RBrace) && !self.cur_token_is(TokenType::Eof)
            invariant
                self.wf(),
                self.tokens() == tokens,
                old(self).tokens() == tokens,
                old(self).index() == start,
                self.index() > start,
                start < tokens.len(),
                whole == grammar::parse_block(tokens, start),
                whole == grammar::after(
                    (self.index() - start) as nat,
                    grammar::block_statements(
                        tokens,
                        self.index(),
                        statements_view(statements@),
                    ),
                ),
            decreases remaining(tokens, self.index()),
        {
            let ghost before = statements_view(statements@);
            let statement = match self.parse_statement() {
                Err(error) => {
                    return Err(error);
                },
                Ok(statement) => statement,
            };
            statements.push(statement);
            assert(statements_view(statements@) =~= before.push(statement@));
            self.next_token();
        }
        Ok(BlockStatement { token, statements })
    }
}

} // verus!
