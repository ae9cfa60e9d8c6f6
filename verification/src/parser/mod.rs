//! The parser: from tokens to a syntax tree, by operator precedence.

pub mod errors;
pub mod expressions;
pub mod grammar;
pub mod operators;
pub mod precedence;
pub mod recovery;
pub mod statements;

use vstd::prelude::*;
use crate::ast::model::StatementView;
use crate::ast::statements::{statements_view, Statement};
use crate::ast::Program;
use crate::lexer::{lemma_lex_progress, lex, token_stream, Lexer};
use crate::parser::errors::{unexpected_token_message, Error};
use crate::parser::grammar::{gather, kind_of, remaining, synchronize, token_of};
use crate::token::{Token, TokenType, TokenView};

verus! {

/// The messages of a list of errors.
pub open spec fn errors_view(errors: Seq<Error>) -> Seq<Seq<char>> {
    Seq::new(errors.len(), |i: int| errors[i]@)
}

/// What `parse_program` returns, as a mathematical value.
pub open spec fn program_outcome(result: Result<Program, Vec<Error>>) -> Result<
    Seq<StatementView>,
    Seq<Seq<char>>,
> {
    match result {
        Ok(program) => Ok(program@),
        Err(errors) => Err(errors_view(errors@)),
    }
}

/// A parser over the tokens of a lexer, with one token of lookahead.
pub struct Parser {
    /// Where the tokens come from.
    lexer: Lexer,
    /// The token under examination.
    current_token: Token,
    /// The token after it.
    peek_token: Token,
    /// All the tokens that the lexer held when the parser was made.
    tokens: Ghost<Seq<TokenView>>,
    /// The place of the current token among them.
    index: Ghost<nat>,
}

impl Parser {
    /// The tokens that the parser works on: those that its lexer had left
    /// when the parser was made.
    pub closed spec fn tokens(&self) -> Seq<TokenView> {
        self.tokens@
    }

    /// The index of the current token among `tokens()`.
    pub closed spec fn index(&self) -> nat {
        self.index@
    }

    /// The invariant of the parser: the current token and the next are those
    /// at `index()` and after it, and the lexer holds the tokens that follow.
    pub closed spec fn wf(&self) -> bool {
        &&& self.lexer.wf()
        &&& self.current_token@ == token_of(self.tokens@, self.index@)
        &&& self.peek_token@ == token_of(self.tokens@, self.index@ + 1)
        &&& token_stream(self.lexer@.input, self.lexer@.position) == self.tokens@.skip(
            if self.index@ + 2 <= self.tokens@.len() {
                (self.index@ + 2) as int
            } else {
                self.tokens@.len() as int
            },
        )
    }

    /// The parser is well formed, works on the tokens of `before`, and stands
    /// `consumed` tokens further on.
    pub open spec fn moved(&self, before: Parser, consumed: nat) -> bool {
        &&& self.wf()
        &&& self.tokens() == before.tokens()
        &&& self.index() == before.index() + consumed
    }

    /// A parser at the first token that `lexer` has left.
    pub fn new(lexer: Lexer) -> (parser: Parser)
        requires
            lexer.wf(),
        ensures
            parser.wf(),
            parser.tokens() == token_stream(lexer@.input, lexer@.position),
            parser.index() == 0,
    {
        let mut lexer = lexer;
        let ghost input = lexer@.input;
        let ghost start = lexer@.position;
        let ghost tokens = token_stream(input, start);
        proof {
            lexer.lemma_position_bounds();
        }
        let current_token = lexer.next_token();
        let ghost middle = lexer@.position;
        let peek_token = lexer.next_token();
        proof {
            lemma_lex_progress(input, start);
            lemma_lex_progress(input, middle);
            if start < input.len() {
                assert(tokens == seq![lex(input, start).token] + token_stream(input, middle));
                if middle < input.len() {
                    assert(token_stream(input, middle) == seq![lex(input, middle).token]
                        + token_stream(input, lexer@.position));
                    assert(tokens.skip(2) =~= token_stream(input, lexer@.position));
                } else {
                    assert(tokens.skip(1) =~= token_stream(input, lexer@.position));
                }
            } else {
                assert(tokens.skip(0) =~= tokens);
            }
        }
        Parser { lexer, current_token, peek_token, tokens: Ghost(tokens), index: Ghost(0) }
    }

    /// Parses the program from the current token to the end of the input.
    ///
    /// Every statement that fails leaves one error; the tokens up to the next
    /// place where a statement can start are then given up. The program is
    /// returned if no statement failed, the errors otherwise.
    #[verifier::rlimit(60)]
    pub fn parse_program(&mut self) -> (result: Result<Program, Vec<Error>>)
        requires
            old(self).wf(),
        ensures
            program_outcome(result) == grammar::parse_program(
                old(self).tokens(),
                old(self).index(),
            ),
            final(self).moved(
                *old(self),
                gather(old(self).tokens(), old(self).index(), Seq::empty(), Seq::empty()).consumed,
            ),
            kind_of(final(self).tokens(), final(self).index()) == TokenType::Eof,
    {
        let mut statements: Vec<Statement> = Vec::new();
        let mut errors: Vec<Error> = Vec::new();
        let ghost tokens = self.tokens();
        let ghost start = self.index();
        let ghost whole = gather(tokens, start, Seq::empty(), Seq::empty());
        assert(statements_view(statements@) =~= Seq::empty());
        assert(errors_view(errors@) =~= Seq::empty());
        while !self.cur_token_is(TokenType::Eof)
            invariant
                self.wf(),
                self.tokens() == tokens,
                old(self).tokens() == tokens,
                old(self).index() == start,
                self.index() >= start,
                whole == gather(tokens, start, Seq::empty(), Seq::empty()),
                ({
                    let rest = gather(
                        tokens,
                        self.index(),
                        statements_view(statements@),
                        errors_view(errors@),
                    );
                    &&& whole.statements == rest.statements
                    &&& whole.errors == rest.errors
                    &&& whole.consumed == (self.index() - start) + rest.consumed
                }),
            decreases remaining(tokens, self.index()),
        {
            let ghost before_statements = statements_view(statements@);
            let ghost before_errors = errors_view(errors@);
            match self.parse_statement() {
                Ok(statement) => {
                    statements.push(statement);
                    assert(statements_view(statements@) =~= before_statements.push(statement@));
                },
                Err(error) => {
                    errors.push(error);
                    assert(errors_view(errors@) =~= before_errors.push(error@));
                    self.synchronize();
                },
            }
            self.next_token();
        }
        if errors.len() == 0 {
            Ok(Program { statements })
        } else {
            Err(errors)
        }
    }

    /// After an error, gives up the tokens of the broken statement: moves on
    /// until the next token ends a statement, and then onto that token, or
    /// until the next token is a keyword that restarts parsing or the end of
    /// the input.
    fn synchronize(&mut self)
        requires
            old(self).wf(),
        ensures
            final(self).moved(*old(self), synchronize(old(self).tokens(), old(self).index())),
    {
        let ghost tokens = self.tokens();
        let ghost start = self.index();
        loop
            invariant_except_break
                synchronize(tokens, start) == (self.index() - start) + synchronize(
                    tokens,
                    self.index(),
                ),
            invariant
                self.wf(),
                self.tokens() == tokens,
                old(self).tokens() == tokens,
                old(self).index() == start,
                self.index() >= start,
            ensures
                self.moved(*old(self), synchronize(tokens, start)),
            decreases remaining(tokens, self.index()),
        {
            let kind = self.peek_token.kind;
            if kind == TokenType::Eof {
                break ;
            }
            if kind == TokenType::Semicolon || kind == TokenType::RBrace {
                self.next_token();
                break ;
            }
            if kind == TokenType::Let || kind == TokenType::Return || kind == TokenType::If
                || kind == TokenType::Else || kind == TokenType::Function {
                break ;
            }
            self.next_token();
        }
    }

    /// Moves on by one token.
    pub(crate) fn next_token(&mut self)
        requires
            old(self).wf(),
        ensures
            final(self).moved(*old(self), 1),
    {
        let ghost input = self.lexer@.input;
        let ghost position = self.lexer@.position;
        proof {
            self.lexer.lemma_position_bounds();
            lemma_lex_progress(input, position);
        }
        self.current_token = self.peek_token.clone();
        self.peek_token = self.lexer.next_token();
        proof {
            let tokens = self.tokens@;
            let index = self.index@ as int;
            if position < input.len() {
                assert(token_stream(input, position) == seq![lex(input, position).token]
                    + token_stream(input, self.lexer@.position));
                assert(index + 2 < tokens.len());
                assert(tokens.skip(index + 2)[0] == tokens[index + 2]);
                assert(tokens.skip(index + 3) =~= tokens.skip(index + 2).skip(1));
                assert(token_stream(input, self.lexer@.position) =~= tokens.skip(index + 3));
            } else {
                assert(token_stream(input, position) =~= Seq::empty());
            }
        }
        self.index = Ghost((self.index@ + 1) as nat);
    }

    /// The current token.
    pub(crate) fn current(&self) -> (token: &Token)
        requires
            self.wf(),
        ensures
            token@ == token_of(self.tokens(), self.index()),
    {
        &self.current_token
    }

    /// The token after the current one.
    pub(crate) fn peek(&self) -> (token: &Token)
        requires
            self.wf(),
        ensures
            token@ == token_of(self.tokens(), self.index() + 1),
    {
        &self.peek_token
    }

    /// Whether the current token is of the given kind.
    pub(crate) fn cur_token_is(&self, kind: TokenType) -> (same: bool)
        requires
            self.wf(),
        ensures
            same == (kind_of(self.tokens(), self.index()) == kind),
    {
        self.current_token.kind == kind
    }

    /// Whether the next token is of the given kind.
    pub(crate) fn peek_token_is(&self, kind: TokenType) -> (same: bool)
        requires
            self.wf(),
        ensures
            same == (kind_of(self.tokens(), self.index() + 1) == kind),
    {
        self.peek_token.kind == kind
    }

    /// Moves onto the next token if it is of the given kind; fails, and
    /// stays, if it is not.
    pub(crate) fn expect_peek(&mut self, kind: TokenType) -> (result: Result<(), Error>)
        requires
            old(self).wf(),
        ensures
            match result {
                Ok(_) => {
                    &&& kind_of(old(self).tokens(), old(self).index() + 1) == kind
                    &&& final(self).moved(*old(self), 1)
                },
                Err(error) => {
                    &&& kind_of(old(self).tokens(), old(self).index() + 1) != kind
                    &&& error@ == unexpected_token_message(
                        kind,
                        kind_of(old(self).tokens(), old(self).index() + 1),
                    )
                    &&& final(self).moved(*old(self), 0)
                },
            },
    {
        if self.peek_token_is(kind) {
            self.next_token();
            Ok(())
        } else {
            Err(self.peek_error(kind))
        }
    }

    /// The error for a next token that is not of the kind asked for.
    fn peek_error(&self, kind: TokenType) -> (error: Error)
        requires
            self.wf(),
        ensures
            error@ == unexpected_token_message(kind, kind_of(self.tokens(), self.index() + 1)),
    {
        Error::unexpected_token(kind, self.peek_token.kind)
    }
}

} // verus!
