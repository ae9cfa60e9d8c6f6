//! The grammar, as functions on a sequence of tokens.
//!
//! Each function stands at an index of the token sequence, the position of
//! the current token, and says what is parsed from there and how many tokens
//! further the parser then stands. Past the end of the sequence every token
//! is `Eof`.

use vstd::prelude::*;
use crate::ast::model::{ExpressionView, StatementView};
use crate::ast::operators::{InfixOperatorType, PrefixOperatorType};
use crate::decimal::parse_decimal;
use crate::parser::errors::{invalid_integer_message, no_prefix_message, unexpected_token_message};
use crate::parser::operators::{infix_handler, prefix_handler, InfixHandler, PrefixHandler};
use crate::parser::precedence::{binding_power, Precedence};
use crate::token::{end_of_input, TokenType, TokenView};

verus! {

/// The token at an index; `Eof` past the end.
pub open spec fn token_of(tokens: Seq<TokenView>, index: nat) -> TokenView {
    if index < tokens.len() {
        tokens[index as int]
    } else {
        end_of_input()
    }
}

/// The kind of the token at an index.
pub open spec fn kind_of(tokens: Seq<TokenView>, index: nat) -> TokenType {
    token_of(tokens, index).kind
}

/// The lexeme of the token at an index.
pub open spec fn literal_of(tokens: Seq<TokenView>, index: nat) -> Seq<char> {
    token_of(tokens, index).literal
}

/// How many tokens are left from an index on.
pub open spec fn remaining(tokens: Seq<TokenView>, index: nat) -> nat {
    if index < tokens.len() {
        (tokens.len() - index) as nat
    } else {
        0
    }
}

/// The outcome of a parse function: what was parsed, or the message of the
/// error, and the number of tokens by which the parser moved.
pub struct Parsed<T> {
    pub result: Result<T, Seq<char>>,
    pub consumed: nat,
}

/// A parse that succeeded.
pub open spec fn done<T>(value: T, consumed: nat) -> Parsed<T> {
    Parsed { result: Ok(value), consumed }
}

/// A parse that failed.
pub open spec fn fail<T>(message: Seq<char>, consumed: nat) -> Parsed<T> {
    Parsed { result: Err(message), consumed }
}

/// The same outcome, reached `consumed` tokens further on.
pub open spec fn after<T>(consumed: nat, parsed: Parsed<T>) -> Parsed<T> {
    Parsed { result: parsed.result, consumed: consumed + parsed.consumed }
}

/// An expression that binds tighter than `precedence`: a head, then every
/// infix operator and call that binds tighter than `precedence`.
pub open spec fn parse_expression(
    tokens: Seq<TokenView>,
    index: nat,
    precedence: Precedence,
) -> Parsed<ExpressionView>
    decreases remaining(tokens, index), 4nat,
{
    let head = parse_head(tokens, index);
    match head.result {
        Err(message) => head,
        Ok(left) => after(
            head.consumed,
            parse_tail(tokens, index + head.consumed, precedence, left),
        ),
    }
}

/// The head of an expression, as the prefix table says for the current token.
pub open spec fn parse_head(tokens: Seq<TokenView>, index: nat) -> Parsed<ExpressionView>
    decreases remaining(tokens, index), 3nat,
{
    let token = token_of(tokens, index);
    match prefix_handler(token.kind) {
        None => fail(no_prefix_message(token.kind), 0),
        Some(PrefixHandler::Identifier) => done(
            ExpressionView::Identifier { name: token.literal },
            0,
        ),
        Some(PrefixHandler::Integer) => match parse_decimal(token.literal) {
            Some(value) => done(ExpressionView::Integer { value }, 0),
            None => fail(invalid_integer_message(token.literal), 0),
        },
        Some(PrefixHandler::Boolean) => done(
            ExpressionView::Boolean { value: token.kind == TokenType::True },
            0,
        ),
        Some(PrefixHandler::Prefix(operator)) => parse_prefix(tokens, index, operator),
        Some(PrefixHandler::Grouped) => parse_grouped(tokens, index),
        Some(PrefixHandler::If) => parse_if(tokens, index),
        Some(PrefixHandler::Function) => parse_function(tokens, index),
    }
}

/// What follows a left operand: while the next token is no semicolon and
/// binds tighter than `precedence`, its infix handler takes the operand.
/// Operators of one level thus group to the left.
pub open spec fn parse_tail(
    tokens: Seq<TokenView>,
    index: nat,
    precedence: Precedence,
    left: ExpressionView,
) -> Parsed<ExpressionView>
    decreases remaining(tokens, index), 3nat,
{
    let peek = kind_of(tokens, index + 1);
    if peek != TokenType::Semicolon && precedence.level() < binding_power(peek).level() {
        match infix_handler(peek) {
            None => done(left, 0),
            Some(InfixHandler::Binary(operator)) => {
                let infix = parse_infix(tokens, index + 1, left, operator);
                match infix.result {
                    Err(message) => after(1, infix),
                    Ok(expression) => after(
                        1 + infix.consumed,
                        parse_tail(tokens, index + 1 + infix.consumed, precedence, expression),
                    ),
                }
            },
            Some(InfixHandler::Call) => {
                let call = parse_call(tokens, index + 1, left);
                match call.result {
                    Err(message) => after(1, call),
                    Ok(expression) => after(
                        1 + call.consumed,
                        parse_tail(tokens, index + 1 + call.consumed, precedence, expression),
                    ),
                }
            },
        }
    } else {
        done(left, 0)
    }
}

/// A prefix operator, which is the current token, and its operand.
pub open spec fn parse_prefix(
    tokens: Seq<TokenView>,
    index: nat,
    operator: PrefixOperatorType,
) -> Parsed<ExpressionView>
    decreases remaining(tokens, index), 2nat,
    when index < tokens.len()
{
    let right = parse_expression(tokens, index + 1, Precedence::Prefix);
    match right.result {
        Err(message) => fail(message, 1 + right.consumed),
        Ok(operand) => done(
            ExpressionView::Prefix { operator, right: Box::new(operand) },
            1 + right.consumed,
        ),
    }
}

/// A binary operator, which is the current token, and its right operand: an
/// expression that binds tighter than the operator.
pub open spec fn parse_infix(
    tokens: Seq<TokenView>,
    index: nat,
    left: ExpressionView,
    operator: InfixOperatorType,
) -> Parsed<ExpressionView>
    decreases remaining(tokens, index), 2nat,
    when index < tokens.len()
{
    let right = parse_expression(tokens, index + 1, binding_power(kind_of(tokens, index)));
    match right.result {
        Err(message) => fail(message, 1 + right.consumed),
        Ok(operand) => done(
            ExpressionView::Infix { left: Box::new(left), operator, right: Box::new(operand) },
            1 + right.consumed,
        ),
    }
}

/// An expression in parentheses; the current token is the opening one. The
/// result is the inner expression itself.
pub open spec fn parse_grouped(tokens: Seq<TokenView>, index: nat) -> Parsed<ExpressionView>
    decreases remaining(tokens, index), 2nat,
    when index < tokens.len()
{
    let inner = parse_expression(tokens, index + 1, Precedence::Lowest);
    match inner.result {
        Err(message) => fail(message, 1 + inner.consumed),
        Ok(expression) => {
            let closing = kind_of(tokens, index + 1 + inner.consumed + 1);
            if closing == TokenType::RParen {
                done(expression, 1 + inner.consumed + 1)
            } else {
                fail(unexpected_token_message(TokenType::RParen, closing), 1 + inner.consumed)
            }
        },
    }
}

/// A conditional; the current token is `if`.
pub open spec fn parse_if(tokens: Seq<TokenView>, index: nat) -> Parsed<ExpressionView>
    decreases remaining(tokens, index), 2nat,
    when index < tokens.len()
{
    if kind_of(tokens, index + 1) != TokenType::LParen {
        fail(unexpected_token_message(TokenType::LParen, kind_of(tokens, index + 1)), 0)
    } else {
        let condition = parse_expression(tokens, index + 2, Precedence::Lowest);
        match condition.result {
            Err(message) => fail(message, 2 + condition.consumed),
            Ok(test) => {
                let at_test = 2 + condition.consumed;
                if kind_of(tokens, index + at_test + 1) != TokenType::RParen {
                    fail(
                        unexpected_token_message(
                            TokenType::RParen,
                            kind_of(tokens, index + at_test + 1),
                        ),
                        at_test,
                    )
                } else if kind_of(tokens, index + at_test + 2) != TokenType::LBrace {
                    fail(
                        unexpected_token_message(
                            TokenType::LBrace,
                            kind_of(tokens, index + at_test + 2),
                        ),
                        at_test + 1,
                    )
                } else {
                    let consequence = parse_block(tokens, index + at_test + 2);
                    match consequence.result {
                        Err(message) => fail(message, at_test + 2 + consequence.consumed),
                        Ok(then_block) => {
                            let at_then = at_test + 2 + consequence.consumed;
                            if kind_of(tokens, index + at_then + 1) != TokenType::Else {
                                done(
                                    ExpressionView::If {
                                        condition: Box::new(test),
                                        consequence: then_block,
                                        alternative: None,
                                    },
                                    at_then,
                                )
                            } else if kind_of(tokens, index + at_then + 2) != TokenType::LBrace {
                                fail(
                                    unexpected_token_message(
                                        TokenType::LBrace,
                                        kind_of(tokens, index + at_then + 2),
                                    ),
                                    at_then + 1,
                                )
                            } else {
                                let alternative = parse_block(tokens, index + at_then + 2);
                                match alternative.result {
                                    Err(message) => fail(
                                        message,
                                        at_then + 2 + alternative.consumed,
                                    ),
                                    Ok(else_block) => done(
                                        ExpressionView::If {
                                            condition: Box::new(test),
                                            consequence: then_block,
                                            alternative: Some(else_block),
                                        },
                                        at_then + 2 + alternative.consumed,
                                    ),
                                }
                            }
                        },
                    }
                }
            },
        }
    }
}

/// A function literal; the current token is `fn`.
pub open spec fn parse_function(tokens: Seq<TokenView>, index: nat) -> Parsed<ExpressionView>
    decreases remaining(tokens, index), 2nat,
    when index < tokens.len()
{
    if kind_of(tokens, index + 1) != TokenType::LParen {
        fail(unexpected_token_message(TokenType::LParen, kind_of(tokens, index + 1)), 0)
    } else {
        let parameters = parse_function_parameters(tokens, index + 1);
        match parameters.result {
            Err(message) => fail(message, 1 + parameters.consumed),
            Ok(names) => {
                let at_list = 1 + parameters.consumed;
                if kind_of(tokens, index + at_list + 1) != TokenType::LBrace {
                    fail(
                        unexpected_token_message(
                            TokenType::LBrace,
                            kind_of(tokens, index + at_list + 1),
                        ),
                        at_list,
                    )
                } else {
                    let body = parse_block(tokens, index + at_list + 1);
                    match body.result {
                        Err(message) => fail(message, at_list + 1 + body.consumed),
                        Ok(block) => done(
                            ExpressionView::Function { parameters: names, body: block },
                            at_list + 1 + body.consumed,
                        ),
                    }
                }
            },
        }
    }
}

/// A parameter list; the current token is the opening parenthesis. The list
/// is empty, or names separated by commas, and ends with the closing
/// parenthesis.
pub open spec fn parse_function_parameters(tokens: Seq<TokenView>, index: nat) -> Parsed<
    Seq<Seq<char>>,
> {
    let first = kind_of(tokens, index + 1);
    if first == TokenType::RParen {
        done(Seq::empty(), 1)
    } else if first != TokenType::Ident {
        fail(unexpected_token_message(TokenType::Ident, first), 0)
    } else {
        after(1, more_parameters(tokens, index + 1, seq![literal_of(tokens, index + 1)]))
    }
}

/// The rest of a parameter list; the current token is the last name read.
pub open spec fn more_parameters(
    tokens: Seq<TokenView>,
    index: nat,
    names: Seq<Seq<char>>,
) -> Parsed<Seq<Seq<char>>>
    decreases remaining(tokens, index),
{
    let peek = kind_of(tokens, index + 1);
    if peek == TokenType::Comma {
        let name = kind_of(tokens, index + 2);
        if name != TokenType::Ident {
            fail(unexpected_token_message(TokenType::Ident, name), 1)
        } else {
            after(
                2,
                more_parameters(tokens, index + 2, names.push(literal_of(tokens, index + 2))),
            )
        }
    } else if peek == TokenType::RParen {
        done(names, 1)
    } else {
        fail(unexpected_token_message(TokenType::RParen, peek), 0)
    }
}

/// A call; the current token is the opening parenthesis, and `function` is
/// the expression in front of it.
pub open spec fn parse_call(
    tokens: Seq<TokenView>,
    index: nat,
    function: ExpressionView,
) -> Parsed<ExpressionView>
    decreases remaining(tokens, index), 2nat,
    when index < tokens.len()
{
    let arguments = parse_call_arguments(tokens, index);
    match arguments.result {
        Err(message) => fail(message, arguments.consumed),
        Ok(values) => done(
            ExpressionView::Call { function: Box::new(function), arguments: values },
            arguments.consumed,
        ),
    }
}

/// An argument list; the current token is the opening parenthesis. The list
/// is empty, or expressions separated by commas, and ends with the closing
/// parenthesis.
pub open spec fn parse_call_arguments(tokens: Seq<TokenView>, index: nat) -> Parsed<
    Seq<ExpressionView>,
>
    decreases remaining(tokens, index), 1nat,
    when index < tokens.len()
{
    if kind_of(tokens, index + 1) == TokenType::RParen {
        done(Seq::empty(), 1)
    } else {
        let first = parse_expression(tokens, index + 1, Precedence::Lowest);
        match first.result {
            Err(message) => fail(message, 1 + first.consumed),
            Ok(value) => after(
                1 + first.consumed,
                more_arguments(tokens, index + 1 + first.consumed, seq![value]),
            ),
        }
    }
}

/// The rest of an argument list; the current token is the last one of the
/// argument read last.
pub open spec fn more_arguments(
    tokens: Seq<TokenView>,
    index: nat,
    values: Seq<ExpressionView>,
) -> Parsed<Seq<ExpressionView>>
    decreases remaining(tokens, index), 0nat,
{
    let peek = kind_of(tokens, index + 1);
    if peek == TokenType::Comma {
        let next = parse_expression(tokens, index + 2, Precedence::Lowest);
        match next.result {
            Err(message) => fail(message, 2 + next.consumed),
            Ok(value) => after(
                2 + next.consumed,
                more_arguments(tokens, index + 2 + next.consumed, values.push(value)),
            ),
        }
    } else if peek == TokenType::RParen {
        done(values, 1)
    } else {
        fail(unexpected_token_message(TokenType::RParen, peek), 0)
    }
}

/// A block; the current token is the opening brace. The block ends on the
/// closing brace, or at the end of the input.
pub open spec fn parse_block(tokens: Seq<TokenView>, index: nat) -> Parsed<Seq<StatementView>>
    decreases remaining(tokens, index), 8nat,
    when index < tokens.len()
{
    after(1, block_statements(tokens, index + 1, Seq::empty()))
}

/// The statements of a block from the current token on, after those already read.
pub open spec fn block_statements(
    tokens: Seq<TokenView>,
    index: nat,
    statements: Seq<StatementView>,
) -> Parsed<Seq<StatementView>>
    decreases remaining(tokens, index), 7nat,
{
    let kind = kind_of(tokens, index);
    if kind == TokenType::RBrace || kind == TokenType::Eof {
        done(statements, 0)
    } else {
        let statement = parse_statement(tokens, index);
        match statement.result {
            Err(message) => fail(message, statement.consumed),
            Ok(parsed) => after(
                statement.consumed + 1,
                block_statements(
                    tokens,
                    index + statement.consumed + 1,
                    statements.push(parsed),
                ),
            ),
        }
    }
}

/// A statement, by the kind of the current token.
pub open spec fn parse_statement(tokens: Seq<TokenView>, index: nat) -> Parsed<StatementView>
    decreases remaining(tokens, index), 6nat,
{
    match kind_of(tokens, index) {
        TokenType::Let => parse_let_statement(tokens, index),
        TokenType::Return => parse_return_statement(tokens, index),
        _ => parse_expression_statement(tokens, index),
    }
}

/// `let <name> = <value>`, and the semicolon if one follows; the current token is `let`.
pub open spec fn parse_let_statement(tokens: Seq<TokenView>, index: nat) -> Parsed<StatementView>
    decreases remaining(tokens, index), 5nat,
    when index < tokens.len()
{
    if kind_of(tokens, index + 1) != TokenType::Ident {
        fail(unexpected_token_message(TokenType::Ident, kind_of(tokens, index + 1)), 0)
    } else if kind_of(tokens, index + 2) != TokenType::Assign {
        fail(unexpected_token_message(TokenType::Assign, kind_of(tokens, index + 2)), 1)
    } else {
        let value = parse_expression(tokens, index + 3, Precedence::Lowest);
        match value.result {
            Err(message) => fail(message, 3 + value.consumed),
            Ok(expression) => done(
                StatementView::Let { name: literal_of(tokens, index + 1), value: expression },
                3 + value.consumed + semicolon(tokens, index + 3 + value.consumed),
            ),
        }
    }
}

/// `return <value>`, and the semicolon if one follows; the current token is `return`.
pub open spec fn parse_return_statement(tokens: Seq<TokenView>, index: nat) -> Parsed<
    StatementView,
>
    decreases remaining(tokens, index), 5nat,
    when index < tokens.len()
{
    let value = parse_expression(tokens, index + 1, Precedence::Lowest);
    match value.result {
        Err(message) => fail(message, 1 + value.consumed),
        Ok(expression) => done(
            StatementView::Return { value: expression },
            1 + value.consumed + semicolon(tokens, index + 1 + value.consumed),
        ),
    }
}

/// An expression, and the semicolon if one follows.
pub open spec fn parse_expression_statement(tokens: Seq<TokenView>, index: nat) -> Parsed<
    StatementView,
>
    decreases remaining(tokens, index), 5nat,
{
    let value = parse_expression(tokens, index, Precedence::Lowest);
    match value.result {
        Err(message) => fail(message, value.consumed),
        Ok(expression) => done(
            StatementView::Expression { expression },
            value.consumed + semicolon(tokens, index + value.consumed),
        ),
    }
}

/// The number of tokens that the semicolon after the current token takes:
/// one if the next token is a semicolon, none otherwise.
pub open spec fn semicolon(tokens: Seq<TokenView>, index: nat) -> nat {
    if kind_of(tokens, index + 1) == TokenType::Semicolon {
        1
    } else {
        0
    }
}

/// Whether a token kind is a keyword at which parsing starts again after an error.
pub open spec fn restarts_parsing(kind: TokenType) -> bool {
    kind == TokenType::Let || kind == TokenType::Return || kind == TokenType::If || kind
        == TokenType::Else || kind == TokenType::Function
}

/// Whether a token kind ends a broken statement.
pub open spec fn ends_statement(kind: TokenType) -> bool {
    kind == TokenType::Semicolon || kind == TokenType::RBrace
}

/// How many tokens are given up after an error: those in front of the next
/// token that ends a statement, that token with them; or those in front of
/// the next keyword that restarts parsing, or in front of the end of the
/// input.
pub open spec fn synchronize(tokens: Seq<TokenView>, index: nat) -> nat
    decreases remaining(tokens, index),
{
    let peek = kind_of(tokens, index + 1);
    if peek == TokenType::Eof || restarts_parsing(peek) {
        0
    } else if ends_statement(peek) {
        1
    } else {
        1 + synchronize(tokens, index + 1)
    }
}

/// What has been gathered of a program.
pub struct Gathered {
    pub statements: Seq<StatementView>,
    pub errors: Seq<Seq<char>>,
    pub consumed: nat,
}

/// The statements and errors of a program from the current token on, after
/// those already gathered. A statement that fails leaves its error and
/// nothing else; parsing goes on after the tokens given up.
pub open spec fn gather(
    tokens: Seq<TokenView>,
    index: nat,
    statements: Seq<StatementView>,
    errors: Seq<Seq<char>>,
) -> Gathered
    decreases remaining(tokens, index),
{
    if kind_of(tokens, index) == TokenType::Eof {
        Gathered { statements, errors, consumed: 0 }
    } else {
        let statement = parse_statement(tokens, index);
        let step = match statement.result {
            Ok(parsed) => statement.consumed + 1,
            Err(message) => statement.consumed + synchronize(tokens, index + statement.consumed)
                + 1,
        };
        let rest = match statement.result {
            Ok(parsed) => gather(tokens, index + step, statements.push(parsed), errors),
            Err(message) => gather(tokens, index + step, statements, errors.push(message)),
        };
        Gathered { statements: rest.statements, errors: rest.errors, consumed: step + rest.consumed }
    }
}

/// A program: its statements if none failed, else the errors of those that did.
pub open spec fn parse_program(tokens: Seq<TokenView>, index: nat) -> Result<
    Seq<StatementView>,
    Seq<Seq<char>>,
> {
    let gathered = gather(tokens, index, Seq::empty(), Seq::empty());
    if gathered.errors.len() == 0 {
        Ok(gathered.statements)
    } else {
        Err(gathered.errors)
    }
}

} // verus!
