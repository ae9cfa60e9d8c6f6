//! What the parser returns for the tokens of a lexer is well named: its
//! names are words that are no keywords, and its integers are not negative.

use vstd::prelude::*;
use crate::ast::model::{ExpressionView, StatementView};
use crate::canonical::{
    is_name, plain_expression, plain_expressions, plain_statement, well_named,
    well_named_all, well_named_statement, without_blocks, without_blocks_all,
    without_blocks_statement,
};
use crate::lexer::{
    lemma_lex_progress, lemma_skip_blanks_bounds, lex, skip_blanks, token_stream, word_end,
};
use crate::parser::grammar::{
    gather, kind_of, more_arguments, parse_call, parse_call_arguments, parse_expression,
    parse_expression_statement, parse_head, parse_infix, parse_let_statement, parse_prefix,
    parse_return_statement, parse_statement, parse_tail, remaining, synchronize, token_of,
};
use crate::parser::operators::{infix_handler, prefix_handler, InfixHandler, PrefixHandler};
use crate::parser::precedence::{binding_power, Precedence};
use crate::text::{is_word_part, is_word_start};
use crate::token::{TokenType, TokenView};

verus! {

/// Whether every identifier token of a sequence holds a name.
pub open spec fn valid_tokens(tokens: Seq<TokenView>) -> bool {
    forall|k: int|
        0 <= k < tokens.len() && (#[trigger] tokens[k]).kind == TokenType::Ident ==> is_name(
            tokens[k].literal,
        )
}

/// The characters of a run of word characters are word characters.
pub proof fn lemma_word_end_run(input: Seq<char>, from: int, k: int)
    requires
        0 <= from <= k < word_end(input, from),
        from <= input.len(),
    ensures
        k < input.len(),
        is_word_part(input[k]),
    decreases input.len() - from,
{
    if from < input.len() && is_word_part(input[from]) {
        if k > from {
            lemma_word_end_run(input, from + 1, k);
        }
    }
}

/// An identifier token of the lexer holds a name: a word that is no keyword.
pub proof fn lemma_lexer_names(input: Seq<char>, position: int)
    requires
        0 <= position <= input.len(),
        lex(input, position).token.kind == TokenType::Ident,
    ensures
        is_name(lex(input, position).token.literal),
{
    lemma_skip_blanks_bounds(input, position);
    let start = skip_blanks(input, position);
    if start < input.len() {
        let c = input[start];
        let end = word_end(input, start);
        crate::lexer::lemma_word_end_bounds(input, start + 1);
        let word = input.subrange(start, end);
        assert(is_word_start(c));
        assert forall|i: int| 0 <= i < word.len() implies is_word_part(#[trigger] word[i]) by {
            lemma_word_end_run(input, start, start + i);
        }
    }
}

/// Every identifier token of a lexer holds a name.
pub proof fn lemma_stream_is_valid(input: Seq<char>, position: int)
    requires
        0 <= position <= input.len(),
    ensures
        valid_tokens(token_stream(input, position)),
    decreases input.len() - position,
{
    if position < input.len() {
        lemma_lex_progress(input, position);
        let rest = token_stream(input, lex(input, position).next);
        lemma_stream_is_valid(input, lex(input, position).next);
        let tokens = token_stream(input, position);
        assert forall|k: int|
            0 <= k < tokens.len() && (#[trigger] tokens[k]).kind
                == TokenType::Ident implies is_name(tokens[k].literal) by {
            if k == 0 {
                lemma_lexer_names(input, position);
            } else {
                assert(tokens[k] == rest[k - 1]);
            }
        }
    }
}

/// The token at an index of a valid sequence holds a name if it is an identifier.
pub proof fn lemma_valid_token(tokens: Seq<TokenView>, index: nat)
    requires
        valid_tokens(tokens),
        kind_of(tokens, index) == TokenType::Ident,
    ensures
        is_name(token_of(tokens, index).literal),
{
    assert(index < tokens.len());
    assert(tokens[index as int].kind == TokenType::Ident);
}

/// An expression parsed from valid tokens is well named.
#[verifier::rlimit(50)]
pub proof fn lemma_named_expression(tokens: Seq<TokenView>, index: nat, precedence: Precedence)
    requires
        valid_tokens(tokens),
    ensures
        parse_expression(tokens, index, precedence).result matches Ok(expression) ==> well_named(
            expression,
        ),
    decreases remaining(tokens, index), 4nat,
{
    let head = parse_head(tokens, index);
    lemma_named_head(tokens, index);
    match head.result {
        Ok(left) => {
            lemma_named_tail(tokens, index + head.consumed, precedence, left);
        },
        Err(message) => {},
    }
}

/// The head of an expression parsed from valid tokens is well named.
#[verifier::rlimit(50)]
pub proof fn lemma_named_head(tokens: Seq<TokenView>, index: nat)
    requires
        valid_tokens(tokens),
    ensures
        parse_head(tokens, index).result matches Ok(expression) ==> well_named(expression),
    decreases remaining(tokens, index), 3nat,
{
    match prefix_handler(kind_of(tokens, index)) {
        Some(PrefixHandler::Identifier) => {
            lemma_valid_token(tokens, index);
        },
        Some(PrefixHandler::Prefix(operator)) => {
            lemma_named_expression(tokens, index + 1, Precedence::Prefix);
            assert(parse_prefix(tokens, index, operator).result matches Ok(expression)
                ==> well_named(expression));
        },
        Some(PrefixHandler::Grouped) => {
            lemma_named_expression(tokens, index + 1, Precedence::Lowest);
            assert(crate::parser::grammar::parse_grouped(tokens, index).result matches Ok(
                expression,
            ) ==> well_named(expression));
        },
        Some(PrefixHandler::If) => {
            assert(crate::parser::grammar::parse_if(tokens, index).result matches Ok(expression)
                ==> expression is If);
        },
        Some(PrefixHandler::Function) => {
            assert(crate::parser::grammar::parse_function(tokens, index).result matches Ok(
                expression,
            ) ==> expression is Function);
        },
        _ => {},
    }
}

/// What follows a well named left operand, parsed from valid tokens, makes
/// a well named expression with it.
#[verifier::rlimit(50)]
pub proof fn lemma_named_tail(
    tokens: Seq<TokenView>,
    index: nat,
    precedence: Precedence,
    left: ExpressionView,
)
    requires
        valid_tokens(tokens),
        well_named(left),
    ensures
        parse_tail(tokens, index, precedence, left).result matches Ok(expression) ==> well_named(
            expression,
        ),
    decreases remaining(tokens, index), 3nat,
{
    let peek = kind_of(tokens, index + 1);
    if peek != TokenType::Semicolon && precedence.level() < binding_power(peek).level() {
        match infix_handler(peek) {
            Some(InfixHandler::Binary(operator)) => {
                lemma_named_expression(tokens, index + 2, binding_power(peek));
                let infix = parse_infix(tokens, index + 1, left, operator);
                match infix.result {
                    Ok(expression) => {
                        lemma_named_tail(
                            tokens,
                            index + 1 + infix.consumed,
                            precedence,
                            expression,
                        );
                    },
                    Err(message) => {},
                }
            },
            Some(InfixHandler::Call) => {
                lemma_named_arguments(tokens, index + 1);
                let call = parse_call(tokens, index + 1, left);
                match call.result {
                    Ok(expression) => {
                        lemma_named_tail(
                            tokens,
                            index + 1 + call.consumed,
                            precedence,
                            expression,
                        );
                    },
                    Err(message) => {},
                }
            },
            None => {},
        }
    }
}

/// The arguments of a call parsed from valid tokens are well named.
#[verifier::rlimit(50)]
pub proof fn lemma_named_arguments(tokens: Seq<TokenView>, index: nat)
    requires
        valid_tokens(tokens),
        index < tokens.len(),
    ensures
        parse_call_arguments(tokens, index).result matches Ok(arguments) ==> well_named_all(
            arguments,
        ),
    decreases remaining(tokens, index), 1nat,
{
    if kind_of(tokens, index + 1) != TokenType::RParen {
        lemma_named_expression(tokens, index + 1, Precedence::Lowest);
        let first = parse_expression(tokens, index + 1, Precedence::Lowest);
        match first.result {
            Ok(value) => {
                lemma_named_more_arguments(tokens, index + 1 + first.consumed, seq![value]);
            },
            Err(message) => {},
        }
    }
}

/// The rest of the arguments of a call parsed from valid tokens are well named.
#[verifier::rlimit(50)]
pub proof fn lemma_named_more_arguments(
    tokens: Seq<TokenView>,
    index: nat,
    values: Seq<ExpressionView>,
)
    requires
        valid_tokens(tokens),
        well_named_all(values),
    ensures
        more_arguments(tokens, index, values).result matches Ok(arguments) ==> well_named_all(
            arguments,
        ),
    decreases remaining(tokens, index), 0nat,
{
    if kind_of(tokens, index + 1) == TokenType::Comma {
        lemma_named_expression(tokens, index + 2, Precedence::Lowest);
        let next = parse_expression(tokens, index + 2, Precedence::Lowest);
        match next.result {
            Ok(value) => {
                lemma_named_more_arguments(
                    tokens,
                    index + 2 + next.consumed,
                    values.push(value),
                );
            },
            Err(message) => {},
        }
    }
}

/// A statement parsed from valid tokens is well named, and is no block.
#[verifier::rlimit(50)]
pub proof fn lemma_named_statement(tokens: Seq<TokenView>, index: nat)
    requires
        valid_tokens(tokens),
    ensures
        parse_statement(tokens, index).result matches Ok(statement) ==> well_named_statement(
            statement,
        ) && !(statement is Block),
{
    match kind_of(tokens, index) {
        TokenType::Let => {
            lemma_named_expression(tokens, index + 3, Precedence::Lowest);
            if kind_of(tokens, index + 1) == TokenType::Ident {
                lemma_valid_token(tokens, index + 1);
            }
            assert(parse_let_statement(tokens, index).result matches Ok(statement)
                ==> well_named_statement(statement) && !(statement is Block));
        },
        TokenType::Return => {
            lemma_named_expression(tokens, index + 1, Precedence::Lowest);
            assert(parse_return_statement(tokens, index).result matches Ok(statement)
                ==> well_named_statement(statement) && !(statement is Block));
        },
        _ => {
            lemma_named_expression(tokens, index, Precedence::Lowest);
            assert(parse_expression_statement(tokens, index).result matches Ok(statement)
                ==> well_named_statement(statement) && !(statement is Block));
        },
    }
}

/// Whether every statement of a list is well named and no block.
pub open spec fn named_statements(statements: Seq<StatementView>) -> bool {
    forall|i: int|
        0 <= i < statements.len() ==> well_named_statement(#[trigger] statements[i]) && !(
        statements[i] is Block)
}

/// The statements gathered from valid tokens are well named, and none is a block.
#[verifier::rlimit(50)]
pub proof fn lemma_named_program(
    tokens: Seq<TokenView>,
    index: nat,
    statements: Seq<StatementView>,
    errors: Seq<Seq<char>>,
)
    requires
        valid_tokens(tokens),
        named_statements(statements),
    ensures
        named_statements(gather(tokens, index, statements, errors).statements),
    decreases remaining(tokens, index),
{
    if kind_of(tokens, index) != TokenType::Eof {
        let statement = parse_statement(tokens, index);
        lemma_named_statement(tokens, index);
        match statement.result {
            Ok(parsed) => {
                let more = statements.push(parsed);
                assert(named_statements(more)) by {
                    assert forall|i: int| 0 <= i < more.len() implies well_named_statement(
                        #[trigger] more[i],
                    ) && !(more[i] is Block) by {
                        if i < statements.len() {
                            assert(more[i] == statements[i]);
                        }
                    }
                }
                lemma_named_program(tokens, index + statement.consumed + 1, more, errors);
            },
            Err(message) => {
                lemma_named_program(
                    tokens,
                    index + statement.consumed + synchronize(tokens, index + statement.consumed)
                        + 1,
                    statements,
                    errors.push(message),
                );
            },
        }
    }
}

/// A well named expression without conditionals and function literals is plain.
pub proof fn lemma_plain_expression(expression: ExpressionView)
    requires
        well_named(expression),
        without_blocks(expression),
    ensures
        plain_expression(expression),
    decreases expression,
{
    match expression {
        ExpressionView::Prefix { operator, right } => {
            lemma_plain_expression(*right);
        },
        ExpressionView::Infix { left, operator, right } => {
            lemma_plain_expression(*left);
            lemma_plain_expression(*right);
        },
        ExpressionView::Call { function, arguments } => {
            lemma_plain_expression(*function);
            assert(well_named_all(arguments));
            assert(without_blocks_all(arguments));
            assert forall|i: int| 0 <= i < arguments.len() implies plain_expression(
                #[trigger] arguments[i],
            ) by {
                lemma_plain_expression(arguments[i]);
            }
            assert(plain_expressions(arguments));
        },
        _ => {},
    }
}

/// A well named statement without conditionals and function literals is plain.
pub proof fn lemma_plain_statement(statement: StatementView)
    requires
        well_named_statement(statement),
        without_blocks_statement(statement),
    ensures
        plain_statement(statement),
{
    match statement {
        StatementView::Let { name, value } => {
            lemma_plain_expression(value);
        },
        StatementView::Return { value } => {
            lemma_plain_expression(value);
        },
        StatementView::Expression { expression } => {
            lemma_plain_expression(expression);
        },
        StatementView::Block { statements } => {},
    }
}

} // verus!
