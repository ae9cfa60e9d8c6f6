//! Canonical programs: the programs whose canonical text denotes them again,
//! and the tokens of that text.

pub mod lexing;
pub mod names;
pub mod parsing;

use vstd::prelude::*;
use crate::ast::model::{render_block, ExpressionView, StatementView};
use crate::canonical::lexing::lemma_lex_canonical;
use crate::canonical::names::{
    lemma_named_program, lemma_plain_statement, lemma_stream_is_valid, named_statements,
};
use crate::canonical::parsing::lemma_parse_program_tokens;
use crate::lexer::token_stream;
use crate::repl::program_of;
use crate::ast::operators::{InfixOperatorType, PrefixOperatorType};
use crate::decimal::decimal;
use crate::text::{is_word_part, is_word_start};
use crate::token::{keyword_kind, TokenType, TokenView};

verus! {

/// A name as the lexer reads one: a word that is no keyword.
pub open spec fn is_name(word: Seq<char>) -> bool {
    &&& word.len() > 0
    &&& is_word_start(word[0])
    &&& forall|i: int| 0 <= i < word.len() ==> is_word_part(#[trigger] word[i])
    &&& keyword_kind(word) == TokenType::Ident
}

/// An expression of names, integers that are not negative, booleans,
/// operators and calls: one without a conditional or a function literal.
pub open spec fn plain_expression(expression: ExpressionView) -> bool
    decreases expression,
{
    match expression {
        ExpressionView::Identifier { name } => is_name(name),
        ExpressionView::Integer { value } => value >= 0,
        ExpressionView::Boolean { value } => true,
        ExpressionView::Prefix { operator, right } => plain_expression(*right),
        ExpressionView::Infix { left, operator, right } => plain_expression(*left)
            && plain_expression(*right),
        ExpressionView::If { condition, consequence, alternative } => false,
        ExpressionView::Function { parameters, body } => false,
        ExpressionView::Call { function, arguments } => plain_expression(*function)
            && plain_expressions(arguments),
    }
}

/// Whether every expression of a list is plain.
pub open spec fn plain_expressions(expressions: Seq<ExpressionView>) -> bool
    decreases expressions,
{
    forall|i: int|
        0 <= i < expressions.len() ==> plain_expression(#[trigger] expressions[i])
}

/// A `let`, `return` or expression statement over plain expressions.
pub open spec fn plain_statement(statement: StatementView) -> bool {
    match statement {
        StatementView::Let { name, value } => is_name(name) && plain_expression(value),
        StatementView::Return { value } => plain_expression(value),
        StatementView::Expression { expression } => plain_expression(expression),
        StatementView::Block { statements } => false,
    }
}

/// An expression whose names are words that are no keywords and whose
/// integers are not negative, wherever it is made of names, integers,
/// booleans, operators and calls.
pub open spec fn well_named(expression: ExpressionView) -> bool
    decreases expression,
{
    match expression {
        ExpressionView::Identifier { name } => is_name(name),
        ExpressionView::Integer { value } => value >= 0,
        ExpressionView::Prefix { operator, right } => well_named(*right),
        ExpressionView::Infix { left, operator, right } => well_named(*left) && well_named(
            *right,
        ),
        ExpressionView::Call { function, arguments } => well_named(*function) && well_named_all(
            arguments,
        ),
        _ => true,
    }
}

/// Whether every expression of a list is well named.
pub open spec fn well_named_all(expressions: Seq<ExpressionView>) -> bool
    decreases expressions,
{
    forall|i: int| 0 <= i < expressions.len() ==> well_named(#[trigger] expressions[i])
}

/// A statement whose name and whose expression are well named.
pub open spec fn well_named_statement(statement: StatementView) -> bool {
    match statement {
        StatementView::Let { name, value } => is_name(name) && well_named(value),
        StatementView::Return { value } => well_named(value),
        StatementView::Expression { expression } => well_named(expression),
        StatementView::Block { statements } => true,
    }
}

/// An expression that holds no block: no conditional and no function literal.
pub open spec fn without_blocks(expression: ExpressionView) -> bool
    decreases expression,
{
    match expression {
        ExpressionView::Prefix { operator, right } => without_blocks(*right),
        ExpressionView::Infix { left, operator, right } => without_blocks(*left)
            && without_blocks(*right),
        ExpressionView::Call { function, arguments } => without_blocks(*function)
            && without_blocks_all(arguments),
        ExpressionView::If { condition, consequence, alternative } => false,
        ExpressionView::Function { parameters, body } => false,
        _ => true,
    }
}

/// Whether no expression of a list holds a block.
pub open spec fn without_blocks_all(expressions: Seq<ExpressionView>) -> bool
    decreases expressions,
{
    forall|i: int| 0 <= i < expressions.len() ==> without_blocks(#[trigger] expressions[i])
}

/// A `let`, `return` or expression statement that holds no block.
pub open spec fn without_blocks_statement(statement: StatementView) -> bool {
    match statement {
        StatementView::Let { name, value } => without_blocks(value),
        StatementView::Return { value } => without_blocks(value),
        StatementView::Expression { expression } => without_blocks(expression),
        StatementView::Block { statements } => false,
    }
}

/// A program whose canonical text can be read again: no statement holds a
/// block, and each can stand right after the one before it.
pub open spec fn readable_again(statements: Seq<StatementView>) -> bool {
    &&& forall|i: int|
        0 <= i < statements.len() ==> without_blocks_statement(#[trigger] statements[i])
    &&& forall|i: int|
        0 <= i < statements.len() - 1 ==> follows_cleanly(
            #[trigger] statements[i],
            statements[i + 1],
        )
}

/// The token of a parenthesis, a comma, a semicolon or `=`.
pub open spec fn simple_token(kind: TokenType) -> TokenView {
    TokenView { kind, literal: kind.name() }
}

/// The token of a prefix operator.
pub open spec fn prefix_token(operator: PrefixOperatorType) -> TokenView {
    TokenView { kind: operator.token_kind(), literal: operator.symbol() }
}

/// The token of an infix operator.
pub open spec fn infix_token(operator: InfixOperatorType) -> TokenView {
    TokenView { kind: operator.token_kind(), literal: operator.symbol() }
}

/// The token of a keyword.
pub open spec fn keyword_token(kind: TokenType, word: Seq<char>) -> TokenView {
    TokenView { kind, literal: word }
}

/// The tokens of the canonical text of a plain expression.
pub open spec fn expression_tokens(expression: ExpressionView) -> Seq<TokenView>
    decreases expression,
{
    match expression {
        ExpressionView::Identifier { name } => seq![
            TokenView { kind: TokenType::Ident, literal: name },
        ],
        ExpressionView::Integer { value } => seq![
            TokenView { kind: TokenType::Int, literal: decimal(value as int) },
        ],
        ExpressionView::Boolean { value } => seq![
            if value {
                keyword_token(TokenType::True, "true"@)
            } else {
                keyword_token(TokenType::False, "false"@)
            },
        ],
        ExpressionView::Prefix { operator, right } => seq![
            simple_token(TokenType::LParen),
            prefix_token(operator),
        ] + expression_tokens(*right) + seq![simple_token(TokenType::RParen)],
        ExpressionView::Infix { left, operator, right } => seq![simple_token(TokenType::LParen)]
            + expression_tokens(*left) + seq![infix_token(operator)] + expression_tokens(*right)
            + seq![simple_token(TokenType::RParen)],
        ExpressionView::Call { function, arguments } => expression_tokens(*function) + seq![
            simple_token(TokenType::LParen),
        ] + arguments_tokens(arguments) + seq![simple_token(TokenType::RParen)],
        ExpressionView::If { condition, consequence, alternative } => Seq::empty(),
        ExpressionView::Function { parameters, body } => Seq::empty(),
    }
}

/// The tokens of a list of arguments: those of each, with a comma between each two.
pub open spec fn arguments_tokens(arguments: Seq<ExpressionView>) -> Seq<TokenView>
    decreases arguments,
{
    if arguments.len() == 0 {
        Seq::empty()
    } else if arguments.len() == 1 {
        expression_tokens(arguments[0])
    } else {
        arguments_tokens(arguments.drop_last()) + seq![simple_token(TokenType::Comma)]
            + expression_tokens(arguments.last())
    }
}

/// The tokens of the canonical text of a plain statement.
pub open spec fn statement_tokens(statement: StatementView) -> Seq<TokenView> {
    match statement {
        StatementView::Let { name, value } => seq![
            keyword_token(TokenType::Let, "let"@),
            TokenView { kind: TokenType::Ident, literal: name },
            simple_token(TokenType::Assign),
        ] + expression_tokens(value) + seq![simple_token(TokenType::Semicolon)],
        StatementView::Return { value } => seq![keyword_token(TokenType::Return, "return"@)]
            + expression_tokens(value) + seq![simple_token(TokenType::Semicolon)],
        StatementView::Expression { expression } => expression_tokens(expression),
        StatementView::Block { statements } => Seq::empty(),
    }
}

/// The tokens of the canonical text of a list of plain statements.
pub open spec fn program_tokens(statements: Seq<StatementView>) -> Seq<TokenView>
    decreases statements.len(),
{
    if statements.len() == 0 {
        Seq::empty()
    } else {
        program_tokens(statements.drop_last()) + statement_tokens(statements.last())
    }
}

/// The kind of the first token of a plain expression.
pub open spec fn leading_kind(expression: ExpressionView) -> TokenType
    decreases expression,
{
    match expression {
        ExpressionView::Identifier { name } => TokenType::Ident,
        ExpressionView::Integer { value } => TokenType::Int,
        ExpressionView::Boolean { value } => if value {
            TokenType::True
        } else {
            TokenType::False
        },
        ExpressionView::Call { function, arguments } => leading_kind(*function),
        _ => TokenType::LParen,
    }
}

/// The kind of the first token of a plain statement.
pub open spec fn statement_leading_kind(statement: StatementView) -> TokenType {
    match statement {
        StatementView::Let { name, value } => TokenType::Let,
        StatementView::Return { value } => TokenType::Return,
        StatementView::Expression { expression } => leading_kind(expression),
        StatementView::Block { statements } => TokenType::LBrace,
    }
}

/// Whether the text of `next` can stand right after that of `statement`: a
/// `let` or `return` statement ends with its semicolon, and anything can
/// follow. The text of an expression statement has no semicolon, so what
/// follows must neither run into its last word or number nor read as a call
/// of it.
pub open spec fn follows_cleanly(statement: StatementView, next: StatementView) -> bool {
    match statement {
        StatementView::Let { name, value } => true,
        StatementView::Return { value } => true,
        StatementView::Expression { expression } => match expression {
            ExpressionView::Identifier { name } => false,
            ExpressionView::Boolean { value } => false,
            ExpressionView::Integer { value } => statement_leading_kind(next)
                != TokenType::LParen && statement_leading_kind(next) != TokenType::Int,
            _ => statement_leading_kind(next) != TokenType::LParen,
        },
        StatementView::Block { statements } => false,
    }
}

/// A canonical program: plain statements, each of which can stand right
/// after the one before it.
pub open spec fn canonical_program(statements: Seq<StatementView>) -> bool {
    &&& forall|i: int| 0 <= i < statements.len() ==> plain_statement(#[trigger] statements[i])
    &&& forall|i: int|
        0 <= i < statements.len() - 1 ==> follows_cleanly(
            #[trigger] statements[i],
            statements[i + 1],
        )
}

/// The canonical text of a canonical program denotes the program: lexing
/// and parsing the text gives the program back, without an error.
pub proof fn lemma_text_denotes_program(statements: Seq<StatementView>)
    requires
        canonical_program(statements),
    ensures
        program_of(render_block(statements)) == Ok::<Seq<StatementView>, Seq<Seq<char>>>(
            statements,
        ),
{
    lemma_lex_canonical(statements);
    lemma_parse_program_tokens(statements);
}

/// A program that a source text denotes is well named.
pub proof fn lemma_parsed_is_well_named(source: Seq<char>, statements: Seq<StatementView>)
    requires
        program_of(source) == Ok::<Seq<StatementView>, Seq<Seq<char>>>(statements),
    ensures
        forall|i: int|
            0 <= i < statements.len() ==> well_named_statement(#[trigger] statements[i]),
{
    lemma_stream_is_valid(source, 0);
    assert(named_statements(Seq::empty()));
    lemma_named_program(token_stream(source, 0), 0, Seq::empty(), Seq::empty());
}

/// Parsing and printing round trip: if a source text denotes a program
/// that holds no block and whose statements can stand one right after the
/// other, then the canonical text of the program denotes the program again.
///
/// A program that holds a conditional or a function literal is left out:
/// the text of a block has no braces, and is never read as a block again.
/// So is a program with an expression statement whose text runs into the
/// next statement, or reads as a call of it.
pub proof fn lemma_parse_print_round_trip(source: Seq<char>, statements: Seq<StatementView>)
    requires
        program_of(source) == Ok::<Seq<StatementView>, Seq<Seq<char>>>(statements),
        readable_again(statements),
    ensures
        program_of(render_block(statements)) == program_of(source),
{
    lemma_parsed_is_well_named(source, statements);
    assert forall|i: int| 0 <= i < statements.len() implies plain_statement(
        #[trigger] statements[i],
    ) by {
        lemma_plain_statement(statements[i]);
    }
    lemma_text_denotes_program(statements);
}

} // verus!
