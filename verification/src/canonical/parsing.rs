//! Parsing the tokens of a canonical text gives back what the text was made of.

use vstd::prelude::*;
use crate::ast::model::{ExpressionView, StatementView};
use crate::ast::operators::{InfixOperatorType, PrefixOperatorType};
use crate::canonical::{
    arguments_tokens, canonical_program, expression_tokens, follows_cleanly, infix_token,
    keyword_token, leading_kind, plain_expression, plain_expressions, plain_statement,
    prefix_token, program_tokens, simple_token, statement_leading_kind, statement_tokens,
};
use crate::parser::grammar;
use crate::parser::grammar::{
    after, done, gather, kind_of, more_arguments, parse_call, parse_call_arguments,
    parse_expression, parse_expression_statement, parse_grouped, parse_head, parse_infix,
    parse_let_statement, parse_prefix, parse_return_statement, parse_statement, parse_tail,
    semicolon, token_of,
};
use crate::parser::operators::{infix_handler, prefix_handler, InfixHandler, PrefixHandler};
use crate::parser::precedence::{binding_power, Precedence};
use crate::token::{TokenType, TokenView};

verus! {

/// Whether `part` stands in `tokens` from `index` on.
#[verifier::opaque]
pub open spec fn has_at(tokens: Seq<TokenView>, index: nat, part: Seq<TokenView>) -> bool {
    &&& index + part.len() <= tokens.len()
    &&& tokens.subrange(index as int, (index + part.len()) as int) == part
}

/// Where a sequence of two parts stands, its parts stand one after the other.
pub proof fn lemma_has_at_split(
    tokens: Seq<TokenView>,
    index: nat,
    first: Seq<TokenView>,
    second: Seq<TokenView>,
)
    requires
        has_at(tokens, index, first + second),
    ensures
        has_at(tokens, index, first),
        has_at(tokens, index + first.len(), second),
{
    reveal(has_at);
    let whole = first + second;
    assert(tokens.subrange(index as int, (index + first.len()) as int) =~= first) by {
        assert forall|k: int| 0 <= k < first.len() implies tokens[index + k] == first[k] by {
            assert(tokens.subrange(index as int, (index + whole.len()) as int)[k] == whole[k]);
        }
    }
    assert(tokens.subrange((index + first.len()) as int, (index + first.len() + second.len()) as int)
        =~= second) by {
        assert forall|k: int| 0 <= k < second.len() implies tokens[index + first.len() + k]
            == second[k] by {
            assert(tokens.subrange(index as int, (index + whole.len()) as int)[first.len() + k]
                == whole[first.len() + k]);
        }
    }
}

/// Where a sequence stands, each of its tokens stands at its place.
pub proof fn lemma_has_at_index(
    tokens: Seq<TokenView>,
    index: nat,
    part: Seq<TokenView>,
    k: nat,
)
    requires
        has_at(tokens, index, part),
        k < part.len(),
    ensures
        token_of(tokens, index + k) == part[k as int],
        index + k < tokens.len(),
{
    reveal(has_at);
    assert(tokens.subrange(index as int, (index + part.len()) as int)[k as int] == tokens[(index
        + k) as int]);
}

/// A plain expression has at least one token, and its first token is of its leading kind.
pub proof fn lemma_expression_tokens_first(expression: ExpressionView)
    requires
        plain_expression(expression),
    ensures
        expression_tokens(expression).len() >= 1,
        expression_tokens(expression)[0].kind == leading_kind(expression),
    decreases expression,
{
    match expression {
        ExpressionView::Call { function, arguments } => {
            lemma_expression_tokens_first(*function);
        },
        _ => {},
    }
}

/// Every prefix operator is found in the prefix table under its token kind,
/// and every infix operator in the infix table.
pub proof fn lemma_operators_in_tables(prefix: PrefixOperatorType, infix: InfixOperatorType)
    ensures
        prefix_handler(prefix.token_kind()) == Some(PrefixHandler::Prefix(prefix)),
        infix_handler(infix.token_kind()) == Some(InfixHandler::Binary(infix)),
        binding_power(infix.token_kind()).level() > 0,
        binding_power(infix.token_kind()).level() < 5,
        infix.token_kind() != TokenType::Semicolon,
{
}

/// The number of tokens of a plain expression after its first.
pub open spec fn span(expression: ExpressionView) -> nat {
    (expression_tokens(expression).len() - 1) as nat
}

/// What parsing a plain expression comes to: from its first token, the
/// parser comes to stand on its last token with the expression as the left
/// operand, and goes on from there.
pub open spec fn reads_whole(
    tokens: Seq<TokenView>,
    index: nat,
    precedence: Precedence,
    expression: ExpressionView,
) -> bool {
    parse_expression(tokens, index, precedence) == after(
        span(expression),
        parse_tail(tokens, index + span(expression), precedence, expression),
    )
}

/// Where the tokens of a prefix expression stand, there stand an opening
/// parenthesis, the operator, the tokens of the operand and a closing parenthesis.
#[verifier::rlimit(50)]
proof fn lemma_prefix_layout(
    tokens: Seq<TokenView>,
    index: nat,
    operator: PrefixOperatorType,
    right: ExpressionView,
)
    requires
        plain_expression(right),
        has_at(
            tokens,
            index,
            expression_tokens(ExpressionView::Prefix { operator, right: Box::new(right) }),
        ),
    ensures
        span(ExpressionView::Prefix { operator, right: Box::new(right) }) == span(right) + 3,
        index + span(right) + 3 < tokens.len(),
        kind_of(tokens, index) == TokenType::LParen,
        kind_of(tokens, index + 1) == operator.token_kind(),
        has_at(tokens, index + 2, expression_tokens(right)),
        kind_of(tokens, index + span(right) + 3) == TokenType::RParen,
{
    let lparen = simple_token(TokenType::LParen);
    let rparen = simple_token(TokenType::RParen);
    let inner = expression_tokens(right);
    let head = seq![lparen, prefix_token(operator)];
    lemma_expression_tokens_first(right);
    lemma_has_at_split(tokens, index, head + inner, seq![rparen]);
    lemma_has_at_split(tokens, index, head, inner);
    lemma_has_at_index(tokens, index, head, 0);
    lemma_has_at_index(tokens, index, head, 1);
    lemma_has_at_index(tokens, index + 2 + inner.len(), seq![rparen], 0);
}

/// A prefix expression is read whole if its operand is.
#[verifier::rlimit(50)]
proof fn lemma_prefix_steps(
    tokens: Seq<TokenView>,
    index: nat,
    precedence: Precedence,
    operator: PrefixOperatorType,
    right: ExpressionView,
    n: nat,
)
    requires
        index + n + 3 < tokens.len(),
        kind_of(tokens, index) == TokenType::LParen,
        kind_of(tokens, index + 1) == operator.token_kind(),
        kind_of(tokens, index + n + 3) == TokenType::RParen,
        parse_expression(tokens, index + 2, Precedence::Prefix) == after(
            n,
            parse_tail(tokens, index + 2 + n, Precedence::Prefix, right),
        ),
    ensures
        parse_head(tokens, index) == done(
            ExpressionView::Prefix { operator, right: Box::new(right) },
            n + 3,
        ),
{
    let expression = ExpressionView::Prefix { operator, right: Box::new(right) };
    lemma_operators_in_tables(operator, InfixOperatorType::Add);
    assert(parse_tail(tokens, index + 2 + n, Precedence::Prefix, right) == done(right, 0));
    assert(parse_prefix(tokens, index + 1, operator) == done(expression, 1 + n));
    assert(parse_head(tokens, index + 1) == done(expression, 1 + n));
    assert(parse_tail(tokens, index + 1 + (1 + n), Precedence::Lowest, expression) == done(
        expression,
        0,
    ));
    assert(parse_expression(tokens, index + 1, Precedence::Lowest) == done(expression, 1 + n));
    assert(parse_grouped(tokens, index) == done(expression, 1 + (1 + n) + 1));
}

/// Where the tokens of an infix expression stand, there stand an opening
/// parenthesis, the tokens of the left operand, the operator, the tokens of
/// the right operand and a closing parenthesis.
#[verifier::rlimit(50)]
proof fn lemma_infix_layout(
    tokens: Seq<TokenView>,
    index: nat,
    left: ExpressionView,
    operator: InfixOperatorType,
    right: ExpressionView,
)
    requires
        plain_expression(left),
        plain_expression(right),
        has_at(
            tokens,
            index,
            expression_tokens(
                ExpressionView::Infix { left: Box::new(left), operator, right: Box::new(right) },
            ),
        ),
    ensures
        span(ExpressionView::Infix { left: Box::new(left), operator, right: Box::new(right) })
            == span(left) + span(right) + 4,
        index + span(left) + span(right) + 4 < tokens.len(),
        kind_of(tokens, index) == TokenType::LParen,
        has_at(tokens, index + 1, expression_tokens(left)),
        kind_of(tokens, index + span(left) + 2) == operator.token_kind(),
        has_at(tokens, index + span(left) + 3, expression_tokens(right)),
        kind_of(tokens, index + span(left) + span(right) + 4) == TokenType::RParen,
{
    let lparen = simple_token(TokenType::LParen);
    let rparen = simple_token(TokenType::RParen);
    let first = expression_tokens(left);
    let second = expression_tokens(right);
    let middle = seq![infix_token(operator)];
    lemma_expression_tokens_first(left);
    lemma_expression_tokens_first(right);
    lemma_has_at_split(tokens, index, seq![lparen] + first + middle + second, seq![rparen]);
    lemma_has_at_split(tokens, index, seq![lparen] + first + middle, second);
    lemma_has_at_split(tokens, index, seq![lparen] + first, middle);
    lemma_has_at_split(tokens, index, seq![lparen], first);
    lemma_has_at_index(tokens, index, seq![lparen], 0);
    lemma_has_at_index(tokens, index + 1 + first.len(), middle, 0);
    lemma_has_at_index(tokens, index + 1 + first.len() + 1 + second.len(), seq![rparen], 0);
}

/// An infix expression is read whole if its operands are.
#[verifier::rlimit(50)]
proof fn lemma_infix_steps(
    tokens: Seq<TokenView>,
    index: nat,
    left: ExpressionView,
    operator: InfixOperatorType,
    right: ExpressionView,
    n: nat,
    m: nat,
)
    requires
        index + n + m + 4 < tokens.len(),
        kind_of(tokens, index) == TokenType::LParen,
        kind_of(tokens, index + n + 2) == operator.token_kind(),
        kind_of(tokens, index + n + m + 4) == TokenType::RParen,
        parse_expression(tokens, index + 1, Precedence::Lowest) == after(
            n,
            parse_tail(tokens, index + 1 + n, Precedence::Lowest, left),
        ),
        parse_expression(tokens, index + n + 3, binding_power(operator.token_kind())) == after(
            m,
            parse_tail(
                tokens,
                index + n + 3 + m,
                binding_power(operator.token_kind()),
                right,
            ),
        ),
    ensures
        parse_head(tokens, index) == done(
            ExpressionView::Infix { left: Box::new(left), operator, right: Box::new(right) },
            n + m + 4,
        ),
{
    let expression = ExpressionView::Infix {
        left: Box::new(left),
        operator,
        right: Box::new(right),
    };
    lemma_operators_in_tables(PrefixOperatorType::Bang, operator);
    let power = binding_power(operator.token_kind());
    let at_left = index + 1 + n;
    let at_operator = at_left + 1;
    let at_right = at_operator + 1 + m;
    assert(parse_tail(tokens, at_right, power, right) == done(right, 0));
    assert(parse_expression(tokens, at_operator + 1, power) == done(right, m));
    assert(parse_infix(tokens, at_operator, left, operator) == done(expression, 1 + m));
    assert(parse_tail(tokens, at_left + 1 + (1 + m), Precedence::Lowest, expression) == done(
        expression,
        0,
    ));
    assert(parse_tail(tokens, at_left, Precedence::Lowest, left) == done(
        expression,
        1 + (1 + m),
    ));
    assert(parse_expression(tokens, index + 1, Precedence::Lowest) == done(
        expression,
        n + (1 + (1 + m)),
    ));
    assert(parse_grouped(tokens, index) == done(expression, 1 + (n + (1 + (1 + m))) + 1));
}

/// Where the tokens of a call stand, there stand the tokens of the
/// expression called, an opening parenthesis, the tokens of the arguments
/// and a closing parenthesis.
#[verifier::rlimit(50)]
proof fn lemma_call_layout(
    tokens: Seq<TokenView>,
    index: nat,
    function: ExpressionView,
    arguments: Seq<ExpressionView>,
)
    requires
        plain_expression(function),
        has_at(
            tokens,
            index,
            expression_tokens(ExpressionView::Call { function: Box::new(function), arguments }),
        ),
    ensures
        span(ExpressionView::Call { function: Box::new(function), arguments }) == span(function)
            + arguments_tokens(arguments).len() + 2,
        index + span(function) + arguments_tokens(arguments).len() + 2 < tokens.len(),
        has_at(tokens, index, expression_tokens(function)),
        kind_of(tokens, index + span(function) + 1) == TokenType::LParen,
        has_at(tokens, index + span(function) + 2, arguments_tokens(arguments)),
        kind_of(tokens, index + span(function) + 2 + arguments_tokens(arguments).len())
            == TokenType::RParen,
{
    let lparen = simple_token(TokenType::LParen);
    let rparen = simple_token(TokenType::RParen);
    let first = expression_tokens(function);
    let list = arguments_tokens(arguments);
    lemma_expression_tokens_first(function);
    lemma_has_at_split(tokens, index, first + seq![lparen] + list, seq![rparen]);
    lemma_has_at_split(tokens, index, first + seq![lparen], list);
    lemma_has_at_split(tokens, index, first, seq![lparen]);
    lemma_has_at_index(tokens, index + first.len(), seq![lparen], 0);
    lemma_has_at_index(tokens, index + first.len() + 1 + list.len(), seq![rparen], 0);
}

/// A call is read whole if the expression called is, and the list of its arguments.
#[verifier::rlimit(50)]
proof fn lemma_call_steps(
    tokens: Seq<TokenView>,
    index: nat,
    precedence: Precedence,
    function: ExpressionView,
    arguments: Seq<ExpressionView>,
    n: nat,
    m: nat,
)
    requires
        precedence != Precedence::Call,
        index + n + m + 2 < tokens.len(),
        kind_of(tokens, index + n + 1) == TokenType::LParen,
        parse_expression(tokens, index, precedence) == after(
            n,
            parse_tail(tokens, index + n, precedence, function),
        ),
        parse_call_arguments(tokens, index + n + 1) == done(arguments, m + 1),
    ensures
        parse_expression(tokens, index, precedence) == after(
            n + m + 2,
            parse_tail(
                tokens,
                index + (n + m + 2),
                precedence,
                ExpressionView::Call { function: Box::new(function), arguments },
            ),
        ),
{
    let expression = ExpressionView::Call { function: Box::new(function), arguments };
    assert(parse_call(tokens, index + n + 1, function) == done(expression, m + 1));
    assert(parse_tail(tokens, index + n, precedence, function) == after(
        1 + (m + 1),
        parse_tail(tokens, index + n + 1 + (m + 1), precedence, expression),
    ));
}

/// Parsing the tokens of a plain expression reads the whole expression:
/// from its first token, the parser comes to stand on its last token with the
/// expression as the left operand, and goes on from there.
#[verifier::rlimit(50)]
pub proof fn lemma_parse_expression_tokens(
    tokens: Seq<TokenView>,
    index: nat,
    precedence: Precedence,
    expression: ExpressionView,
)
    requires
        plain_expression(expression),
        has_at(tokens, index, expression_tokens(expression)),
        precedence != Precedence::Call,
    ensures
        reads_whole(tokens, index, precedence, expression),
        expression_tokens(expression).len() == span(expression) + 1,
    decreases expression, 0nat,
{
    lemma_expression_tokens_first(expression);
    match expression {
        ExpressionView::Identifier { name } => {
            lemma_has_at_index(tokens, index, expression_tokens(expression), 0);
            assert(parse_head(tokens, index) == done(expression, 0));
        },
        ExpressionView::Integer { value } => {
            lemma_has_at_index(tokens, index, expression_tokens(expression), 0);
            crate::decimal::lemma_decimal_parses(value);
            assert(parse_head(tokens, index) == done(expression, 0));
        },
        ExpressionView::Boolean { value } => {
            lemma_has_at_index(tokens, index, expression_tokens(expression), 0);
            assert(parse_head(tokens, index) == done(expression, 0));
        },
        ExpressionView::Prefix { operator, right } => {
            lemma_prefix_layout(tokens, index, operator, *right);
            lemma_parse_expression_tokens(tokens, index + 2, Precedence::Prefix, *right);
            lemma_prefix_steps(tokens, index, precedence, operator, *right, span(*right));
        },
        ExpressionView::Infix { left, operator, right } => {
            lemma_infix_layout(tokens, index, *left, operator, *right);
            lemma_operators_in_tables(PrefixOperatorType::Bang, operator);
            lemma_parse_expression_tokens(tokens, index + 1, Precedence::Lowest, *left);
            lemma_parse_expression_tokens(
                tokens,
                index + span(*left) + 3,
                binding_power(operator.token_kind()),
                *right,
            );
            lemma_infix_steps(
                tokens,
                index,
                *left,
                operator,
                *right,
                span(*left),
                span(*right),
            );
        },
        ExpressionView::Call { function, arguments } => {
            lemma_call_layout(tokens, index, *function, arguments);
            lemma_parse_expression_tokens(tokens, index, precedence, *function);
            lemma_parse_arguments_tokens(tokens, index + span(*function) + 1, arguments);
            lemma_call_steps(
                tokens,
                index,
                precedence,
                *function,
                arguments,
                span(*function),
                arguments_tokens(arguments).len(),
            );
        },
        ExpressionView::If { condition, consequence, alternative } => {},
        ExpressionView::Function { parameters, body } => {},
    }
}

/// Parsing the tokens of a list of plain arguments, from the opening
/// parenthesis on, reads the list and ends on the closing parenthesis.
#[verifier::rlimit(50)]
pub proof fn lemma_parse_arguments_tokens(
    tokens: Seq<TokenView>,
    index: nat,
    arguments: Seq<ExpressionView>,
)
    requires
        plain_expressions(arguments),
        kind_of(tokens, index) == TokenType::LParen,
        has_at(tokens, index + 1, arguments_tokens(arguments)),
        kind_of(tokens, index + 1 + arguments_tokens(arguments).len()) == TokenType::RParen,
    ensures
        parse_call_arguments(tokens, index) == done(
            arguments,
            arguments_tokens(arguments).len() + 1,
        ),
    decreases arguments, arguments.len() + 1,
{
    if arguments.len() == 0 {
        assert(arguments =~= Seq::empty());
    } else {
        lemma_more_arguments_tokens(tokens, index, arguments, 1);
        let first = arguments[0];
        assert(arguments.take(1) =~= seq![first]);
        assert(arguments.take(1).drop_last() =~= Seq::empty());
        assert(arguments_tokens(arguments.take(1)) == expression_tokens(first));
        lemma_arguments_tokens_prefix(arguments, 1);
        lemma_has_at_split(
            tokens,
            index + 1,
            arguments_tokens(arguments.take(1)),
            arguments_tokens(arguments).skip(arguments_tokens(arguments.take(1)).len() as int),
        );
        lemma_expression_tokens_first(first);
        lemma_has_at_index(tokens, index + 1, expression_tokens(first), 0);
        lemma_parse_expression_tokens(tokens, index + 1, Precedence::Lowest, first);
        let n = span(first);
        lemma_argument_is_followed(tokens, index, arguments, 1);
        assert(parse_tail(tokens, index + 1 + n, Precedence::Lowest, first) == done(first, 0));
        assert(parse_expression(tokens, index + 1, Precedence::Lowest) == done(first, n));
    }
}

/// The tokens of the first arguments of a list stand at the front of the
/// tokens of the list.
pub proof fn lemma_arguments_tokens_prefix(arguments: Seq<ExpressionView>, count: nat)
    requires
        count <= arguments.len(),
    ensures
        arguments_tokens(arguments.take(count as int)).len() <= arguments_tokens(
            arguments,
        ).len(),
        arguments_tokens(arguments) == arguments_tokens(arguments.take(count as int))
            + arguments_tokens(arguments).skip(
            arguments_tokens(arguments.take(count as int)).len() as int,
        ),
    decreases arguments.len() - count,
{
    let whole = arguments_tokens(arguments);
    if count == arguments.len() {
        assert(arguments.take(count as int) =~= arguments);
        assert(whole =~= whole + whole.skip(whole.len() as int));
    } else {
        lemma_arguments_tokens_prefix(arguments, count + 1);
        let longer = arguments.take(count + 1 as int);
        assert(longer.drop_last() =~= arguments.take(count as int));
        let shorter = arguments_tokens(arguments.take(count as int));
        if count == 0 {
            assert(shorter =~= Seq::empty());
            assert(whole =~= shorter + whole.skip(0));
        } else {
            assert(arguments_tokens(longer) == shorter + seq![simple_token(TokenType::Comma)]
                + expression_tokens(longer.last()));
            assert(whole =~= shorter + whole.skip(shorter.len() as int));
        }
    }
}

/// After the tokens of the first `count` arguments of a list comes a comma
/// and the tokens of the next argument, or, after the last one, what follows the list.
#[verifier::rlimit(50)]
pub proof fn lemma_argument_is_followed(
    tokens: Seq<TokenView>,
    index: nat,
    arguments: Seq<ExpressionView>,
    count: nat,
)
    requires
        1 <= count <= arguments.len(),
        plain_expressions(arguments),
        has_at(tokens, index + 1, arguments_tokens(arguments)),
        kind_of(tokens, index + 1 + arguments_tokens(arguments).len()) == TokenType::RParen,
    ensures
        arguments_tokens(arguments.take(count as int)).len() >= 1,
        count == arguments.len() ==> arguments_tokens(arguments.take(count as int))
            == arguments_tokens(arguments),
        count < arguments.len() ==> {
            let read = arguments_tokens(arguments.take(count as int)).len();
            &&& kind_of(tokens, index + 1 + read) == TokenType::Comma
            &&& has_at(tokens, index + 1 + read + 1, expression_tokens(arguments[count as int]))
            &&& arguments_tokens(arguments.take(count + 1 as int)).len() == read + 1 + expression_tokens(
                arguments[count as int],
            ).len()
        },
{
    let read = arguments_tokens(arguments.take(count as int));
    lemma_arguments_tokens_nonempty(arguments.take(count as int));
    if count == arguments.len() {
        assert(arguments.take(count as int) =~= arguments);
    } else {
        let longer = arguments.take(count + 1 as int);
        assert(longer.drop_last() =~= arguments.take(count as int));
        assert(longer.last() == arguments[count as int]);
        let next = expression_tokens(arguments[count as int]);
        let comma = seq![simple_token(TokenType::Comma)];
        assert(arguments_tokens(longer) == read + comma + next);
        lemma_arguments_tokens_prefix(arguments, count + 1);
        lemma_has_at_split(
            tokens,
            index + 1,
            arguments_tokens(longer),
            arguments_tokens(arguments).skip(arguments_tokens(longer).len() as int),
        );
        lemma_has_at_split(tokens, index + 1, read + comma, next);
        lemma_has_at_split(tokens, index + 1, read, comma);
        lemma_has_at_index(tokens, index + 1 + read.len(), comma, 0);
    }
}

/// A list of plain arguments that is not empty has at least one token.
pub proof fn lemma_arguments_tokens_nonempty(arguments: Seq<ExpressionView>)
    requires
        arguments.len() >= 1,
        plain_expressions(arguments),
    ensures
        arguments_tokens(arguments).len() >= 1,
{
    lemma_expression_tokens_first(arguments.last());
    if arguments.len() == 1 {
        assert(arguments.last() == arguments[0]);
    }
}

/// With the first `count` arguments of a list read, parsing reads the rest
/// of the list and ends on the closing parenthesis.
#[verifier::rlimit(50)]
pub proof fn lemma_more_arguments_tokens(
    tokens: Seq<TokenView>,
    index: nat,
    arguments: Seq<ExpressionView>,
    count: nat,
)
    requires
        1 <= count <= arguments.len(),
        plain_expressions(arguments),
        has_at(tokens, index + 1, arguments_tokens(arguments)),
        kind_of(tokens, index + 1 + arguments_tokens(arguments).len()) == TokenType::RParen,
    ensures
        more_arguments(
            tokens,
            index + arguments_tokens(arguments.take(count as int)).len(),
            arguments.take(count as int),
        ) == done(
            arguments,
            (arguments_tokens(arguments).len() - arguments_tokens(
                arguments.take(count as int),
            ).len() + 1) as nat,
        ),
        arguments_tokens(arguments.take(count as int)).len() <= arguments_tokens(
            arguments,
        ).len(),
    decreases arguments, arguments.len() - count,
{
    let read = arguments_tokens(arguments.take(count as int)).len();
    let at = index + read;
    lemma_argument_is_followed(tokens, index, arguments, count);
    lemma_arguments_tokens_prefix(arguments, count);
    if count == arguments.len() {
        assert(arguments.take(count as int) =~= arguments);
    } else {
        let next = arguments[count as int];
        let n = span(next);
        lemma_expression_tokens_first(next);
        lemma_parse_expression_tokens(tokens, at + 2, Precedence::Lowest, next);
        lemma_argument_is_followed(tokens, index, arguments, count + 1);
        lemma_more_arguments_tokens(tokens, index, arguments, count + 1);
        let longer = arguments_tokens(arguments.take(count + 1 as int)).len();
        assert(longer == read + 1 + (n + 1));
        assert(kind_of(tokens, at + 2 + n + 1) == TokenType::Comma || kind_of(
            tokens,
            at + 2 + n + 1,
        ) == TokenType::RParen);
        assert(parse_tail(tokens, at + 2 + n, Precedence::Lowest, next) == done(next, 0));
        assert(parse_expression(tokens, at + 2, Precedence::Lowest) == done(next, n));
        assert(arguments.take(count as int).push(next) =~= arguments.take(count + 1 as int));
    }
}

/// A token kind at which an expression statement ends without a semicolon:
/// one that is no semicolon and does not bind as an infix operator.
pub open spec fn ends_expression(kind: TokenType) -> bool {
    kind != TokenType::Semicolon && binding_power(kind).level() == 0
}

/// A plain statement has at least one token, and its first token is of its
/// leading kind, which is not `Eof`.
pub proof fn lemma_statement_tokens_first(statement: StatementView)
    requires
        plain_statement(statement),
    ensures
        statement_tokens(statement).len() >= 1,
        statement_tokens(statement)[0].kind == statement_leading_kind(statement),
        statement_leading_kind(statement) != TokenType::Eof,
        statement_leading_kind(statement) != TokenType::Semicolon,
        statement_leading_kind(statement) != TokenType::LParen ==> ends_expression(
            statement_leading_kind(statement),
        ),
        statement matches StatementView::Expression { expression } ==> {
            &&& statement_leading_kind(statement) != TokenType::Let
            &&& statement_leading_kind(statement) != TokenType::Return
        },
{
    match statement {
        StatementView::Expression { expression } => {
            lemma_expression_tokens_first(expression);
            lemma_leading_kinds(expression);
        },
        _ => {},
    }
}

/// The first token of a plain expression is a name, an integer, a boolean
/// or an opening parenthesis.
pub proof fn lemma_leading_kinds(expression: ExpressionView)
    requires
        plain_expression(expression),
    ensures
        leading_kind(expression) == TokenType::Ident || leading_kind(expression)
            == TokenType::Int || leading_kind(expression) == TokenType::True || leading_kind(
            expression,
        ) == TokenType::False || leading_kind(expression) == TokenType::LParen,
    decreases expression,
{
    match expression {
        ExpressionView::Call { function, arguments } => {
            lemma_leading_kinds(*function);
        },
        _ => {},
    }
}

/// Where the tokens of a `let` statement stand, there stand `let`, the
/// name, `=`, the tokens of the value and a semicolon.
#[verifier::rlimit(50)]
proof fn lemma_let_layout(
    tokens: Seq<TokenView>,
    index: nat,
    name: Seq<char>,
    value: ExpressionView,
)
    requires
        plain_expression(value),
        has_at(tokens, index, statement_tokens(StatementView::Let { name, value })),
    ensures
        statement_tokens(StatementView::Let { name, value }).len() == span(value) + 5,
        index + span(value) + 4 < tokens.len(),
        kind_of(tokens, index) == TokenType::Let,
        token_of(tokens, index + 1) == (TokenView { kind: TokenType::Ident, literal: name }),
        kind_of(tokens, index + 2) == TokenType::Assign,
        has_at(tokens, index + 3, expression_tokens(value)),
        kind_of(tokens, index + span(value) + 4) == TokenType::Semicolon,
{
    let head = seq![
        keyword_token(TokenType::Let, "let"@),
        TokenView { kind: TokenType::Ident, literal: name },
        simple_token(TokenType::Assign),
    ];
    let inner = expression_tokens(value);
    let tail = seq![simple_token(TokenType::Semicolon)];
    lemma_expression_tokens_first(value);
    lemma_has_at_split(tokens, index, head + inner, tail);
    lemma_has_at_split(tokens, index, head, inner);
    lemma_has_at_index(tokens, index, head, 0);
    lemma_has_at_index(tokens, index, head, 1);
    lemma_has_at_index(tokens, index, head, 2);
    lemma_has_at_index(tokens, index + 3 + inner.len(), tail, 0);
}

/// Where the tokens of a `return` statement stand, there stand `return`,
/// the tokens of the value and a semicolon.
#[verifier::rlimit(50)]
proof fn lemma_return_layout(tokens: Seq<TokenView>, index: nat, value: ExpressionView)
    requires
        plain_expression(value),
        has_at(tokens, index, statement_tokens(StatementView::Return { value })),
    ensures
        statement_tokens(StatementView::Return { value }).len() == span(value) + 3,
        index + span(value) + 2 < tokens.len(),
        kind_of(tokens, index) == TokenType::Return,
        has_at(tokens, index + 1, expression_tokens(value)),
        kind_of(tokens, index + span(value) + 2) == TokenType::Semicolon,
{
    let head = seq![keyword_token(TokenType::Return, "return"@)];
    let inner = expression_tokens(value);
    let tail = seq![simple_token(TokenType::Semicolon)];
    lemma_expression_tokens_first(value);
    lemma_has_at_split(tokens, index, head + inner, tail);
    lemma_has_at_split(tokens, index, head, inner);
    lemma_has_at_index(tokens, index, head, 0);
    lemma_has_at_index(tokens, index + 1 + inner.len(), tail, 0);
}

/// A `let` statement is read whole if its value is.
#[verifier::rlimit(50)]
proof fn lemma_let_steps(
    tokens: Seq<TokenView>,
    index: nat,
    name: Seq<char>,
    value: ExpressionView,
    n: nat,
)
    requires
        index < tokens.len(),
        kind_of(tokens, index) == TokenType::Let,
        token_of(tokens, index + 1) == (TokenView { kind: TokenType::Ident, literal: name }),
        kind_of(tokens, index + 2) == TokenType::Assign,
        kind_of(tokens, index + n + 4) == TokenType::Semicolon,
        parse_expression(tokens, index + 3, Precedence::Lowest) == after(
            n,
            parse_tail(tokens, index + 3 + n, Precedence::Lowest, value),
        ),
    ensures
        parse_statement(tokens, index) == done(StatementView::Let { name, value }, n + 4),
{
    assert(parse_tail(tokens, index + 3 + n, Precedence::Lowest, value) == done(value, 0));
    assert(semicolon(tokens, index + 3 + n) == 1);
    assert(parse_let_statement(tokens, index) == done(
        StatementView::Let { name, value },
        3 + n + 1,
    ));
}

/// A `return` statement is read whole if its value is.
#[verifier::rlimit(50)]
proof fn lemma_return_steps(tokens: Seq<TokenView>, index: nat, value: ExpressionView, n: nat)
    requires
        index < tokens.len(),
        kind_of(tokens, index) == TokenType::Return,
        kind_of(tokens, index + n + 2) == TokenType::Semicolon,
        parse_expression(tokens, index + 1, Precedence::Lowest) == after(
            n,
            parse_tail(tokens, index + 1 + n, Precedence::Lowest, value),
        ),
    ensures
        parse_statement(tokens, index) == done(StatementView::Return { value }, n + 2),
{
    assert(parse_tail(tokens, index + 1 + n, Precedence::Lowest, value) == done(value, 0));
    assert(semicolon(tokens, index + 1 + n) == 1);
    assert(parse_return_statement(tokens, index) == done(
        StatementView::Return { value },
        1 + n + 1,
    ));
}

/// An expression statement is read whole if its expression is and what
/// follows ends it.
#[verifier::rlimit(50)]
proof fn lemma_expression_statement_steps(
    tokens: Seq<TokenView>,
    index: nat,
    expression: ExpressionView,
    n: nat,
)
    requires
        kind_of(tokens, index) != TokenType::Let,
        kind_of(tokens, index) != TokenType::Return,
        ends_expression(kind_of(tokens, index + n + 1)),
        parse_expression(tokens, index, Precedence::Lowest) == after(
            n,
            parse_tail(tokens, index + n, Precedence::Lowest, expression),
        ),
    ensures
        parse_statement(tokens, index) == done(StatementView::Expression { expression }, n),
{
    assert(parse_tail(tokens, index + n, Precedence::Lowest, expression) == done(expression, 0));
    assert(semicolon(tokens, index + n) == 0);
    assert(parse_expression_statement(tokens, index) == done(
        StatementView::Expression { expression },
        n,
    ));
}

/// Parsing the tokens of a plain statement reads the statement and ends on
/// its last token, if what follows an expression statement ends it.
#[verifier::rlimit(50)]
pub proof fn lemma_parse_statement_tokens(
    tokens: Seq<TokenView>,
    index: nat,
    statement: StatementView,
)
    requires
        plain_statement(statement),
        has_at(tokens, index, statement_tokens(statement)),
        statement is Expression ==> ends_expression(
            kind_of(tokens, index + statement_tokens(statement).len()),
        ),
    ensures
        statement_tokens(statement).len() >= 1,
        parse_statement(tokens, index) == done(
            statement,
            (statement_tokens(statement).len() - 1) as nat,
        ),
        kind_of(tokens, index) != TokenType::Eof,
{
    lemma_statement_tokens_first(statement);
    lemma_has_at_index(tokens, index, statement_tokens(statement), 0);
    match statement {
        StatementView::Let { name, value } => {
            lemma_let_layout(tokens, index, name, value);
            lemma_parse_expression_tokens(tokens, index + 3, Precedence::Lowest, value);
            lemma_let_steps(tokens, index, name, value, span(value));
        },
        StatementView::Return { value } => {
            lemma_return_layout(tokens, index, value);
            lemma_parse_expression_tokens(tokens, index + 1, Precedence::Lowest, value);
            lemma_return_steps(tokens, index, value, span(value));
        },
        StatementView::Expression { expression } => {
            lemma_parse_expression_tokens(tokens, index, Precedence::Lowest, expression);
            lemma_expression_statement_steps(tokens, index, expression, span(expression));
        },
        StatementView::Block { statements } => {},
    }
}

/// The tokens of the first statements of a list stand at the front of the
/// tokens of the list, and those of the next statement right after them.
pub proof fn lemma_program_tokens_prefix(statements: Seq<StatementView>, count: nat)
    requires
        count <= statements.len(),
    ensures
        program_tokens(statements.take(count as int)).len() <= program_tokens(statements).len(),
        count == statements.len() ==> program_tokens(statements.take(count as int))
            == program_tokens(statements),
        count < statements.len() ==> {
            &&& has_at(
                program_tokens(statements),
                program_tokens(statements.take(count as int)).len(),
                statement_tokens(statements[count as int]),
            )
            &&& program_tokens(statements.take(count + 1 as int)).len() == program_tokens(
                statements.take(count as int),
            ).len() + statement_tokens(statements[count as int]).len()
        },
{
    reveal(has_at);
    let whole = program_tokens(statements);
    lemma_program_tokens_take(statements, count);
    if count == statements.len() {
        assert(statements.take(count as int) =~= statements);
    } else {
        lemma_program_tokens_take(statements, count + 1);
        let longer = statements.take(count + 1 as int);
        assert(longer.drop_last() =~= statements.take(count as int));
        assert(longer.last() == statements[count as int]);
        let shorter = program_tokens(statements.take(count as int));
        let next = statement_tokens(statements[count as int]);
        assert(program_tokens(longer) == shorter + next);
        assert(whole.subrange(shorter.len() as int, (shorter.len() + next.len()) as int)
            =~= next) by {
            assert forall|j: int| 0 <= j < next.len() implies whole[shorter.len() + j]
                == next[j] by {
                assert(whole.take((shorter + next).len() as int)[shorter.len() + j] == (shorter
                    + next)[shorter.len() + j]);
            }
        }
    }
}

/// The tokens of the first statements of a list are the first tokens of the list.
pub proof fn lemma_program_tokens_take(statements: Seq<StatementView>, count: nat)
    requires
        count <= statements.len(),
    ensures
        program_tokens(statements.take(count as int)).len() <= program_tokens(statements).len(),
        program_tokens(statements.take(count as int)) == program_tokens(statements).take(
            program_tokens(statements.take(count as int)).len() as int,
        ),
    decreases statements.len() - count,
{
    let whole = program_tokens(statements);
    if count == statements.len() {
        assert(statements.take(count as int) =~= statements);
        assert(whole =~= whole.take(whole.len() as int));
    } else {
        lemma_program_tokens_take(statements, count + 1);
        let longer = statements.take(count + 1 as int);
        assert(longer.drop_last() =~= statements.take(count as int));
        let shorter = program_tokens(statements.take(count as int));
        assert(program_tokens(longer) == shorter + statement_tokens(longer.last()));
        assert(shorter =~= whole.take(shorter.len() as int));
    }
}

/// With the first `count` statements of a canonical program read, parsing
/// its tokens reads the rest of the program, without an error.
#[verifier::rlimit(50)]
pub proof fn lemma_gather_tokens(statements: Seq<StatementView>, count: nat)
    requires
        canonical_program(statements),
        count <= statements.len(),
    ensures
        gather(
            program_tokens(statements),
            program_tokens(statements.take(count as int)).len(),
            statements.take(count as int),
            Seq::empty(),
        ).statements == statements,
        gather(
            program_tokens(statements),
            program_tokens(statements.take(count as int)).len(),
            statements.take(count as int),
            Seq::empty(),
        ).errors == Seq::<Seq<char>>::empty(),
    decreases statements.len() - count,
{
    let tokens = program_tokens(statements);
    let at = program_tokens(statements.take(count as int)).len();
    lemma_program_tokens_prefix(statements, count);
    if count == statements.len() {
        assert(statements.take(count as int) =~= statements);
        assert(kind_of(tokens, at) == TokenType::Eof);
    } else {
        let statement = statements[count as int];
        let n = statement_tokens(statement).len();
        lemma_statement_tokens_first(statement);
        lemma_program_tokens_prefix(statements, count + 1);
        if count + 1 < statements.len() {
            let next = statements[count + 1 as int];
            lemma_statement_tokens_first(next);
            lemma_has_at_index(tokens, at + n, statement_tokens(next), 0);
            assert(follows_cleanly(statement, next));
        } else {
            assert(kind_of(tokens, at + n) == TokenType::Eof);
        }
        lemma_parse_statement_tokens(tokens, at, statement);
        lemma_gather_tokens(statements, count + 1);
        assert(statements.take(count as int).push(statement) =~= statements.take(
            count + 1 as int,
        ));
        assert(at + (n - 1) as nat + 1 == at + n);
    }
}

/// Parsing the tokens of a canonical program gives the program.
#[verifier::rlimit(50)]
pub proof fn lemma_parse_program_tokens(statements: Seq<StatementView>)
    requires
        canonical_program(statements),
    ensures
        grammar::parse_program(program_tokens(statements), 0) == Ok::<
            Seq<StatementView>,
            Seq<Seq<char>>,
        >(statements),
{
    lemma_gather_tokens(statements, 0);
    assert(statements.take(0) =~= Seq::empty());
    assert(program_tokens(statements.take(0)).len() == 0);
}

} // verus!
