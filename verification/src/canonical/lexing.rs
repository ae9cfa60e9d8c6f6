//! Lexing a canonical text gives the tokens of what the text was made of.

use vstd::prelude::*;
use crate::ast::model::{
    join, render_block, render_expression, render_expressions, render_statement,
    render_statements, ExpressionView, StatementView,
};
use crate::ast::operators::{InfixOperatorType, PrefixOperatorType};
use crate::canonical::{
    arguments_tokens, canonical_program, expression_tokens, follows_cleanly, infix_token,
    is_name, keyword_token, leading_kind, plain_expression, plain_expressions, plain_statement,
    prefix_token, program_tokens, simple_token, statement_leading_kind, statement_tokens,
};
use crate::decimal::{all_digits, decimal, lemma_digits_denote};
use crate::lexer::{
    char_at, lemma_lex_progress, lex, number_end, punctuation_kind, skip_blanks, token_stream,
    word_end, Lexed,
};
use crate::text::{is_digit, is_whitespace, is_word_part, is_word_start};
use crate::token::{keyword_kind, TokenType, TokenView};

verus! {

/// Whether `text` stands in `input` from `at` on.
#[verifier::opaque]
pub open spec fn text_at(input: Seq<char>, at: int, text: Seq<char>) -> bool {
    &&& 0 <= at
    &&& at + text.len() <= input.len()
    &&& input.subrange(at, at + text.len()) == text
}

/// Where a text of two parts stands, its parts stand one after the other.
pub proof fn lemma_text_at_split(input: Seq<char>, at: int, first: Seq<char>, second: Seq<char>)
    requires
        text_at(input, at, first + second),
    ensures
        text_at(input, at, first),
        text_at(input, at + first.len(), second),
        (first + second).len() == first.len() + second.len(),
{
    reveal(text_at);
    let whole = first + second;
    assert(input.subrange(at, at + first.len()) =~= first) by {
        assert forall|k: int| 0 <= k < first.len() implies input[at + k] == first[k] by {
            assert(input.subrange(at, at + whole.len())[k] == whole[k]);
        }
    }
    assert(input.subrange(at + first.len(), at + first.len() + second.len()) =~= second) by {
        assert forall|k: int| 0 <= k < second.len() implies input[at + first.len() + k]
            == second[k] by {
            assert(input.subrange(at, at + whole.len())[first.len() + k] == whole[first.len()
                + k]);
        }
    }
}

/// Where a text stands, each of its characters stands at its place.
pub proof fn lemma_text_at_index(input: Seq<char>, at: int, text: Seq<char>, k: int)
    requires
        text_at(input, at, text),
        0 <= k < text.len(),
    ensures
        0 <= at + k < input.len(),
        input[at + k] == text[k],
        char_at(input, at + k) == text[k],
{
    reveal(text_at);
    assert(input.subrange(at, at + text.len())[k] == input[at + k]);
}

/// A text stands where it stands.
pub proof fn lemma_text_at_bounds(input: Seq<char>, at: int, text: Seq<char>)
    requires
        text_at(input, at, text),
    ensures
        0 <= at,
        at + text.len() <= input.len(),
        input.subrange(at, at + text.len()) == text,
{
    reveal(text_at);
}

/// Whether reading tokens from `from` on gives `tokens` and ends at `to`.
pub open spec fn lexes_to(input: Seq<char>, from: int, to: int, tokens: Seq<TokenView>) -> bool
    decreases tokens.len(),
{
    if tokens.len() == 0 {
        from == to
    } else {
        &&& 0 <= from < input.len()
        &&& lex(input, from).token == tokens[0]
        &&& lexes_to(input, lex(input, from).next, to, tokens.drop_first())
    }
}

/// Reading one run of tokens and then another is reading the two runs.
pub proof fn lemma_lexes_join(
    input: Seq<char>,
    from: int,
    middle: int,
    to: int,
    first: Seq<TokenView>,
    second: Seq<TokenView>,
)
    requires
        lexes_to(input, from, middle, first),
        lexes_to(input, middle, to, second),
    ensures
        lexes_to(input, from, to, first + second),
    decreases first.len(),
{
    if first.len() == 0 {
        assert(first + second =~= second);
    } else {
        lemma_lexes_join(input, lex(input, from).next, middle, to, first.drop_first(), second);
        assert((first + second).drop_first() =~= first.drop_first() + second);
    }
}

/// Reading one token is reading a run of one.
pub proof fn lemma_lexes_one(input: Seq<char>, from: int, token: TokenView)
    requires
        0 <= from < input.len(),
        lex(input, from).token == token,
    ensures
        lexes_to(input, from, lex(input, from).next, seq![token]),
{
    assert(seq![token].drop_first() =~= Seq::<TokenView>::empty());
    assert(lexes_to(input, lex(input, from).next, lex(input, from).next, Seq::empty()));
}

/// A blank in front of a run of tokens is skipped.
pub proof fn lemma_lexes_after_blank(
    input: Seq<char>,
    from: int,
    to: int,
    tokens: Seq<TokenView>,
)
    requires
        0 <= from < input.len(),
        is_whitespace(input[from]),
        tokens.len() > 0,
        lexes_to(input, from + 1, to, tokens),
    ensures
        lexes_to(input, from, to, tokens),
{
    assert(skip_blanks(input, from) == skip_blanks(input, from + 1));
}

/// Tokens read up to the end of the input are all the tokens of the input.
pub proof fn lemma_lexes_stream(input: Seq<char>, from: int, tokens: Seq<TokenView>)
    requires
        0 <= from <= input.len(),
        lexes_to(input, from, input.len() as int, tokens),
    ensures
        token_stream(input, from) == tokens,
    decreases tokens.len(),
{
    if tokens.len() == 0 {
        assert(token_stream(input, from) =~= tokens);
    } else {
        lemma_lex_progress(input, from);
        lemma_lexes_stream(input, lex(input, from).next, tokens.drop_first());
        assert(token_stream(input, from) =~= tokens);
    }
}

/// A character that starts a word is no blank, no operator, no punctuation and not `NUL`.
pub proof fn lemma_word_start_is_no_sign(c: char)
    requires
        is_word_start(c),
    ensures
        !is_whitespace(c),
        c != '=',
        c != '!',
        c != '\0',
        punctuation_kind(c) is None,
        !is_digit(c),
        is_word_part(c),
{
}

/// A digit is no blank, no operator, no punctuation, not `NUL`, and starts no word.
pub proof fn lemma_digit_is_no_sign(c: char)
    requires
        is_digit(c),
    ensures
        !is_whitespace(c),
        c != '=',
        c != '!',
        c != '\0',
        punctuation_kind(c) is None,
        !is_word_start(c),
        is_word_part(c),
{
}

/// A run of word characters that is followed by another character, or by
/// the end of the input, ends there.
pub proof fn lemma_word_run(input: Seq<char>, from: int, to: int)
    requires
        0 <= from <= to <= input.len(),
        forall|k: int| from <= k < to ==> is_word_part(#[trigger] input[k]),
        !is_word_part(char_at(input, to)),
    ensures
        word_end(input, from) == to,
    decreases to - from,
{
    if from < to {
        lemma_word_run(input, from + 1, to);
    }
}

/// A run of digits that is followed by another character, or by the end of
/// the input, ends there.
pub proof fn lemma_number_run(input: Seq<char>, from: int, to: int)
    requires
        0 <= from <= to <= input.len(),
        forall|k: int| from <= k < to ==> is_digit(#[trigger] input[k]),
        !is_digit(char_at(input, to)),
    ensures
        number_end(input, from) == to,
    decreases to - from,
{
    if from < to {
        lemma_number_run(input, from + 1, to);
    }
}

/// A word that is followed by no word character is read as one token: a
/// keyword if it is one, a name otherwise.
pub proof fn lemma_lex_word(input: Seq<char>, at: int, word: Seq<char>)
    requires
        text_at(input, at, word),
        word.len() > 0,
        is_word_start(word[0]),
        forall|i: int| 0 <= i < word.len() ==> is_word_part(#[trigger] word[i]),
        !is_word_part(char_at(input, at + word.len())),
    ensures
        0 <= at < input.len(),
        lex(input, at) == (Lexed {
            token: TokenView { kind: keyword_kind(word), literal: word },
            next: at + word.len(),
        }),
{
    lemma_text_at_bounds(input, at, word);
    lemma_text_at_index(input, at, word, 0);
    lemma_word_start_is_no_sign(word[0]);
    assert forall|k: int| at <= k < at + word.len() implies is_word_part(
        #[trigger] input[k],
    ) by {
        lemma_text_at_index(input, at, word, k - at);
    }
    lemma_word_run(input, at, at + word.len());
    assert(skip_blanks(input, at) == at);
}

/// A run of digits that is followed by no digit is read as one integer token.
pub proof fn lemma_lex_number(input: Seq<char>, at: int, digits: Seq<char>)
    requires
        text_at(input, at, digits),
        digits.len() > 0,
        all_digits(digits),
        !is_digit(char_at(input, at + digits.len())),
    ensures
        0 <= at < input.len(),
        lex(input, at) == (Lexed {
            token: TokenView { kind: TokenType::Int, literal: digits },
            next: at + digits.len(),
        }),
{
    lemma_text_at_bounds(input, at, digits);
    lemma_text_at_index(input, at, digits, 0);
    lemma_digit_is_no_sign(digits[0]);
    assert forall|k: int| at <= k < at + digits.len() implies is_digit(#[trigger] input[k]) by {
        lemma_text_at_index(input, at, digits, k - at);
    }
    lemma_number_run(input, at, at + digits.len());
    assert(skip_blanks(input, at) == at);
}

/// One of the keywords `let`, `return`, `true` and `false`, followed by no
/// word character, is read as its token.
pub proof fn lemma_lex_keyword(input: Seq<char>, at: int, kind: TokenType, word: Seq<char>)
    requires
        text_at(input, at, word),
        !is_word_part(char_at(input, at + word.len())),
        (kind == TokenType::Let && word == "let"@) || (kind == TokenType::Return && word
            == "return"@) || (kind == TokenType::True && word == "true"@) || (kind
            == TokenType::False && word == "false"@),
    ensures
        0 <= at < input.len(),
        lex(input, at) == (Lexed { token: keyword_token(kind, word), next: at + word.len() }),
{
    reveal_strlit("fn");
    reveal_strlit("let");
    reveal_strlit("if");
    reveal_strlit("else");
    reveal_strlit("true");
    reveal_strlit("false");
    reveal_strlit("return");
    assert(word.len() >= 3);
    assert(is_word_start(word[0]));
    assert forall|i: int| 0 <= i < word.len() implies is_word_part(#[trigger] word[i]) by {
        if kind == TokenType::Let {
            assert(i == 0 || i == 1 || i == 2);
        } else if kind == TokenType::Return {
            assert(i == 0 || i == 1 || i == 2 || i == 3 || i == 4 || i == 5);
        } else if kind == TokenType::True {
            assert(i == 0 || i == 1 || i == 2 || i == 3);
        } else {
            assert(i == 0 || i == 1 || i == 2 || i == 3 || i == 4);
        }
    }
    assert(keyword_kind(word) == kind) by {
        assert(word[0] != 'e');
        assert(word.len() != 2);
    }
    lemma_lex_word(input, at, word);
}

/// `=` that is followed by no second `=` is read as the assignment token.
pub proof fn lemma_lex_assign(input: Seq<char>, at: int)
    requires
        text_at(input, at, "="@),
        char_at(input, at + 1) != '=',
    ensures
        0 <= at < input.len(),
        "="@.len() == 1,
        lex(input, at) == (Lexed { token: simple_token(TokenType::Assign), next: at + 1 }),
{
    reveal_strlit("=");
    lemma_text_at_bounds(input, at, "="@);
    lemma_text_at_index(input, at, "="@, 0);
    assert(skip_blanks(input, at) == at);
    assert(input.subrange(at, at + 1) =~= "="@);
}

/// A prefix operator that is followed by no `=` is read as its token.
pub proof fn lemma_lex_prefix_operator(input: Seq<char>, at: int, operator: PrefixOperatorType)
    requires
        text_at(input, at, operator.symbol()),
        char_at(input, at + 1) != '=',
    ensures
        0 <= at < input.len(),
        operator.symbol().len() == 1,
        lex(input, at) == (Lexed { token: prefix_token(operator), next: at + 1 }),
{
    reveal_strlit("!");
    reveal_strlit("-");
    lemma_text_at_bounds(input, at, operator.symbol());
    lemma_text_at_index(input, at, operator.symbol(), 0);
    assert(skip_blanks(input, at) == at);
    assert(input.subrange(at, at + 1) =~= operator.symbol());
}

/// An infix operator that is followed by no `=` is read as its token.
pub proof fn lemma_lex_infix_operator(input: Seq<char>, at: int, operator: InfixOperatorType)
    requires
        text_at(input, at, operator.symbol()),
        char_at(input, at + operator.symbol().len()) != '=',
    ensures
        0 <= at < input.len(),
        1 <= operator.symbol().len() <= 2,
        lex(input, at) == (Lexed {
            token: infix_token(operator),
            next: at + operator.symbol().len(),
        }),
{
    reveal_strlit("+");
    reveal_strlit("-");
    reveal_strlit("*");
    reveal_strlit("/");
    reveal_strlit("==");
    reveal_strlit("!=");
    reveal_strlit("<");
    reveal_strlit(">");
    let symbol = operator.symbol();
    lemma_text_at_bounds(input, at, symbol);
    lemma_text_at_index(input, at, symbol, 0);
    assert(skip_blanks(input, at) == at);
    if symbol.len() == 2 {
        lemma_text_at_index(input, at, symbol, 1);
        assert(input.subrange(at, at + 2) =~= symbol);
    } else {
        assert(input.subrange(at, at + 1) =~= symbol);
    }
}

/// A parenthesis, a comma or a semicolon at a position is read as its token.
pub proof fn lemma_lex_simple_char(input: Seq<char>, at: int, kind: TokenType)
    requires
        0 <= at < input.len(),
        (kind == TokenType::LParen && input[at] == '(') || (kind == TokenType::RParen
            && input[at] == ')') || (kind == TokenType::Comma && input[at] == ',') || (kind
            == TokenType::Semicolon && input[at] == ';'),
    ensures
        lex(input, at) == (Lexed { token: simple_token(kind), next: at + 1 }),
{
    reveal_strlit("(");
    reveal_strlit(")");
    reveal_strlit(",");
    reveal_strlit(";");
    assert(skip_blanks(input, at) == at);
    assert(input.subrange(at, at + 1) =~= kind.name());
}

/// A blank in front of a token is skipped.
pub proof fn lemma_lex_skips_blank(input: Seq<char>, from: int)
    requires
        0 <= from < input.len(),
        is_whitespace(input[from]),
    ensures
        lex(input, from) == lex(input, from + 1),
{
    assert(skip_blanks(input, from) == skip_blanks(input, from + 1));
}

/// A run of tokens, and then one token more.
pub proof fn lemma_lexes_then_token(
    input: Seq<char>,
    from: int,
    middle: int,
    tokens: Seq<TokenView>,
    token: TokenView,
    to: int,
)
    requires
        lexes_to(input, from, middle, tokens),
        0 <= middle < input.len(),
        lex(input, middle) == (Lexed { token, next: to }),
    ensures
        lexes_to(input, from, to, tokens + seq![token]),
{
    lemma_lexes_one(input, middle, token);
    lemma_lexes_join(input, from, middle, to, tokens, seq![token]);
}

/// Whether a character can stand right after the text of a plain
/// expression: after a name or a boolean, no word character; after an
/// integer, no digit; after a closing parenthesis, any.
pub open spec fn stops_after(expression: ExpressionView, c: char) -> bool {
    match expression {
        ExpressionView::Identifier { name } => !is_word_part(c),
        ExpressionView::Boolean { value } => !is_word_part(c),
        ExpressionView::Integer { value } => !is_digit(c),
        _ => true,
    }
}

/// The text of a plain expression is not empty, and its first character is
/// as the kind of its first token says.
pub proof fn lemma_render_first(expression: ExpressionView)
    requires
        plain_expression(expression),
    ensures
        render_expression(expression).len() >= 1,
        render_expression(expression)[0] != '=',
        !is_whitespace(render_expression(expression)[0]),
        match leading_kind(expression) {
            TokenType::Ident => is_word_start(render_expression(expression)[0]),
            TokenType::Int => is_digit(render_expression(expression)[0]),
            TokenType::True => render_expression(expression)[0] == 't',
            TokenType::False => render_expression(expression)[0] == 'f',
            TokenType::LParen => render_expression(expression)[0] == '(',
            _ => false,
        },
    decreases expression,
{
    reveal_strlit("(");
    reveal_strlit("true");
    reveal_strlit("false");
    match expression {
        ExpressionView::Identifier { name } => {
            lemma_word_start_is_no_sign(name[0]);
        },
        ExpressionView::Integer { value } => {
            lemma_digits_denote(value as nat);
            lemma_digit_is_no_sign(decimal(value as int)[0]);
        },
        ExpressionView::Call { function, arguments } => {
            lemma_render_first(*function);
        },
        _ => {},
    }
}

/// Where the text of a prefix expression stands, there stand an opening
/// parenthesis, the operator, the text of the operand and a closing parenthesis.
#[verifier::rlimit(50)]
proof fn lemma_prefix_text(
    input: Seq<char>,
    at: int,
    operator: PrefixOperatorType,
    right: ExpressionView,
)
    requires
        plain_expression(right),
        text_at(
            input,
            at,
            render_expression(ExpressionView::Prefix { operator, right: Box::new(right) }),
        ),
    ensures
        render_expression(ExpressionView::Prefix { operator, right: Box::new(right) }).len()
            == render_expression(right).len() + 3,
        0 <= at,
        at + render_expression(right).len() + 3 <= input.len(),
        input[at] == '(',
        text_at(input, at + 1, operator.symbol()),
        operator.symbol().len() == 1,
        char_at(input, at + 2) != '=',
        text_at(input, at + 2, render_expression(right)),
        input[at + 2 + render_expression(right).len()] == ')',
{
    reveal_strlit("(");
    reveal_strlit(")");
    reveal_strlit("!");
    reveal_strlit("-");
    let inner = render_expression(right);
    let whole = render_expression(ExpressionView::Prefix { operator, right: Box::new(right) });
    assert(whole == "("@ + operator.symbol() + inner + ")"@);
    lemma_text_at_bounds(input, at, whole);
    lemma_text_at_split(input, at, "("@ + operator.symbol() + inner, ")"@);
    lemma_text_at_split(input, at, "("@ + operator.symbol(), inner);
    lemma_text_at_split(input, at, "("@, operator.symbol());
    lemma_text_at_index(input, at, "("@, 0);
    lemma_text_at_index(input, at + 2 + inner.len(), ")"@, 0);
    lemma_render_first(right);
    lemma_text_at_index(input, at + 2, inner, 0);
}

/// Where the text of an infix expression stands, there stand an opening
/// parenthesis, the text of the left operand, the operator between two
/// spaces, the text of the right operand and a closing parenthesis.
#[verifier::rlimit(50)]
proof fn lemma_infix_text(
    input: Seq<char>,
    at: int,
    left: ExpressionView,
    operator: InfixOperatorType,
    right: ExpressionView,
)
    requires
        plain_expression(left),
        plain_expression(right),
        text_at(
            input,
            at,
            render_expression(
                ExpressionView::Infix { left: Box::new(left), operator, right: Box::new(right) },
            ),
        ),
    ensures
        render_expression(
            ExpressionView::Infix { left: Box::new(left), operator, right: Box::new(right) },
        ).len() == render_expression(left).len() + operator.symbol().len() + render_expression(
            right,
        ).len() + 4,
        0 <= at,
        at + render_expression(left).len() + operator.symbol().len() + render_expression(
            right,
        ).len() + 4 <= input.len(),
        input[at] == '(',
        text_at(input, at + 1, render_expression(left)),
        input[at + 1 + render_expression(left).len()] == ' ',
        text_at(input, at + 2 + render_expression(left).len(), operator.symbol()),
        input[at + 2 + render_expression(left).len() + operator.symbol().len()] == ' ',
        text_at(
            input,
            at + 3 + render_expression(left).len() + operator.symbol().len(),
            render_expression(right),
        ),
        input[at + 3 + render_expression(left).len() + operator.symbol().len()
            + render_expression(right).len()] == ')',
{
    reveal_strlit("(");
    reveal_strlit(")");
    reveal_strlit(" ");
    let first = render_expression(left);
    let second = render_expression(right);
    let symbol = operator.symbol();
    let whole = render_expression(
        ExpressionView::Infix { left: Box::new(left), operator, right: Box::new(right) },
    );
    assert(whole == "("@ + first + " "@ + symbol + " "@ + second + ")"@);
    lemma_text_at_bounds(input, at, whole);
    lemma_text_at_split(input, at, "("@ + first + " "@ + symbol + " "@ + second, ")"@);
    lemma_text_at_split(input, at, "("@ + first + " "@ + symbol + " "@, second);
    lemma_text_at_split(input, at, "("@ + first + " "@ + symbol, " "@);
    lemma_text_at_split(input, at, "("@ + first + " "@, symbol);
    lemma_text_at_split(input, at, "("@ + first, " "@);
    lemma_text_at_split(input, at, "("@, first);
    lemma_text_at_index(input, at, "("@, 0);
    lemma_text_at_index(input, at + 1 + first.len(), " "@, 0);
    lemma_text_at_index(input, at + 2 + first.len() + symbol.len(), " "@, 0);
    lemma_text_at_index(input, at + 3 + first.len() + symbol.len() + second.len(), ")"@, 0);
}

/// Where the text of a call stands, there stand the text of the expression
/// called, an opening parenthesis, the text of the arguments and a closing
/// parenthesis.
#[verifier::rlimit(50)]
proof fn lemma_call_text(
    input: Seq<char>,
    at: int,
    function: ExpressionView,
    arguments: Seq<ExpressionView>,
)
    requires
        text_at(
            input,
            at,
            render_expression(ExpressionView::Call { function: Box::new(function), arguments }),
        ),
    ensures
        render_expression(ExpressionView::Call { function: Box::new(function), arguments }).len()
            == render_expression(function).len() + join(
            render_expressions(arguments),
            ", "@,
        ).len() + 2,
        0 <= at,
        at + render_expression(function).len() + join(
            render_expressions(arguments),
            ", "@,
        ).len() + 2 <= input.len(),
        text_at(input, at, render_expression(function)),
        input[at + render_expression(function).len()] == '(',
        text_at(
            input,
            at + render_expression(function).len() + 1,
            join(render_expressions(arguments), ", "@),
        ),
        input[at + render_expression(function).len() + 1 + join(
            render_expressions(arguments),
            ", "@,
        ).len()] == ')',
{
    reveal_strlit("(");
    reveal_strlit(")");
    let first = render_expression(function);
    let list = join(render_expressions(arguments), ", "@);
    let whole = render_expression(
        ExpressionView::Call { function: Box::new(function), arguments },
    );
    assert(whole == first + "("@ + list + ")"@);
    lemma_text_at_bounds(input, at, whole);
    lemma_text_at_split(input, at, first + "("@ + list, ")"@);
    lemma_text_at_split(input, at, first + "("@, list);
    lemma_text_at_split(input, at, first, "("@);
    lemma_text_at_index(input, at + first.len(), "("@, 0);
    lemma_text_at_index(input, at + first.len() + 1 + list.len(), ")"@, 0);
}

/// The text of the first arguments of a list and one more is the text of
/// the first, then a comma and a space if there are any, then the text of
/// the one more.
#[verifier::rlimit(50)]
proof fn lemma_arguments_text(arguments: Seq<ExpressionView>, count: nat)
    requires
        1 <= count <= arguments.len(),
    ensures
        join(render_expressions(arguments.take(count as int)), ", "@) == if count == 1 {
            render_expression(arguments[0])
        } else {
            join(render_expressions(arguments.take(count - 1)), ", "@) + ", "@
                + render_expression(arguments[count - 1])
        },
        arguments_tokens(arguments.take(count as int)) == if count == 1 {
            expression_tokens(arguments[0])
        } else {
            arguments_tokens(arguments.take(count - 1)) + seq![simple_token(TokenType::Comma)]
                + expression_tokens(arguments[count - 1])
        },
{
    let parts = render_expressions(arguments.take(count as int));
    assert(parts.last() == render_expression(arguments[count - 1]));
    assert(parts.drop_last() =~= render_expressions(arguments.take(count - 1)));
    assert(arguments.take(count as int).drop_last() =~= arguments.take(count - 1));
    assert(arguments.take(count as int).last() == arguments[count - 1]);
}

/// Lexing the text of a plain expression gives its tokens, if no character
/// follows that runs into it.
#[verifier::rlimit(50)]
pub proof fn lemma_lex_expression(input: Seq<char>, at: int, expression: ExpressionView)
    requires
        plain_expression(expression),
        text_at(input, at, render_expression(expression)),
        stops_after(expression, char_at(input, at + render_expression(expression).len())),
    ensures
        expression_tokens(expression).len() >= 1,
        lexes_to(
            input,
            at,
            at + render_expression(expression).len(),
            expression_tokens(expression),
        ),
    decreases expression, 0nat,
{
    let lparen = simple_token(TokenType::LParen);
    let rparen = simple_token(TokenType::RParen);
    lemma_text_at_bounds(input, at, render_expression(expression));
    match expression {
        ExpressionView::Identifier { name } => {
            lemma_lex_word(input, at, name);
            lemma_lexes_one(input, at, expression_tokens(expression)[0]);
        },
        ExpressionView::Integer { value } => {
            lemma_digits_denote(value as nat);
            lemma_lex_number(input, at, decimal(value as int));
            lemma_lexes_one(input, at, expression_tokens(expression)[0]);
        },
        ExpressionView::Boolean { value } => {
            if value {
                lemma_lex_keyword(input, at, TokenType::True, "true"@);
            } else {
                lemma_lex_keyword(input, at, TokenType::False, "false"@);
            }
            lemma_lexes_one(input, at, expression_tokens(expression)[0]);
        },
        ExpressionView::Prefix { operator, right } => {
            let n = render_expression(*right).len() as int;
            lemma_prefix_text(input, at, operator, *right);
            lemma_lex_simple_char(input, at, TokenType::LParen);
            lemma_lex_prefix_operator(input, at + 1, operator);
            lemma_lex_expression(input, at + 2, *right);
            lemma_lex_simple_char(input, at + 2 + n, TokenType::RParen);
            lemma_lexes_one(input, at, lparen);
            lemma_lexes_then_token(
                input,
                at,
                at + 1,
                seq![lparen],
                prefix_token(operator),
                at + 2,
            );
            assert(seq![lparen] + seq![prefix_token(operator)] =~= seq![
                lparen,
                prefix_token(operator),
            ]);
            lemma_lexes_join(
                input,
                at,
                at + 2,
                at + 2 + n,
                seq![lparen, prefix_token(operator)],
                expression_tokens(*right),
            );
            lemma_lexes_then_token(
                input,
                at,
                at + 2 + n,
                seq![lparen, prefix_token(operator)] + expression_tokens(*right),
                rparen,
                at + 3 + n,
            );
        },
        ExpressionView::Infix { left, operator, right } => {
            let n = render_expression(*left).len() as int;
            let s = operator.symbol().len() as int;
            let m = render_expression(*right).len() as int;
            lemma_infix_text(input, at, *left, operator, *right);
            lemma_lex_simple_char(input, at, TokenType::LParen);
            lemma_lex_expression(input, at + 1, *left);
            lemma_lex_skips_blank(input, at + 1 + n);
            lemma_lex_infix_operator(input, at + 2 + n, operator);
            lemma_lex_expression(input, at + 3 + n + s, *right);
            lemma_lexes_after_blank(
                input,
                at + 2 + n + s,
                at + 3 + n + s + m,
                expression_tokens(*right),
            );
            lemma_lex_simple_char(input, at + 3 + n + s + m, TokenType::RParen);
            lemma_lexes_one(input, at, lparen);
            lemma_lexes_join(input, at, at + 1, at + 1 + n, seq![lparen], expression_tokens(*left));
            lemma_lexes_then_token(
                input,
                at,
                at + 1 + n,
                seq![lparen] + expression_tokens(*left),
                infix_token(operator),
                at + 2 + n + s,
            );
            lemma_lexes_join(
                input,
                at,
                at + 2 + n + s,
                at + 3 + n + s + m,
                seq![lparen] + expression_tokens(*left) + seq![infix_token(operator)],
                expression_tokens(*right),
            );
            lemma_lexes_then_token(
                input,
                at,
                at + 3 + n + s + m,
                seq![lparen] + expression_tokens(*left) + seq![infix_token(operator)]
                    + expression_tokens(*right),
                rparen,
                at + 4 + n + s + m,
            );
        },
        ExpressionView::Call { function, arguments } => {
            let n = render_expression(*function).len() as int;
            let m = join(render_expressions(arguments), ", "@).len() as int;
            lemma_call_text(input, at, *function, arguments);
            lemma_lex_expression(input, at, *function);
            lemma_lex_simple_char(input, at + n, TokenType::LParen);
            assert(arguments.take(arguments.len() as int) =~= arguments);
            lemma_lex_arguments(input, at + n + 1, arguments, arguments.len());
            lemma_lex_simple_char(input, at + n + 1 + m, TokenType::RParen);
            lemma_lexes_then_token(
                input,
                at,
                at + n,
                expression_tokens(*function),
                lparen,
                at + n + 1,
            );
            lemma_lexes_join(
                input,
                at,
                at + n + 1,
                at + n + 1 + m,
                expression_tokens(*function) + seq![lparen],
                arguments_tokens(arguments),
            );
            lemma_lexes_then_token(
                input,
                at,
                at + n + 1 + m,
                expression_tokens(*function) + seq![lparen] + arguments_tokens(arguments),
                rparen,
                at + n + 2 + m,
            );
        },
        ExpressionView::If { condition, consequence, alternative } => {},
        ExpressionView::Function { parameters, body } => {},
    }
}

/// Lexing the text of the first arguments of a list gives their tokens, if
/// no word character follows.
#[verifier::rlimit(50)]
pub proof fn lemma_lex_arguments(
    input: Seq<char>,
    at: int,
    arguments: Seq<ExpressionView>,
    count: nat,
)
    requires
        count <= arguments.len(),
        plain_expressions(arguments),
        text_at(input, at, join(render_expressions(arguments.take(count as int)), ", "@)),
        !is_word_part(
            char_at(
                input,
                at + join(render_expressions(arguments.take(count as int)), ", "@).len(),
            ),
        ),
    ensures
        lexes_to(
            input,
            at,
            at + join(render_expressions(arguments.take(count as int)), ", "@).len(),
            arguments_tokens(arguments.take(count as int)),
        ),
    decreases arguments, count,
{
    let text = join(render_expressions(arguments.take(count as int)), ", "@);
    lemma_text_at_bounds(input, at, text);
    if count == 0 {
        assert(arguments.take(0) =~= Seq::empty());
        assert(render_expressions(arguments.take(0)) =~= Seq::empty());
    } else {
        lemma_arguments_text(arguments, count);
        let last = arguments[count - 1];
        if count == 1 {
            lemma_lex_expression(input, at, last);
        } else {
            reveal_strlit(", ");
            let before = join(render_expressions(arguments.take(count - 1)), ", "@);
            let n = before.len() as int;
            let m = render_expression(last).len() as int;
            lemma_text_at_split(input, at, before + ", "@, render_expression(last));
            lemma_text_at_split(input, at, before, ", "@);
            lemma_text_at_index(input, at + n, ", "@, 0);
            lemma_text_at_index(input, at + n, ", "@, 1);
            lemma_lex_arguments(input, at, arguments, (count - 1) as nat);
            lemma_lex_simple_char(input, at + n, TokenType::Comma);
            lemma_lex_expression(input, at + n + 2, last);
            lemma_lexes_after_blank(
                input,
                at + n + 1,
                at + n + 2 + m,
                expression_tokens(last),
            );
            lemma_lexes_then_token(
                input,
                at,
                at + n,
                arguments_tokens(arguments.take(count - 1)),
                simple_token(TokenType::Comma),
                at + n + 1,
            );
            lemma_lexes_join(
                input,
                at,
                at + n + 1,
                at + n + 2 + m,
                arguments_tokens(arguments.take(count - 1)) + seq![
                    simple_token(TokenType::Comma),
                ],
                expression_tokens(last),
            );
        }
    }
}

/// Where the text of a `let` statement stands, there stand `let`, a space,
/// the name, ` = `, the text of the value and a semicolon.
#[verifier::rlimit(50)]
proof fn lemma_let_text(input: Seq<char>, at: int, name: Seq<char>, value: ExpressionView)
    requires
        text_at(input, at, render_statement(StatementView::Let { name, value })),
    ensures
        render_statement(StatementView::Let { name, value }).len() == name.len()
            + render_expression(value).len() + 8,
        0 <= at,
        at + name.len() + render_expression(value).len() + 8 <= input.len(),
        text_at(input, at, "let"@),
        "let"@.len() == 3,
        input[at + 3] == ' ',
        text_at(input, at + 4, name),
        input[at + 4 + name.len()] == ' ',
        text_at(input, at + 5 + name.len(), "="@),
        input[at + 6 + name.len()] == ' ',
        text_at(input, at + 7 + name.len(), render_expression(value)),
        input[at + 7 + name.len() + render_expression(value).len()] == ';',
{
    reveal_strlit("let ");
    reveal_strlit("let");
    reveal_strlit(" = ");
    reveal_strlit(" ");
    reveal_strlit("=");
    reveal_strlit(";");
    let inner = render_expression(value);
    let whole = render_statement(StatementView::Let { name, value });
    assert(whole == "let "@ + name + " = "@ + inner + ";"@);
    assert("let "@ =~= "let"@ + " "@);
    assert(" = "@ =~= " "@ + "="@ + " "@);
    lemma_text_at_bounds(input, at, whole);
    lemma_text_at_split(input, at, "let "@ + name + " = "@ + inner, ";"@);
    lemma_text_at_split(input, at, "let "@ + name + " = "@, inner);
    lemma_text_at_split(input, at, "let "@ + name, " = "@);
    lemma_text_at_split(input, at, "let "@, name);
    lemma_text_at_split(input, at, "let"@, " "@);
    lemma_text_at_split(input, at + 4 + name.len(), " "@ + "="@, " "@);
    lemma_text_at_split(input, at + 4 + name.len(), " "@, "="@);
    lemma_text_at_index(input, at + 3, " "@, 0);
    lemma_text_at_index(input, at + 4 + name.len(), " "@, 0);
    lemma_text_at_index(input, at + 6 + name.len(), " "@, 0);
    lemma_text_at_index(input, at + 7 + name.len() + inner.len(), ";"@, 0);
}

/// Where the text of a `return` statement stands, there stand `return`, a
/// space, the text of the value and a semicolon.
#[verifier::rlimit(50)]
proof fn lemma_return_text(input: Seq<char>, at: int, value: ExpressionView)
    requires
        text_at(input, at, render_statement(StatementView::Return { value })),
    ensures
        render_statement(StatementView::Return { value }).len() == render_expression(value).len()
            + 8,
        0 <= at,
        at + render_expression(value).len() + 8 <= input.len(),
        text_at(input, at, "return"@),
        "return"@.len() == 6,
        input[at + 6] == ' ',
        text_at(input, at + 7, render_expression(value)),
        input[at + 7 + render_expression(value).len()] == ';',
{
    reveal_strlit("return ");
    reveal_strlit("return");
    reveal_strlit(" ");
    reveal_strlit(";");
    let inner = render_expression(value);
    let whole = render_statement(StatementView::Return { value });
    assert(whole == "return "@ + inner + ";"@);
    assert("return "@ =~= "return"@ + " "@);
    lemma_text_at_bounds(input, at, whole);
    lemma_text_at_split(input, at, "return "@ + inner, ";"@);
    lemma_text_at_split(input, at, "return "@, inner);
    lemma_text_at_split(input, at, "return"@, " "@);
    lemma_text_at_index(input, at + 6, " "@, 0);
    lemma_text_at_index(input, at + 7 + inner.len(), ";"@, 0);
}

/// Lexing the text of a `let` statement gives its tokens.
#[verifier::rlimit(50)]
proof fn lemma_lex_let(input: Seq<char>, at: int, name: Seq<char>, value: ExpressionView)
    requires
        is_name(name),
        plain_expression(value),
        text_at(input, at, render_statement(StatementView::Let { name, value })),
    ensures
        lexes_to(
            input,
            at,
            at + render_statement(StatementView::Let { name, value }).len(),
            statement_tokens(StatementView::Let { name, value }),
        ),
{
    let k = name.len() as int;
    let v = render_expression(value).len() as int;
    let word = keyword_token(TokenType::Let, "let"@);
    let ident = TokenView { kind: TokenType::Ident, literal: name };
    let assign = simple_token(TokenType::Assign);
    lemma_let_text(input, at, name, value);
    lemma_lex_keyword(input, at, TokenType::Let, "let"@);
    lemma_lex_skips_blank(input, at + 3);
    lemma_lex_word(input, at + 4, name);
    lemma_lex_skips_blank(input, at + 4 + k);
    lemma_lex_assign(input, at + 5 + k);
    lemma_lex_expression(input, at + 7 + k, value);
    lemma_lexes_after_blank(input, at + 6 + k, at + 7 + k + v, expression_tokens(value));
    lemma_lex_simple_char(input, at + 7 + k + v, TokenType::Semicolon);
    lemma_lexes_one(input, at, word);
    lemma_lexes_then_token(input, at, at + 3, seq![word], ident, at + 4 + k);
    lemma_lexes_then_token(input, at, at + 4 + k, seq![word] + seq![ident], assign, at + 6 + k);
    assert(seq![word] + seq![ident] + seq![assign] =~= seq![word, ident, assign]);
    lemma_lexes_join(
        input,
        at,
        at + 6 + k,
        at + 7 + k + v,
        seq![word, ident, assign],
        expression_tokens(value),
    );
    lemma_lexes_then_token(
        input,
        at,
        at + 7 + k + v,
        seq![word, ident, assign] + expression_tokens(value),
        simple_token(TokenType::Semicolon),
        at + 8 + k + v,
    );
}

/// Lexing the text of a `return` statement gives its tokens.
#[verifier::rlimit(50)]
proof fn lemma_lex_return(input: Seq<char>, at: int, value: ExpressionView)
    requires
        plain_expression(value),
        text_at(input, at, render_statement(StatementView::Return { value })),
    ensures
        lexes_to(
            input,
            at,
            at + render_statement(StatementView::Return { value }).len(),
            statement_tokens(StatementView::Return { value }),
        ),
{
    let v = render_expression(value).len() as int;
    let word = keyword_token(TokenType::Return, "return"@);
    lemma_return_text(input, at, value);
    lemma_lex_keyword(input, at, TokenType::Return, "return"@);
    lemma_lex_expression(input, at + 7, value);
    lemma_lexes_after_blank(input, at + 6, at + 7 + v, expression_tokens(value));
    lemma_lex_simple_char(input, at + 7 + v, TokenType::Semicolon);
    lemma_lexes_one(input, at, word);
    lemma_lexes_join(input, at, at + 6, at + 7 + v, seq![word], expression_tokens(value));
    lemma_lexes_then_token(
        input,
        at,
        at + 7 + v,
        seq![word] + expression_tokens(value),
        simple_token(TokenType::Semicolon),
        at + 8 + v,
    );
}

/// Lexing the text of a plain statement gives its tokens, if no character
/// follows an expression statement that runs into it.
pub proof fn lemma_lex_statement(input: Seq<char>, at: int, statement: StatementView)
    requires
        plain_statement(statement),
        text_at(input, at, render_statement(statement)),
        statement matches StatementView::Expression { expression } ==> stops_after(
            expression,
            char_at(input, at + render_statement(statement).len()),
        ),
    ensures
        lexes_to(
            input,
            at,
            at + render_statement(statement).len(),
            statement_tokens(statement),
        ),
{
    match statement {
        StatementView::Let { name, value } => {
            lemma_lex_let(input, at, name, value);
        },
        StatementView::Return { value } => {
            lemma_lex_return(input, at, value);
        },
        StatementView::Expression { expression } => {
            lemma_lex_expression(input, at, expression);
        },
        StatementView::Block { statements } => {},
    }
}

/// The text of a plain statement is not empty, and its first character is
/// as the kind of its first token says.
pub proof fn lemma_statement_first(statement: StatementView)
    requires
        plain_statement(statement),
    ensures
        render_statement(statement).len() >= 1,
        match statement_leading_kind(statement) {
            TokenType::Let => render_statement(statement)[0] == 'l',
            TokenType::Return => render_statement(statement)[0] == 'r',
            TokenType::Ident => is_word_start(render_statement(statement)[0]),
            TokenType::Int => is_digit(render_statement(statement)[0]),
            TokenType::True => render_statement(statement)[0] == 't',
            TokenType::False => render_statement(statement)[0] == 'f',
            TokenType::LParen => render_statement(statement)[0] == '(',
            _ => false,
        },
{
    reveal_strlit("let ");
    reveal_strlit("return ");
    match statement {
        StatementView::Expression { expression } => {
            lemma_render_first(expression);
        },
        _ => {},
    }
}

/// The text of the first statements of a list and one more is the text of
/// the first and then that of the one more, and so with their tokens.
#[verifier::rlimit(50)]
pub proof fn lemma_block_text(statements: Seq<StatementView>, count: nat)
    requires
        1 <= count <= statements.len(),
    ensures
        render_block(statements.take(count as int)) == render_block(statements.take(count - 1))
            + render_statement(statements[count - 1]),
        program_tokens(statements.take(count as int)) == program_tokens(
            statements.take(count - 1),
        ) + statement_tokens(statements[count - 1]),
{
    let parts = render_statements(statements.take(count as int));
    assert(parts.last() == render_statement(statements[count - 1]));
    assert(parts.drop_last() =~= render_statements(statements.take(count - 1)));
    assert(statements.take(count as int).drop_last() =~= statements.take(count - 1));
    assert(statements.take(count as int).last() == statements[count - 1]);
    let before = join(parts.drop_last(), Seq::empty());
    if count == 1 {
        assert(parts.drop_last() =~= Seq::<Seq<char>>::empty());
        assert(before =~= Seq::<char>::empty());
        assert(parts[0] =~= before + parts.last());
    } else {
        assert(before + Seq::<char>::empty() + parts.last() =~= before + parts.last());
    }
}

/// The text of the first statements of a list stands at the front of the
/// text of the list.
pub proof fn lemma_block_prefix(statements: Seq<StatementView>, count: nat)
    requires
        count <= statements.len(),
    ensures
        text_at(render_block(statements), 0, render_block(statements.take(count as int))),
    decreases statements.len() - count,
{
    reveal(text_at);
    let whole = render_block(statements);
    if count == statements.len() {
        assert(statements.take(count as int) =~= statements);
        assert(whole.subrange(0, whole.len() as int) =~= whole);
    } else {
        lemma_block_prefix(statements, count + 1);
        lemma_block_text(statements, count + 1);
        let shorter = render_block(statements.take(count as int));
        assert(whole.subrange(0, shorter.len() as int) =~= shorter) by {
            let longer = render_block(statements.take(count + 1 as int));
            assert forall|k: int| 0 <= k < shorter.len() implies whole[k] == shorter[k] by {
                assert(whole.subrange(0, longer.len() as int)[k] == longer[k]);
            }
        }
    }
}

/// Lexing the text of a canonical program reads, up to the end of the text
/// of its first statements, the tokens of these.
#[verifier::rlimit(50)]
pub proof fn lemma_lex_program(statements: Seq<StatementView>, count: nat)
    requires
        canonical_program(statements),
        count <= statements.len(),
    ensures
        render_block(statements.take(count as int)).len() <= render_block(statements).len(),
        lexes_to(
            render_block(statements),
            0,
            render_block(statements.take(count as int)).len() as int,
            program_tokens(statements.take(count as int)),
        ),
    decreases count,
{
    let input = render_block(statements);
    lemma_block_prefix(statements, count);
    lemma_text_at_bounds(input, 0, render_block(statements.take(count as int)));
    if count == 0 {
        assert(statements.take(0) =~= Seq::empty());
        assert(render_statements(statements.take(0)) =~= Seq::empty());
    } else {
        let statement = statements[count - 1];
        let before = render_block(statements.take(count - 1));
        let text = render_statement(statement);
        lemma_lex_program(statements, (count - 1) as nat);
        lemma_block_text(statements, count);
        lemma_text_at_split(input, 0, before, text);
        let end = (before.len() + text.len()) as int;
        assert(stops_after_statement(statement, char_at(input, end))) by {
            if count < statements.len() {
                let next = statements[count as int];
                lemma_block_prefix(statements, count + 1);
                lemma_block_text(statements, count + 1);
                lemma_text_at_split(input, 0, before + text, render_statement(next));
                lemma_statement_first(next);
                lemma_text_at_index(input, end, render_statement(next), 0);
                assert(follows_cleanly(statement, next));
                let c = render_statement(next)[0];
                if is_word_start(c) {
                    lemma_word_start_is_no_sign(c);
                }
            } else {
                assert(statements.take(count as int) =~= statements);
            }
        }
        lemma_lex_statement(input, before.len() as int, statement);
        lemma_lexes_join(
            input,
            0,
            before.len() as int,
            end,
            program_tokens(statements.take(count - 1)),
            statement_tokens(statement),
        );
    }
}

/// Whether a character can stand right after the text of a plain statement.
pub open spec fn stops_after_statement(statement: StatementView, c: char) -> bool {
    match statement {
        StatementView::Expression { expression } => stops_after(expression, c),
        _ => true,
    }
}

/// Lexing the text of a canonical program gives the tokens of the program.
pub proof fn lemma_lex_canonical(statements: Seq<StatementView>)
    requires
        canonical_program(statements),
    ensures
        token_stream(render_block(statements), 0) == program_tokens(statements),
{
    lemma_lex_program(statements, statements.len());
    assert(statements.take(statements.len() as int) =~= statements);
    lemma_lexes_stream(render_block(statements), 0, program_tokens(statements));
}

} // verus!
