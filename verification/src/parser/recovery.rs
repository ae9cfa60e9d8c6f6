//! Error recovery: one error for each statement that fails, and parsing goes
//! on at the next place where a statement can start.

use vstd::prelude::*;
use crate::ast::model::StatementView;
use crate::parser::grammar::{
    ends_statement, gather, kind_of, parse_statement, remaining, restarts_parsing, synchronize,
};
use crate::token::{TokenType, TokenView};

verus! {

/// A token kind that is given up after an error: one that neither ends a
/// statement nor restarts parsing, and is not the end of the input.
pub open spec fn given_up(kind: TokenType) -> bool {
    kind != TokenType::Eof && !ends_statement(kind) && !restarts_parsing(kind)
}

/// How many tokens the parser moves for the statement at an index: onto
/// the token after the statement, or, if the statement fails, onto the token
/// after those given up.
pub open spec fn statement_step(tokens: Seq<TokenView>, index: nat) -> nat {
    let statement = parse_statement(tokens, index);
    match statement.result {
        Ok(parsed) => statement.consumed + 1,
        Err(message) => statement.consumed + synchronize(tokens, index + statement.consumed) + 1,
    }
}

/// How many statements fail from an index on.
pub open spec fn failures(tokens: Seq<TokenView>, index: nat) -> nat
    decreases remaining(tokens, index),
{
    if kind_of(tokens, index) == TokenType::Eof {
        0
    } else {
        let failed: nat = if parse_statement(tokens, index).result is Err {
            1
        } else {
            0
        };
        failed + failures(tokens, index + statement_step(tokens, index))
    }
}

/// How many statements are parsed from an index on.
pub open spec fn successes(tokens: Seq<TokenView>, index: nat) -> nat
    decreases remaining(tokens, index),
{
    if kind_of(tokens, index) == TokenType::Eof {
        0
    } else {
        let parsed: nat = if parse_statement(tokens, index).result is Ok {
            1
        } else {
            0
        };
        parsed + successes(tokens, index + statement_step(tokens, index))
    }
}

/// Errors do not cascade: each statement that fails leaves exactly one
/// error, and each statement that is parsed leaves exactly one statement.
pub proof fn lemma_one_error_for_each_failure(
    tokens: Seq<TokenView>,
    index: nat,
    statements: Seq<StatementView>,
    errors: Seq<Seq<char>>,
)
    ensures
        gather(tokens, index, statements, errors).errors.len() == errors.len() + failures(
            tokens,
            index,
        ),
        gather(tokens, index, statements, errors).statements.len() == statements.len()
            + successes(tokens, index),
    decreases remaining(tokens, index),
{
    if kind_of(tokens, index) != TokenType::Eof {
        let statement = parse_statement(tokens, index);
        let step = statement_step(tokens, index);
        match statement.result {
            Ok(parsed) => {
                lemma_one_error_for_each_failure(
                    tokens,
                    index + step,
                    statements.push(parsed),
                    errors,
                );
            },
            Err(message) => {
                lemma_one_error_for_each_failure(
                    tokens,
                    index + step,
                    statements,
                    errors.push(message),
                );
            },
        }
    }
}

/// What is given up after an error ends at the first boundary: every token
/// given up but the last is neither a boundary nor the end of the input; and
/// either the last token given up ends a statement, or the token after
/// those given up restarts parsing or is the end of the input.
pub proof fn lemma_synchronize_stops_at_first_boundary(tokens: Seq<TokenView>, index: nat)
    ensures
        forall|j: nat|
            index < j < index + synchronize(tokens, index) ==> given_up(
                #[trigger] kind_of(tokens, j),
            ),
        ({
            let skipped = synchronize(tokens, index);
            let last = kind_of(tokens, index + skipped);
            let next = kind_of(tokens, index + skipped + 1);
            ||| skipped >= 1 && ends_statement(last)
            ||| (skipped == 0 || given_up(last)) && (next == TokenType::Eof || restarts_parsing(
                next,
            ))
        }),
    decreases remaining(tokens, index),
{
    let peek = kind_of(tokens, index + 1);
    if given_up(peek) {
        lemma_synchronize_stops_at_first_boundary(tokens, index + 1);
        assert forall|j: nat| index < j < index + synchronize(tokens, index) implies given_up(
            #[trigger] kind_of(tokens, j),
        ) by {
            if j > index + 1 {
                assert(index + 1 < j < index + 1 + synchronize(tokens, index + 1));
            }
        }
    }
}

/// After an error, the tokens up to the next one that ends a statement are
/// given up, that one with them, if no keyword that restarts parsing stands
/// among them.
pub proof fn lemma_synchronize_reaches_terminator(
    tokens: Seq<TokenView>,
    index: nat,
    terminator: nat,
)
    requires
        index < terminator,
        forall|j: nat| index < j < terminator ==> given_up(#[trigger] kind_of(tokens, j)),
        ends_statement(kind_of(tokens, terminator)),
    ensures
        index + synchronize(tokens, index) == terminator,
    decreases terminator - index,
{
    if index + 1 < terminator {
        assert(given_up(kind_of(tokens, index + 1)));
        lemma_synchronize_reaches_terminator(tokens, index + 1, terminator);
    }
}

/// Whether the tokens of a given length from `start` on are a statement
/// that is parsed, and ends on the last of them.
pub open spec fn sound_segment(tokens: Seq<TokenView>, start: nat, length: nat) -> bool {
    &&& parse_statement(tokens, start).result is Ok
    &&& parse_statement(tokens, start).consumed + 1 == length
}

/// Whether the tokens of a given length from `start` on are a statement
/// with an error of its own: parsing it fails in front of the last token, the
/// last token ends a statement, and between the place of the failure and the
/// last token stands neither a token that ends a statement nor a keyword
/// that restarts parsing.
pub open spec fn broken_segment(tokens: Seq<TokenView>, start: nat, length: nat) -> bool {
    let failed = start + parse_statement(tokens, start).consumed;
    &&& parse_statement(tokens, start).result is Err
    &&& failed + 1 < start + length
    &&& forall|j: nat| failed < j < start + length - 1 ==> given_up(#[trigger] kind_of(tokens, j))
    &&& ends_statement(kind_of(tokens, (start + length - 1) as nat))
}

/// Whether the tokens from `start` on are statements of the given lengths,
/// one after the other and up to the end of the input, each of them either
/// sound or broken by an error of its own.
pub open spec fn independent_statements(
    tokens: Seq<TokenView>,
    start: nat,
    lengths: Seq<nat>,
) -> bool
    decreases lengths.len(),
{
    if lengths.len() == 0 {
        kind_of(tokens, start) == TokenType::Eof
    } else {
        &&& kind_of(tokens, start) != TokenType::Eof
        &&& sound_segment(tokens, start, lengths[0]) || broken_segment(tokens, start, lengths[0])
        &&& independent_statements(tokens, start + lengths[0], lengths.drop_first())
    }
}

/// How many of the statements of the given lengths from `start` on are broken.
pub open spec fn broken_statements(tokens: Seq<TokenView>, start: nat, lengths: Seq<nat>) -> nat
    decreases lengths.len(),
{
    if lengths.len() == 0 {
        0
    } else {
        let broken: nat = if parse_statement(tokens, start).result is Err {
            1
        } else {
            0
        };
        broken + broken_statements(tokens, start + lengths[0], lengths.drop_first())
    }
}

/// The bound on error recovery: in a program of statements each of which is
/// either sound or broken by an error of its own, the errors are as many as
/// the broken statements, and the statements parsed as many as the sound ones.
#[verifier::rlimit(50)]
pub proof fn lemma_error_recovery_bound(
    tokens: Seq<TokenView>,
    start: nat,
    lengths: Seq<nat>,
    statements: Seq<StatementView>,
    errors: Seq<Seq<char>>,
)
    requires
        independent_statements(tokens, start, lengths),
    ensures
        broken_statements(tokens, start, lengths) <= lengths.len(),
        gather(tokens, start, statements, errors).errors.len() == errors.len()
            + broken_statements(tokens, start, lengths),
        gather(tokens, start, statements, errors).statements.len() == statements.len()
            + lengths.len() - broken_statements(tokens, start, lengths),
    decreases lengths.len(),
{
    if lengths.len() > 0 {
        let statement = parse_statement(tokens, start);
        let length = lengths[0];
        match statement.result {
            Ok(parsed) => {
                lemma_error_recovery_bound(
                    tokens,
                    start + length,
                    lengths.drop_first(),
                    statements.push(parsed),
                    errors,
                );
            },
            Err(message) => {
                let failed = start + statement.consumed;
                lemma_synchronize_reaches_terminator(
                    tokens,
                    failed,
                    (start + length - 1) as nat,
                );
                assert(statement.consumed + synchronize(tokens, failed) + 1 == length);
                lemma_error_recovery_bound(
                    tokens,
                    start + length,
                    lengths.drop_first(),
                    statements,
                    errors.push(message),
                );
            },
        }
    }
}

} // verus!
