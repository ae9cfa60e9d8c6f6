//! What the read-eval-print loop computes for one line of input.

use vstd::prelude::*;
use vstd::string::StringExecFns;
use crate::ast::model::{render_block, StatementView};
use crate::ast::Program;
use crate::lexer::{token_stream, Lexer};
use crate::parser::errors::Error;
use crate::parser::grammar;
use crate::parser::{errors_view, program_outcome, Parser};

verus! {

/// The program that a source text denotes: its tokens, parsed from the first on.
pub open spec fn program_of(source: Seq<char>) -> Result<Seq<StatementView>, Seq<Seq<char>>> {
    grammar::parse_program(token_stream(source, 0), 0)
}

/// What is shown for a source text: the canonical text of its program, or
/// the messages of its errors.
pub open spec fn reply_to(source: Seq<char>) -> Result<Seq<char>, Seq<Seq<char>>> {
    match program_of(source) {
        Ok(statements) => Ok(render_block(statements)),
        Err(errors) => Err(errors),
    }
}

/// The texts of a list of strings.
pub open spec fn strings_view(strings: Seq<String>) -> Seq<Seq<char>> {
    Seq::new(strings.len(), |i: int| strings[i]@)
}

/// What `respond` returns, as a mathematical value.
pub open spec fn reply_view(reply: Result<String, Vec<String>>) -> Result<
    Seq<char>,
    Seq<Seq<char>>,
> {
    match reply {
        Ok(text) => Ok(text@),
        Err(messages) => Err(strings_view(messages@)),
    }
}

/// The greeting of the program for a user.
pub open spec fn greeting_for(username: Seq<char>) -> Seq<char> {
    "Hello, "@ + username + "! This is the Monkey programming language!"@
}

/// Lexes and parses a source text.
pub fn parse(source: &str) -> (result: Result<Program, Vec<Error>>)
    ensures
        program_outcome(result) == program_of(source@),
{
    let lexer = Lexer::new(source);
    let mut parser = Parser::new(lexer);
    parser.parse_program()
}

/// The answer of the loop to one line: the canonical text of the program
/// that the line denotes, or the messages of the errors in it.
pub fn respond(line: &str) -> (reply: Result<String, Vec<String>>)
    ensures
        reply_view(reply) == reply_to(line@),
{
    match parse(line) {
        Ok(program) => Ok(program.to_string()),
        Err(errors) => {
            let mut messages: Vec<String> = Vec::new();
            let mut i: usize = 0;
            while i < errors.len()
                invariant
                    i <= errors.len(),
                    strings_view(messages@) == errors_view(errors@).take(i as int),
                decreases errors.len() - i,
            {
                let ghost before = strings_view(messages@);
                let message = errors[i].to_string();
                messages.push(message);
                assert(strings_view(messages@) =~= before.push(message@));
                i += 1;
                assert(before.push(message@) =~= errors_view(errors@).take(i as int));
            }
            assert(errors_view(errors@).take(i as int) =~= errors_view(errors@));
            Err(messages)
        },
    }
}

/// The greeting of the program for a user.
pub fn greeting(username: &str) -> (text: String)
    ensures
        text@ == greeting_for(username@),
{
    let mut text = String::from_str("Hello, ");
    text.append(username);
    text.append("! This is the Monkey programming language!");
    text
}

} // verus!
