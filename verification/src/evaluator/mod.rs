//! The evaluator: a walk over the syntax tree that yields runtime values.

pub mod expressions;
pub mod statements;

use vstd::prelude::*;
use crate::ast::model::StatementView;
use crate::ast::statements::{statements_view, Statement};
use crate::ast::Nodes;
use crate::evaluator::expressions::{eval_expression, value_of_expression};
use crate::evaluator::statements::{eval_statement, value_of_statement};
use crate::object::Object;

verus! {

/// The value of a list of statements: that of the last one; none for an empty list.
pub open spec fn value_of_statements(statements: Seq<StatementView>) -> Option<Object> {
    if statements.len() == 0 {
        None
    } else {
        value_of_statement(statements.last())
    }
}

/// The value of a node, if it has one.
pub open spec fn value_of(node: Nodes) -> Option<Object> {
    match node {
        Nodes::Program(program) => value_of_statements(program@),
        Nodes::Statement(statement) => value_of_statement(statement@),
        Nodes::Expression(expression) => value_of_expression(expression@),
    }
}

/// Evaluates a node. A program has the value of its last statement; an empty
/// program, or a construct that the evaluator does not support, has none.
pub fn eval(node: Nodes) -> (value: Option<Object>)
    ensures
        value == value_of(node),
{
    match node {
        Nodes::Program(program) => eval_statements(program.statements),
        Nodes::Statement(statement) => eval_statement(statement),
        Nodes::Expression(expression) => eval_expression(expression),
    }
}

/// Evaluates the statements in order; the value is that of the last one.
fn eval_statements(statements: Vec<Statement>) -> (value: Option<Object>)
    ensures
        value == value_of_statements(statements_view(statements@)),
{
    let ghost all = statements@;
    let mut result: Option<Object> = None;
    for statement in it: statements
        invariant
            it.seq() == all,
            result == value_of_statements(statements_view(all.take(it.index() as int))),
    {
        assert(all.take(it.index() + 1).last() == statement);
        result = eval_statement(statement);
    }
    assert(all.take(all.len() as int) =~= all);
    result
}

} // verus!
