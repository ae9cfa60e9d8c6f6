//! Evaluation of statements.

use vstd::prelude::*;
use crate::ast::model::StatementView;
use crate::ast::statements::Statement;
use crate::evaluator::expressions::{eval_expression, value_of_expression};
use crate::object::Object;

verus! {

/// The value of a statement: that of its expression, for an expression
/// statement; none for any other statement.
pub open spec fn value_of_statement(statement: StatementView) -> Option<Object> {
    match statement {
        StatementView::Expression { expression } => value_of_expression(expression),
        _ => None,
    }
}

/// Evaluates one statement.
pub fn eval_statement(statement: Statement) -> (value: Option<Object>)
    ensures
        value == value_of_statement(statement@),
{
    match statement {
        Statement::Expression(node) => eval_expression(node.expression),
        _ => None,
    }
}

} // verus!
