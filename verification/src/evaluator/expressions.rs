//! Evaluation of expressions.

use vstd::prelude::*;
use crate::ast::expressions::Expression;
use crate::ast::model::ExpressionView;
use crate::ast::operators::PrefixOperatorType;
use crate::object::boolean::Boolean;
use crate::object::integer::Integer;
use crate::object::Object;

verus! {

/// `!` on a value: the opposite of a boolean, `true` for null, `false` for anything else.
pub open spec fn bang_of(right: Object) -> Object {
    match right {
        Object::Boolean(boolean) => Object::Boolean(Boolean { value: !boolean.value }),
        Object::Null(_) => Object::Boolean(Boolean { value: true }),
        _ => Object::Boolean(Boolean { value: false }),
    }
}

/// The negative of a 64-bit integer. The least integer has no negative of
/// its own width and is its own result, as in two's complement.
pub open spec fn negated(value: i64) -> i64 {
    if value == i64::MIN {
        i64::MIN
    } else {
        (-value) as i64
    }
}

/// `-` on a value: the negative of an integer; nothing for any other value.
pub open spec fn negative_of(right: Object) -> Option<Object> {
    match right {
        Object::Integer(integer) => Some(Object::Integer(Integer { value: negated(integer.value) })),
        _ => None,
    }
}

/// A prefix operator applied to a value.
pub open spec fn prefix_value(operator: PrefixOperatorType, right: Object) -> Option<Object> {
    match operator {
        PrefixOperatorType::Bang => Some(bang_of(right)),
        PrefixOperatorType::Neg => negative_of(right),
    }
}

/// The value of an expression: literals have their own value, a prefix
/// expression applies its operator to the value of its operand, and any other
/// expression has none.
pub open spec fn value_of_expression(expression: ExpressionView) -> Option<Object>
    decreases expression,
{
    match expression {
        ExpressionView::Integer { value } => Some(Object::Integer(Integer { value })),
        ExpressionView::Boolean { value } => Some(Object::Boolean(Boolean { value })),
        ExpressionView::Prefix { operator, right } => match value_of_expression(*right) {
            Some(operand) => prefix_value(operator, operand),
            None => None,
        },
        _ => None,
    }
}

/// Evaluates an expression.
pub fn eval_expression(expression: Expression) -> (value: Option<Object>)
    ensures
        value == value_of_expression(expression@),
    decreases expression,
{
    match expression {
        Expression::Integer(node) => Some(Object::Integer(Integer::new(node.value))),
        Expression::Boolean(node) => Some(Object::Boolean(Boolean::new(node.value))),
        Expression::Prefix(node) => {
            let operator = node.operator.kind;
            match eval_expression(*node.right) {
                Some(right) => eval_prefix(operator, right),
                None => None,
            }
        },
        _ => None,
    }
}

/// Applies a prefix operator to a value.
fn eval_prefix(operator: PrefixOperatorType, right: Object) -> (value: Option<Object>)
    ensures
        value == prefix_value(operator, right),
{
    match operator {
        PrefixOperatorType::Bang => eval_op_bang(right),
        PrefixOperatorType::Neg => eval_op_neg(right),
    }
}

/// Applies `!`: `false` for every value but `false` and null, for which it is `true`.
fn eval_op_bang(right: Object) -> (value: Option<Object>)
    ensures
        value == Some(bang_of(right)),
{
    match right {
        Object::Boolean(boolean) => Some(Object::Boolean(Boolean::new(!boolean.value))),
        Object::Null(_) => Some(Object::Boolean(Boolean::new(true))),
        _ => Some(Object::Boolean(Boolean::new(false))),
    }
}

/// Applies `-`: the negative of an integer; nothing for any other value.
fn eval_op_neg(right: Object) -> (value: Option<Object>)
    ensures
        value == negative_of(right),
{
    match right {
        Object::Integer(integer) => {
            let value: i64 = if integer.value == i64::MIN {
                i64::MIN
            } else {
                -integer.value
            };
            Some(Object::Integer(Integer::new(value)))
        },
        _ => None,
    }
}

} // verus!
