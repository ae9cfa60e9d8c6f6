//! The syntax tree as a mathematical value: what a tree says, without the
//! tokens it was read from.

use vstd::prelude::*;
use crate::ast::operators::{InfixOperatorType, PrefixOperatorType};
use crate::decimal::decimal;

verus! {

/// An expression.
#[allow(inconsistent_fields)]
pub enum ExpressionView {
    Identifier { name: Seq<char> },
    Integer { value: i64 },
    Boolean { value: bool },
    Prefix { operator: PrefixOperatorType, right: Box<ExpressionView> },
    Infix { left: Box<ExpressionView>, operator: InfixOperatorType, right: Box<ExpressionView> },
    If {
        condition: Box<ExpressionView>,
        consequence: Seq<StatementView>,
        alternative: Option<Seq<StatementView>>,
    },
    Function { parameters: Seq<Seq<char>>, body: Seq<StatementView> },
    Call { function: Box<ExpressionView>, arguments: Seq<ExpressionView> },
}

/// A statement.
#[allow(inconsistent_fields)]
pub enum StatementView {
    Let { name: Seq<char>, value: ExpressionView },
    Return { value: ExpressionView },
    Expression { expression: ExpressionView },
    Block { statements: Seq<StatementView> },
}

/// The parts written one after the other, with the separator between each two.
pub open spec fn join(parts: Seq<Seq<char>>, separator: Seq<char>) -> Seq<char>
    decreases parts.len(),
{
    if parts.len() == 0 {
        Seq::empty()
    } else if parts.len() == 1 {
        parts[0]
    } else {
        join(parts.drop_last(), separator) + separator + parts.last()
    }
}

/// The canonical text of each expression of a list.
pub open spec fn render_expressions(expressions: Seq<ExpressionView>) -> Seq<Seq<char>>
    decreases expressions,
{
    Seq::new(
        expressions.len(),
        |i: int|
            if 0 <= i < expressions.len() {
                render_expression(expressions[i])
            } else {
                arbitrary()
            },
    )
}

/// The canonical text of each statement of a list.
pub open spec fn render_statements(statements: Seq<StatementView>) -> Seq<Seq<char>>
    decreases statements, 0int,
{
    Seq::new(
        statements.len(),
        |i: int|
            if 0 <= i < statements.len() {
                render_statement(statements[i])
            } else {
                arbitrary()
            },
    )
}

/// The canonical text of a block or of a program: the texts of its
/// statements, one after the other.
pub open spec fn render_block(statements: Seq<StatementView>) -> Seq<char>
    decreases statements, 1int,
{
    join(render_statements(statements), Seq::empty())
}

/// The canonical text of an expression. A prefix or infix expression always
/// stands in parentheses.
pub open spec fn render_expression(expression: ExpressionView) -> Seq<char>
    decreases expression,
{
    match expression {
        ExpressionView::Identifier { name } => name,
        ExpressionView::Integer { value } => decimal(value as int),
        ExpressionView::Boolean { value } => if value {
            "true"@
        } else {
            "false"@
        },
        ExpressionView::Prefix { operator, right } => "("@ + operator.symbol() + render_expression(
            *right,
        ) + ")"@,
        ExpressionView::Infix { left, operator, right } => "("@ + render_expression(*left) + " "@
            + operator.symbol() + " "@ + render_expression(*right) + ")"@,
        ExpressionView::If { condition, consequence, alternative } => "if "@ + render_expression(
            *condition,
        ) + " "@ + render_block(consequence) + match alternative {
            Some(block) => " else "@ + render_block(block),
            None => Seq::empty(),
        },
        ExpressionView::Function { parameters, body } => "fn"@ + "("@ + join(parameters, ", "@)
            + ")"@ + " "@ + render_block(body),
        ExpressionView::Call { function, arguments } => render_expression(*function) + "("@ + join(
            render_expressions(arguments),
            ", "@,
        ) + ")"@,
    }
}

/// The canonical text of a statement.
pub open spec fn render_statement(statement: StatementView) -> Seq<char>
    decreases statement,
{
    match statement {
        StatementView::Let { name, value } => "let "@ + name + " = "@ + render_expression(value)
            + ";"@,
        StatementView::Return { value } => "return "@ + render_expression(value) + ";"@,
        StatementView::Expression { expression } => render_expression(expression),
        StatementView::Block { statements } => render_block(statements),
    }
}

/// A prefix expression is written as an opening parenthesis, the operator,
/// the operand and a closing parenthesis; an infix expression as an opening
/// parenthesis, the left operand, the operator between two spaces, the right
/// operand and a closing parenthesis. How the operators bind can thus be read
/// off the text.
pub proof fn lemma_operators_stand_in_parentheses(expression: ExpressionView)
    ensures
        expression matches ExpressionView::Prefix { operator, right } ==> render_expression(
            expression,
        ) == seq!['('] + operator.symbol() + render_expression(*right) + seq![')'],
        expression matches ExpressionView::Infix { left, operator, right }
            ==> render_expression(expression) == seq!['('] + render_expression(*left) + seq![' ']
            + operator.symbol() + seq![' '] + render_expression(*right) + seq![')'],
        expression is Prefix || expression is Infix ==> {
            &&& render_expression(expression).len() >= 2
            &&& render_expression(expression).first() == '('
            &&& render_expression(expression).last() == ')'
        },
{
    reveal_strlit("(");
    reveal_strlit(")");
    reveal_strlit(" ");
    assert("("@ =~= seq!['(']);
    assert(")"@ =~= seq![')']);
    assert(" "@ =~= seq![' ']);
}

/// Joining one part more: the separator stands before every part but the first.
pub proof fn lemma_join_push(parts: Seq<Seq<char>>, separator: Seq<char>, part: Seq<char>)
    ensures
        join(parts.push(part), separator) == if parts.len() == 0 {
            part
        } else {
            join(parts, separator) + separator + part
        },
{
    assert(parts.push(part).drop_last() =~= parts);
}

} // verus!
