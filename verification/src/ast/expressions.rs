//! Expressions.

use vstd::prelude::*;
use vstd::string::StringExecFns;
use crate::ast::model::{
    join, lemma_join_push, render_expression, render_expressions, ExpressionView,
};
use crate::ast::operators::{InfixOperator, PrefixOperator};
use crate::ast::statements::{block_view, clone_block, BlockStatement};
use crate::decimal::i64_to_string;
use crate::ast::Node;
use crate::token::Token;

verus! {

/// An expression: a piece of code that has a value.
#[derive(Debug, PartialEq, Eq)]
pub enum Expression {
    Identifier(Identifier),
    Integer(IntegerLiteral),
    Boolean(BooleanLiteral),
    Function(FunctionLiteral),
    Prefix(PrefixExpression),
    Infix(InfixExpression),
    If(IfExpression),
    Call(CallExpression),
}

/// A name.
#[derive(Debug, PartialEq, Eq)]
pub struct Identifier {
    pub token: Token,
    pub value: String,
}

/// An integer literal.
#[derive(Debug, PartialEq, Eq)]
pub struct IntegerLiteral {
    pub token: Token,
    pub value: i64,
}

/// `true` or `false`.
#[derive(Debug, PartialEq, Eq)]
pub struct BooleanLiteral {
    pub token: Token,
    pub value: bool,
}

/// A function literal such as `fn(x, y) { x + y; }`.
#[derive(Debug, PartialEq, Eq)]
pub struct FunctionLiteral {
    pub token: Token,
    pub parameters: Vec<Identifier>,
    pub body: BlockStatement,
}

/// An operator in front of an operand, such as `-5`.
#[derive(Debug, PartialEq, Eq)]
pub struct PrefixExpression {
    pub token: Token,
    pub operator: PrefixOperator,
    pub right: Box<Expression>,
}

/// An operator between two operands, such as `5 + 5`.
#[derive(Debug, PartialEq, Eq)]
pub struct InfixExpression {
    pub token: Token,
    pub left: Box<Expression>,
    pub operator: InfixOperator,
    pub right: Box<Expression>,
}

/// A conditional such as `if (x < y) { x } else { y }`.
#[derive(Debug, PartialEq, Eq)]
pub struct IfExpression {
    pub token: Token,
    pub condition: Box<Expression>,
    pub consequence: BlockStatement,
    pub alternative: Option<BlockStatement>,
}

/// A call such as `add(1, 2 * 3)`.
#[derive(Debug, PartialEq, Eq)]
pub struct CallExpression {
    pub token: Token,
    pub function: Box<Expression>,
    pub arguments: Vec<Expression>,
}

/// The names of a list of identifiers.
pub open spec fn identifiers_view(identifiers: Seq<Identifier>) -> Seq<Seq<char>> {
    Seq::new(identifiers.len(), |i: int| identifiers[i].value@)
}

/// What a list of expressions says, one by one.
pub open spec fn expressions_view(expressions: Seq<Expression>) -> Seq<ExpressionView>
    decreases expressions,
{
    Seq::new(
        expressions.len(),
        |i: int|
            if 0 <= i < expressions.len() {
                expression_view(expressions[i])
            } else {
                arbitrary()
            },
    )
}

/// What an expression says.
pub open spec fn expression_view(expression: Expression) -> ExpressionView
    decreases expression,
{
    match expression {
        Expression::Identifier(node) => ExpressionView::Identifier { name: node.value@ },
        Expression::Integer(node) => ExpressionView::Integer { value: node.value },
        Expression::Boolean(node) => ExpressionView::Boolean { value: node.value },
        Expression::Function(node) => ExpressionView::Function {
            parameters: identifiers_view(node.parameters@),
            body: block_view(node.body),
        },
        Expression::Prefix(node) => ExpressionView::Prefix {
            operator: node.operator.kind,
            right: Box::new(expression_view(*node.right)),
        },
        Expression::Infix(node) => ExpressionView::Infix {
            left: Box::new(expression_view(*node.left)),
            operator: node.operator.kind,
            right: Box::new(expression_view(*node.right)),
        },
        Expression::If(node) => ExpressionView::If {
            condition: Box::new(expression_view(*node.condition)),
            consequence: block_view(node.consequence),
            alternative: match node.alternative {
                Some(block) => Some(block_view(block)),
                None => None,
            },
        },
        Expression::Call(node) => ExpressionView::Call {
            function: Box::new(expression_view(*node.function)),
            arguments: expressions_view(node.arguments@),
        },
    }
}

impl View for Expression {
    type V = ExpressionView;

    open spec fn view(&self) -> ExpressionView {
        expression_view(*self)
    }
}

impl View for Identifier {
    type V = ExpressionView;

    open spec fn view(&self) -> ExpressionView {
        ExpressionView::Identifier { name: self.value@ }
    }
}

impl View for IntegerLiteral {
    type V = ExpressionView;

    open spec fn view(&self) -> ExpressionView {
        ExpressionView::Integer { value: self.value }
    }
}

impl View for BooleanLiteral {
    type V = ExpressionView;

    open spec fn view(&self) -> ExpressionView {
        ExpressionView::Boolean { value: self.value }
    }
}

impl View for FunctionLiteral {
    type V = ExpressionView;

    open spec fn view(&self) -> ExpressionView {
        expression_view(Expression::Function(*self))
    }
}

impl View for PrefixExpression {
    type V = ExpressionView;

    open spec fn view(&self) -> ExpressionView {
        expression_view(Expression::Prefix(*self))
    }
}

impl View for InfixExpression {
    type V = ExpressionView;

    open spec fn view(&self) -> ExpressionView {
        expression_view(Expression::Infix(*self))
    }
}

impl View for IfExpression {
    type V = ExpressionView;

    open spec fn view(&self) -> ExpressionView {
        expression_view(Expression::If(*self))
    }
}

impl View for CallExpression {
    type V = ExpressionView;

    open spec fn view(&self) -> ExpressionView {
        expression_view(Expression::Call(*self))
    }
}

impl Identifier {
    /// The canonical text: the name.
    pub fn to_string(&self) -> (text: String)
        ensures
            text@ == render_expression(self@),
    {
        self.value.clone()
    }
}

impl IntegerLiteral {
    /// The canonical text: the value in decimal notation.
    pub fn to_string(&self) -> (text: String)
        ensures
            text@ == render_expression(self@),
    {
        i64_to_string(self.value)
    }
}

impl BooleanLiteral {
    /// The canonical text: `true` or `false`.
    pub fn to_string(&self) -> (text: String)
        ensures
            text@ == render_expression(self@),
    {
        if self.value {
            String::from_str("true")
        } else {
            String::from_str("false")
        }
    }
}

/// The names of the identifiers, with `, ` between each two.
pub fn identifiers_to_string(identifiers: &Vec<Identifier>) -> (text: String)
    ensures
        text@ == join(identifiers_view(identifiers@), ", "@),
{
    let ghost parts = identifiers_view(identifiers@);
    let mut text = String::new();
    let mut i: usize = 0;
    while i < identifiers.len()
        invariant
            i <= identifiers.len(),
            parts == identifiers_view(identifiers@),
            text@ == join(parts.take(i as int), ", "@),
        decreases identifiers.len() - i,
    {
        if i > 0 {
            text.append(", ");
        }
        text.append(identifiers[i].value.as_str());
        proof {
            lemma_join_push(parts.take(i as int), ", "@, parts[i as int]);
            assert(parts.take(i as int).push(parts[i as int]) =~= parts.take(i + 1));
            assert(text@ =~= join(parts.take(i + 1), ", "@));
        }
        i += 1;
    }
    assert(parts.take(i as int) =~= parts);
    text
}

/// The canonical texts of the expressions, with `, ` between each two.
pub fn expressions_to_string(expressions: &Vec<Expression>) -> (text: String)
    ensures
        text@ == join(render_expressions(expressions_view(expressions@)), ", "@),
    decreases expressions,
{
    let ghost parts = render_expressions(expressions_view(expressions@));
    let mut text = String::new();
    let mut i: usize = 0;
    while i < expressions.len()
        invariant
            i <= expressions.len(),
            parts == render_expressions(expressions_view(expressions@)),
            text@ == join(parts.take(i as int), ", "@),
        decreases expressions.len() - i,
    {
        if i > 0 {
            text.append(", ");
        }
        let part = expressions[i].to_string();
        text.append(part.as_str());
        proof {
            lemma_join_push(parts.take(i as int), ", "@, parts[i as int]);
            assert(parts.take(i as int).push(parts[i as int]) =~= parts.take(i + 1));
            assert(text@ =~= join(parts.take(i + 1), ", "@));
        }
        i += 1;
    }
    assert(parts.take(i as int) =~= parts);
    text
}

impl FunctionLiteral {
    /// The canonical text: `fn(<parameters>) <body>`.
    pub fn to_string(&self) -> (text: String)
        ensures
            text@ == render_expression(self@),
        decreases self,
    {
        let mut text = String::from_str("fn");
        text.append("(");
        let parameters = identifiers_to_string(&self.parameters);
        text.append(parameters.as_str());
        text.append(")");
        text.append(" ");
        let body = self.body.to_string();
        text.append(body.as_str());
        text
    }
}

impl PrefixExpression {
    /// The canonical text: `(<operator><right>)`.
    pub fn to_string(&self) -> (text: String)
        ensures
            text@ == render_expression(self@),
        decreases self,
    {
        let mut text = String::from_str("(");
        text.append(self.operator.kind.as_str());
        let right = self.right.to_string();
        text.append(right.as_str());
        text.append(")");
        text
    }
}

impl InfixExpression {
    /// The canonical text: `(<left> <operator> <right>)`.
    pub fn to_string(&self) -> (text: String)
        ensures
            text@ == render_expression(self@),
        decreases self,
    {
        let mut text = String::from_str("(");
        let left = self.left.to_string();
        text.append(left.as_str());
        text.append(" ");
        text.append(self.operator.kind.as_str());
        text.append(" ");
        let right = self.right.to_string();
        text.append(right.as_str());
        text.append(")");
        text
    }
}

impl IfExpression {
    /// The canonical text: `if <condition> <consequence>`, then ` else <alternative>` if there is one.
    pub fn to_string(&self) -> (text: String)
        ensures
            text@ == render_expression(self@),
        decreases self,
    {
        let mut text = String::from_str("if ");
        let condition = self.condition.to_string();
        text.append(condition.as_str());
        text.append(" ");
        let consequence = self.consequence.to_string();
        text.append(consequence.as_str());
        match &self.alternative {
            Some(block) => {
                let ghost before = text@;
                text.append(" else ");
                let alternative = block.to_string();
                text.append(alternative.as_str());
                assert(text@ =~= before + (" else "@ + alternative@));
            },
            None => {
                assert(text@ =~= text@ + Seq::<char>::empty());
            },
        }
        text
    }
}

impl CallExpression {
    /// The canonical text: `<function>(<arguments>)`.
    pub fn to_string(&self) -> (text: String)
        ensures
            text@ == render_expression(self@),
        decreases self,
    {
        let mut text = self.function.to_string();
        text.append("(");
        let arguments = expressions_to_string(&self.arguments);
        text.append(arguments.as_str());
        text.append(")");
        text
    }
}

impl Expression {
    /// The canonical text of the expression.
    pub fn to_string(&self) -> (text: String)
        ensures
            text@ == render_expression(self@),
        decreases self,
    {
        match self {
            Expression::Identifier(node) => node.to_string(),
            Expression::Integer(node) => node.to_string(),
            Expression::Boolean(node) => node.to_string(),
            Expression::Function(node) => node.to_string(),
            Expression::Prefix(node) => node.to_string(),
            Expression::Infix(node) => node.to_string(),
            Expression::If(node) => node.to_string(),
            Expression::Call(node) => node.to_string(),
        }
    }
}

impl Node for Identifier {
    open spec fn token_lexeme(&self) -> Seq<char> {
        self.token.literal@
    }

    fn token_literal(&self) -> (literal: String)
        ensures
            literal@ == self.token.literal@,
    {
        self.token.literal.clone()
    }
}

impl Node for IntegerLiteral {
    open spec fn token_lexeme(&self) -> Seq<char> {
        self.token.literal@
    }

    fn token_literal(&self) -> (literal: String)
        ensures
            literal@ == self.token.literal@,
    {
        self.token.literal.clone()
    }
}

impl Node for BooleanLiteral {
    open spec fn token_lexeme(&self) -> Seq<char> {
        self.token.literal@
    }

    fn token_literal(&self) -> (literal: String)
        ensures
            literal@ == self.token.literal@,
    {
        self.token.literal.clone()
    }
}

impl Node for FunctionLiteral {
    open spec fn token_lexeme(&self) -> Seq<char> {
        self.token.literal@
    }

    fn token_literal(&self) -> (literal: String)
        ensures
            literal@ == self.token.literal@,
    {
        self.token.literal.clone()
    }
}

impl Node for PrefixExpression {
    open spec fn token_lexeme(&self) -> Seq<char> {
        self.token.literal@
    }

    fn token_literal(&self) -> (literal: String)
        ensures
            literal@ == self.token.literal@,
    {
        self.token.literal.clone()
    }
}

impl Node for InfixExpression {
    open spec fn token_lexeme(&self) -> Seq<char> {
        self.token.literal@
    }

    fn token_literal(&self) -> (literal: String)
        ensures
            literal@ == self.token.literal@,
    {
        self.token.literal.clone()
    }
}

impl Node for IfExpression {
    open spec fn token_lexeme(&self) -> Seq<char> {
        self.token.literal@
    }

    fn token_literal(&self) -> (literal: String)
        ensures
            literal@ == self.token.literal@,
    {
        self.token.literal.clone()
    }
}

impl Node for CallExpression {
    open spec fn token_lexeme(&self) -> Seq<char> {
        self.token.literal@
    }

    fn token_literal(&self) -> (literal: String)
        ensures
            literal@ == self.token.literal@,
    {
        self.token.literal.clone()
    }
}

impl Node for Expression {
    open spec fn token_lexeme(&self) -> Seq<char> {
        match self {
            Expression::Identifier(node) => node.token.literal@,
            Expression::Integer(node) => node.token.literal@,
            Expression::Boolean(node) => node.token.literal@,
            Expression::Function(node) => node.token.literal@,
            Expression::Prefix(node) => node.token.literal@,
            Expression::Infix(node) => node.token.literal@,
            Expression::If(node) => node.token.literal@,
            Expression::Call(node) => node.token.literal@,
        }
    }

    fn token_literal(&self) -> (literal: String)
        ensures
            literal@ == self.token_lexeme(),
    {
        match self {
            Expression::Identifier(node) => node.token_literal(),
            Expression::Integer(node) => node.token_literal(),
            Expression::Boolean(node) => node.token_literal(),
            Expression::Function(node) => node.token_literal(),
            Expression::Prefix(node) => node.token_literal(),
            Expression::Infix(node) => node.token_literal(),
            Expression::If(node) => node.token_literal(),
            Expression::Call(node) => node.token_literal(),
        }
    }
}

impl Clone for Identifier {
    fn clone(&self) -> (copy: Identifier)
        ensures
            copy == *self,
    {
        Identifier { token: self.token.clone(), value: self.value.clone() }
    }
}

impl Clone for IntegerLiteral {
    fn clone(&self) -> (copy: IntegerLiteral)
        ensures
            copy == *self,
    {
        IntegerLiteral { token: self.token.clone(), value: self.value }
    }
}

impl Clone for BooleanLiteral {
    fn clone(&self) -> (copy: BooleanLiteral)
        ensures
            copy == *self,
    {
        BooleanLiteral { token: self.token.clone(), value: self.value }
    }
}

/// A copy of a list of identifiers.
pub fn clone_identifiers(identifiers: &Vec<Identifier>) -> (copy: Vec<Identifier>)
    ensures
        copy@ == identifiers@,
{
    let mut copy: Vec<Identifier> = Vec::new();
    let mut i: usize = 0;
    while i < identifiers.len()
        invariant
            i <= identifiers.len(),
            copy@ == identifiers@.take(i as int),
        decreases identifiers.len() - i,
    {
        copy.push(identifiers[i].clone());
        i += 1;
        assert(copy@ =~= identifiers@.take(i as int));
    }
    assert(identifiers@.take(i as int) =~= identifiers@);
    copy
}

/// A copy of a list of expressions: it says what the list says.
pub fn clone_expressions(expressions: &Vec<Expression>) -> (copy: Vec<Expression>)
    ensures
        expressions_view(copy@) == expressions_view(expressions@),
    decreases expressions,
{
    let mut copy: Vec<Expression> = Vec::new();
    let mut i: usize = 0;
    while i < expressions.len()
        invariant
            i <= expressions.len(),
            copy@.len() == i,
            forall|j: int| 0 <= j < i ==> expression_view(#[trigger] copy@[j]) == expression_view(expressions@[j]),
        decreases expressions.len() - i,
    {
        copy.push(clone_expression(&expressions[i]));
        i += 1;
    }
    assert(expressions_view(copy@) =~= expressions_view(expressions@));
    copy
}

/// A copy of an expression: it says what the expression says.
pub fn clone_expression(expression: &Expression) -> (copy: Expression)
    ensures
        copy@ == expression@,
    decreases expression,
{
    match expression {
        Expression::Identifier(node) => Expression::Identifier(node.clone()),
        Expression::Integer(node) => Expression::Integer(node.clone()),
        Expression::Boolean(node) => Expression::Boolean(node.clone()),
        Expression::Function(node) => Expression::Function(
            FunctionLiteral {
                token: node.token.clone(),
                parameters: clone_identifiers(&node.parameters),
                body: clone_block(&node.body),
            },
        ),
        Expression::Prefix(node) => Expression::Prefix(
            PrefixExpression {
                token: node.token.clone(),
                operator: node.operator.clone(),
                right: Box::new(clone_expression(&node.right)),
            },
        ),
        Expression::Infix(node) => Expression::Infix(
            InfixExpression {
                token: node.token.clone(),
                left: Box::new(clone_expression(&node.left)),
                operator: node.operator.clone(),
                right: Box::new(clone_expression(&node.right)),
            },
        ),
        Expression::If(node) => {
            let alternative = match &node.alternative {
                Some(block) => Some(clone_block(block)),
                None => None,
            };
            Expression::If(
                IfExpression {
                    token: node.token.clone(),
                    condition: Box::new(clone_expression(&node.condition)),
                    consequence: clone_block(&node.consequence),
                    alternative,
                },
            )
        },
        Expression::Call(node) => Expression::Call(
            CallExpression {
                token: node.token.clone(),
                function: Box::new(clone_expression(&node.function)),
                arguments: clone_expressions(&node.arguments),
            },
        ),
    }
}

impl Clone for Expression {
    fn clone(&self) -> (copy: Expression)
        ensures
            copy@ == self@,
    {
        clone_expression(self)
    }
}

} // verus!
