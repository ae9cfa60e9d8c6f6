//! Statements.

use vstd::prelude::*;
use vstd::string::StringExecFns;
use crate::ast::expressions::{clone_expression, expression_view, Expression, Identifier};
use crate::ast::model::{
    join, lemma_join_push, render_block, render_statement, render_statements, StatementView,
};
use crate::ast::Node;
use crate::token::Token;

verus! {

/// A statement.
#[derive(Debug, PartialEq, Eq)]
pub enum Statement {
    Let(LetStatement),
    Return(ReturnStatement),
    Expression(ExpressionStatement),
    Block(BlockStatement),
}

/// `let <name> = <value>;`
#[derive(Debug, PartialEq, Eq)]
pub struct LetStatement {
    pub token: Token,
    pub name: Identifier,
    pub value: Box<Expression>,
}

/// `return <value>;`
#[derive(Debug, PartialEq, Eq)]
pub struct ReturnStatement {
    pub token: Token,
    pub return_value: Box<Expression>,
}

/// An expression that stands as a statement.
#[derive(Debug, PartialEq, Eq)]
pub struct ExpressionStatement {
    pub token: Token,
    pub expression: Expression,
}

/// The statements between a pair of braces.
#[derive(Debug, PartialEq, Eq)]
pub struct BlockStatement {
    pub token: Token,
    pub statements: Vec<Statement>,
}

/// What a list of statements says, one by one.
pub open spec fn statements_view(statements: Seq<Statement>) -> Seq<StatementView>
    decreases statements,
{
    Seq::new(
        statements.len(),
        |i: int|
            if 0 <= i < statements.len() {
                statement_view(statements[i])
            } else {
                arbitrary()
            },
    )
}

/// What a block says: what its statements say.
pub open spec fn block_view(block: BlockStatement) -> Seq<StatementView>
    decreases block,
{
    statements_view(block.statements@)
}

/// What a statement says.
pub open spec fn statement_view(statement: Statement) -> StatementView
    decreases statement,
{
    match statement {
        Statement::Let(node) => StatementView::Let {
            name: node.name.value@,
            value: expression_view(*node.value),
        },
        Statement::Return(node) => StatementView::Return {
            value: expression_view(*node.return_value),
        },
        Statement::Expression(node) => StatementView::Expression {
            expression: expression_view(node.expression),
        },
        Statement::Block(node) => StatementView::Block { statements: block_view(node) },
    }
}

impl View for Statement {
    type V = StatementView;

    open spec fn view(&self) -> StatementView {
        statement_view(*self)
    }
}

impl View for BlockStatement {
    type V = Seq<StatementView>;

    open spec fn view(&self) -> Seq<StatementView> {
        block_view(*self)
    }
}

impl View for LetStatement {
    type V = StatementView;

    open spec fn view(&self) -> StatementView {
        statement_view(Statement::Let(*self))
    }
}

impl View for ReturnStatement {
    type V = StatementView;

    open spec fn view(&self) -> StatementView {
        statement_view(Statement::Return(*self))
    }
}

impl View for ExpressionStatement {
    type V = StatementView;

    open spec fn view(&self) -> StatementView {
        statement_view(Statement::Expression(*self))
    }
}

/// The canonical texts of the statements, one after the other.
pub fn statements_to_string(statements: &Vec<Statement>) -> (text: String)
    ensures
        text@ == render_block(statements_view(statements@)),
    decreases statements,
{
    let ghost parts = render_statements(statements_view(statements@));
    let mut text = String::new();
    let mut i: usize = 0;
    while i < statements.len()
        invariant
            i <= statements.len(),
            parts == render_statements(statements_view(statements@)),
            text@ == join(parts.take(i as int), Seq::empty()),
        decreases statements.len() - i,
    {
        let part = statements[i].to_string();
        text.append(part.as_str());
        proof {
            lemma_join_push(parts.take(i as int), Seq::empty(), parts[i as int]);
            assert(parts.take(i as int).push(parts[i as int]) =~= parts.take(i + 1));
            assert(text@ =~= join(parts.take(i + 1), Seq::empty()));
        }
        i += 1;
    }
    assert(parts.take(i as int) =~= parts);
    text
}

impl LetStatement {
    /// The canonical text: `let <name> = <value>;`.
    pub fn to_string(&self) -> (text: String)
        ensures
            text@ == render_statement(self@),
        decreases self,
    {
        let mut text = String::from_str("let ");
        text.append(self.name.value.as_str());
        text.append(" = ");
        let value = self.value.to_string();
        text.append(value.as_str());
        text.append(";");
        text
    }
}

impl ReturnStatement {
    /// The canonical text: `return <value>;`.
    pub fn to_string(&self) -> (text: String)
        ensures
            text@ == render_statement(self@),
        decreases self,
    {
        let mut text = String::from_str("return ");
        let value = self.return_value.to_string();
        text.append(value.as_str());
        text.append(";");
        text
    }
}

impl ExpressionStatement {
    /// The canonical text: that of the expression.
    pub fn to_string(&self) -> (text: String)
        ensures
            text@ == render_statement(self@),
        decreases self,
    {
        self.expression.to_string()
    }
}

impl BlockStatement {
    /// The canonical text: the texts of the statements, one after the other.
    pub fn to_string(&self) -> (text: String)
        ensures
            text@ == render_block(self@),
        decreases self,
    {
        statements_to_string(&self.statements)
    }
}

impl Statement {
    /// The canonical text of the statement.
    pub fn to_string(&self) -> (text: String)
        ensures
            text@ == render_statement(self@),
        decreases self,
    {
        match self {
            Statement::Let(node) => node.to_string(),
            Statement::Return(node) => node.to_string(),
            Statement::Expression(node) => node.to_string(),
            Statement::Block(node) => node.to_string(),
        }
    }
}

impl Node for Statement {
    open spec fn token_lexeme(&self) -> Seq<char> {
        match self {
            Statement::Let(node) => node.token.literal@,
            Statement::Return(node) => node.token.literal@,
            Statement::Expression(node) => node.token.literal@,
            Statement::Block(node) => node.token.literal@,
        }
    }

    fn token_literal(&self) -> (literal: String)
        ensures
            literal@ == self.token_lexeme(),
    {
        match self {
            Statement::Let(node) => node.token_literal(),
            Statement::Return(node) => node.token_literal(),
            Statement::Expression(node) => node.token_literal(),
            Statement::Block(node) => node.token_literal(),
        }
    }
}

impl Node for LetStatement {
    open spec fn token_lexeme(&self) -> Seq<char> {
        self.token.literal@
    }

    fn token_literal(&self) -> (literal: String)
        ensures
            literal@ == self.token.literal@,
    {
        self.token.literal.clone()
    }
}

impl Node for ReturnStatement {
    open spec fn token_lexeme(&self) -> Seq<char> {
        self.token.literal@
    }

    fn token_literal(&self) -> (literal: String)
        ensures
            literal@ == self.token.literal@,
    {
        self.token.literal.clone()
    }
}

impl Node for ExpressionStatement {
    open spec fn token_lexeme(&self) -> Seq<char> {
        self.token.literal@
    }

    fn token_literal(&self) -> (literal: String)
        ensures
            literal@ == self.token.literal@,
    {
        self.token.literal.clone()
    }
}

impl Node for BlockStatement {
    open spec fn token_lexeme(&self) -> Seq<char> {
        self.token.literal@
    }

    fn token_literal(&self) -> (literal: String)
        ensures
            literal@ == self.token.literal@,
    {
        self.token.literal.clone()
    }
}

/// A copy of a list of statements: it says what the list says.
pub fn clone_statements(statements: &Vec<Statement>) -> (copy: Vec<Statement>)
    ensures
        statements_view(copy@) == statements_view(statements@),
    decreases statements,
{
    let mut copy: Vec<Statement> = Vec::new();
    let mut i: usize = 0;
    while i < statements.len()
        invariant
            i <= statements.len(),
            copy@.len() == i,
            forall|j: int| 0 <= j < i ==> statement_view(#[trigger] copy@[j]) == statement_view(statements@[j]),
        decreases statements.len() - i,
    {
        copy.push(clone_statement(&statements[i]));
        i += 1;
    }
    assert(statements_view(copy@) =~= statements_view(statements@));
    copy
}

/// A copy of a block: it says what the block says.
pub fn clone_block(block: &BlockStatement) -> (copy: BlockStatement)
    ensures
        copy@ == block@,
    decreases block,
{
    BlockStatement { token: block.token.clone(), statements: clone_statements(&block.statements) }
}

/// A copy of a statement: it says what the statement says.
pub fn clone_statement(statement: &Statement) -> (copy: Statement)
    ensures
        copy@ == statement@,
    decreases statement,
{
    match statement {
        Statement::Let(node) => Statement::Let(
            LetStatement {
                token: node.token.clone(),
                name: node.name.clone(),
                value: Box::new(clone_expression(&node.value)),
            },
        ),
        Statement::Return(node) => Statement::Return(
            ReturnStatement {
                token: node.token.clone(),
                return_value: Box::new(clone_expression(&node.return_value)),
            },
        ),
        Statement::Expression(node) => Statement::Expression(
            ExpressionStatement {
                token: node.token.clone(),
                expression: clone_expression(&node.expression),
            },
        ),
        Statement::Block(node) => Statement::Block(clone_block(node)),
    }
}

impl Clone for Statement {
    fn clone(&self) -> (copy: Statement)
        ensures
            copy@ == self@,
    {
        clone_statement(self)
    }
}

impl Clone for BlockStatement {
    fn clone(&self) -> (copy: BlockStatement)
        ensures
            copy@ == self@,
    {
        clone_block(self)
    }
}

} // verus!
