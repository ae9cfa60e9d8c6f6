//! The abstract syntax tree.

pub mod expressions;
pub mod model;
pub mod operators;
pub mod statements;

use vstd::prelude::*;
use crate::ast::expressions::{clone_expression, Expression};
use crate::ast::model::{render_block, StatementView};
use crate::ast::statements::{
    clone_statement, clone_statements, statements_to_string, statements_view, Statement,
};

verus! {

/// What every node of the tree offers: the lexeme of the token it was read from.
pub trait Node {
    /// The lexeme of the node's token.
    spec fn token_lexeme(&self) -> Seq<char>;

    /// The lexeme of the node's token.
    fn token_literal(&self) -> (literal: String)
        ensures
            literal@ == self.token_lexeme(),
    ;
}

/// The root of the tree: the statements of a program, in source order.
#[derive(Debug, PartialEq, Eq)]
pub struct Program {
    pub statements: Vec<Statement>,
}

impl View for Program {
    type V = Seq<StatementView>;

    open spec fn view(&self) -> Seq<StatementView> {
        statements_view(self.statements@)
    }
}

impl Program {
    /// The canonical text of the program: the texts of its statements, one
    /// after the other.
    pub fn to_string(&self) -> (text: String)
        ensures
            text@ == render_block(self@),
    {
        statements_to_string(&self.statements)
    }
}

impl Node for Program {
    open spec fn token_lexeme(&self) -> Seq<char> {
        if self.statements@.len() > 0 {
            self.statements@[0].token_lexeme()
        } else {
            Seq::empty()
        }
    }

    fn token_literal(&self) -> (literal: String)
        ensures
            literal@ == self.token_lexeme(),
    {
        if self.statements.len() > 0 {
            self.statements[0].token_literal()
        } else {
            String::new()
        }
    }
}

impl Clone for Program {
    fn clone(&self) -> (copy: Program)
        ensures
            copy@ == self@,
    {
        Program { statements: clone_statements(&self.statements) }
    }
}

/// Any node that can be evaluated.
#[derive(Debug, PartialEq, Eq)]
pub enum Nodes {
    Program(Program),
    Statement(Statement),
    Expression(Expression),
}

/// Whether two nodes are of one kind and say the same.
pub open spec fn same_node(first: Nodes, second: Nodes) -> bool {
    match (first, second) {
        (Nodes::Program(a), Nodes::Program(b)) => a@ == b@,
        (Nodes::Statement(a), Nodes::Statement(b)) => a@ == b@,
        (Nodes::Expression(a), Nodes::Expression(b)) => a@ == b@,
        _ => false,
    }
}

impl Clone for Nodes {
    fn clone(&self) -> (copy: Nodes)
        ensures
            same_node(*self, copy),
    {
        match self {
            Nodes::Program(program) => Nodes::Program(program.clone()),
            Nodes::Statement(statement) => Nodes::Statement(clone_statement(statement)),
            Nodes::Expression(expression) => Nodes::Expression(clone_expression(expression)),
        }
    }
}

} // verus!
