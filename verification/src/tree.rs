//! The tree that the parser builds: one expression, one statement, or a
//! program of several statements.

pub mod expression;
pub mod operator;
pub mod statement;

use crate::tree::expression::{Expression, ExpressionView};
use crate::tree::statement::{Statement, StatementView};
use vstd::prelude::*;

verus! {

/// The tree of a source text.
#[derive(Debug, PartialEq, Eq)]
pub enum Tree {
    Expression(Expression),
    Program(Vec<Statement>),
    Statement(Statement),
}

/// The mathematical model of a [`Tree`].
pub enum TreeView {
    Expression(ExpressionView),
    Program(Seq<StatementView>),
    Statement(StatementView),
}

impl View for Tree {
    type V = TreeView;

    open spec fn view(&self) -> TreeView {
        match self {
            Tree::Expression(expression) => TreeView::Expression(expression@),
            Tree::Program(statements) => TreeView::Program(statements.deep_view()),
            Tree::Statement(statement) => TreeView::Statement(statement@),
        }
    }
}

/// The line on which a tree begins: that of its expression or statement,
/// that of the first statement of a program, and 1 for a program without
/// statements.
pub open spec fn tree_line(tree: TreeView) -> nat {
    match tree {
        TreeView::Expression(expression) => expression.line,
        TreeView::Program(statements) => if statements.len() > 0 {
            statements[0].line
        } else {
            1
        },
        TreeView::Statement(statement) => statement.line,
    }
}

impl Tree {
    /// The line on which the tree begins.
    pub fn line(&self) -> (line: usize)
        ensures
            line == tree_line(self@),
    {
        match self {
            Tree::Expression(expression) => expression.line,
            Tree::Program(statements) => if statements.len() > 0 {
                statements[0].line
            } else {
                1
            },
            Tree::Statement(statement) => statement.line,
        }
    }
}

} // verus!
