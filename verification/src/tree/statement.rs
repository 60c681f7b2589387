//! Statements.

use crate::tree::expression::{Expression, ExpressionView};
use vstd::prelude::*;

verus! {

/// What a statement does.
#[derive(Debug, PartialEq, Eq)]
pub enum StatementKind {
    /// Evaluates the expression and writes the value on a line of its own.
    Print(Expression),
}

/// A statement, and the line of the token that it begins with.
#[derive(Debug, PartialEq, Eq)]
pub struct Statement {
    pub kind: StatementKind,
    pub line: usize,
}

/// The mathematical model of a [`StatementKind`].
pub enum StatementKindView {
    Print(ExpressionView),
}

/// The mathematical model of a [`Statement`].
pub struct StatementView {
    pub kind: StatementKindView,
    pub line: nat,
}

impl View for StatementKind {
    type V = StatementKindView;

    open spec fn view(&self) -> StatementKindView {
        match self {
            StatementKind::Print(expression) => StatementKindView::Print(expression@),
        }
    }
}

impl View for Statement {
    type V = StatementView;

    open spec fn view(&self) -> StatementView {
        StatementView { kind: self.kind@, line: self.line as nat }
    }
}

impl DeepView for Statement {
    type V = StatementView;

    open spec fn deep_view(&self) -> StatementView {
        self@
    }
}

} // verus!
