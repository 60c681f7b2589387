//! Expressions.

use crate::tree::operator::{ArithmeticOperator, ComparisonOperator, LogicalOperator};
use vstd::prelude::*;

verus! {

/// A value written out in the source text. A number holds its digits as
/// they were written.
#[derive(Debug, Clone, PartialEq, Eq)]
pub enum Primitive {
    Boolean(bool),
    Nil,
    Number(String),
    String(String),
}

/// The mathematical model of a [`Primitive`].
pub enum PrimitiveView {
    Boolean(bool),
    Nil,
    Number(Seq<char>),
    String(Seq<char>),
}

impl View for Primitive {
    type V = PrimitiveView;

    open spec fn view(&self) -> PrimitiveView {
        match self {
            Primitive::Boolean(value) => PrimitiveView::Boolean(*value),
            Primitive::Nil => PrimitiveView::Nil,
            Primitive::Number(literal) => PrimitiveView::Number(literal@),
            Primitive::String(value) => PrimitiveView::String(value@),
        }
    }
}

#[allow(inconsistent_fields)]
/// An operation on expressions. A group stands for a pair of parentheses
/// and is kept for printing only.
#[derive(Debug, PartialEq, Eq)]
pub enum Operation {
    Arithmetic { operator: ArithmeticOperator, a: Box<Expression>, b: Box<Expression> },
    Comparison { operator: ComparisonOperator, a: Box<Expression>, b: Box<Expression> },
    Group(Box<Expression>),
    Logical { operator: LogicalOperator, expression: Box<Expression> },
}

/// What an expression is: an operation or a primitive.
#[derive(Debug, PartialEq, Eq)]
pub enum ExpressionKind {
    Operation(Operation),
    Primitive(Primitive),
}

/// An expression, and the line of the first token that it was made of.
#[derive(Debug, PartialEq, Eq)]
pub struct Expression {
    pub kind: ExpressionKind,
    pub line: usize,
}

#[allow(inconsistent_fields)]
/// The mathematical model of an [`ExpressionKind`]: a primitive, or one of
/// the operations.
pub enum ExpressionKindView {
    Primitive(PrimitiveView),
    Group(Box<ExpressionView>),
    Logical { operator: LogicalOperator, expression: Box<ExpressionView> },
    Arithmetic { operator: ArithmeticOperator, a: Box<ExpressionView>, b: Box<ExpressionView> },
    Comparison { operator: ComparisonOperator, a: Box<ExpressionView>, b: Box<ExpressionView> },
}

/// The mathematical model of an [`Expression`].
pub struct ExpressionView {
    pub kind: ExpressionKindView,
    pub line: nat,
}

impl Operation {
    /// The mathematical model of the operation.
    pub open spec fn model(self) -> ExpressionKindView
        decreases self,
    {
        match self {
            Operation::Arithmetic { operator, a, b } => ExpressionKindView::Arithmetic {
                operator,
                a: Box::new(a.model()),
                b: Box::new(b.model()),
            },
            Operation::Comparison { operator, a, b } => ExpressionKindView::Comparison {
                operator,
                a: Box::new(a.model()),
                b: Box::new(b.model()),
            },
            Operation::Group(expression) => ExpressionKindView::Group(
                Box::new(expression.model()),
            ),
            Operation::Logical { operator, expression } => ExpressionKindView::Logical {
                operator,
                expression: Box::new(expression.model()),
            },
        }
    }
}

impl ExpressionKind {
    /// The mathematical model of the kind.
    pub open spec fn model(self) -> ExpressionKindView
        decreases self,
    {
        match self {
            ExpressionKind::Operation(operation) => operation.model(),
            ExpressionKind::Primitive(primitive) => ExpressionKindView::Primitive(primitive@),
        }
    }
}

impl Expression {
    /// The mathematical model of the expression.
    pub open spec fn model(self) -> ExpressionView
        decreases self,
    {
        ExpressionView { kind: self.kind.model(), line: self.line as nat }
    }

    /// An operation that begins on `line`.
    pub fn operation(operation: Operation, line: usize) -> (expression: Expression)
        ensures
            expression@ == (ExpressionView { kind: operation.model(), line: line as nat }),
    {
        Expression { kind: ExpressionKind::Operation(operation), line }
    }

    /// A primitive that stands on `line`.
    pub fn primitive(primitive: Primitive, line: usize) -> (expression: Expression)
        ensures
            expression@ == (ExpressionView {
                kind: ExpressionKindView::Primitive(primitive@),
                line: line as nat,
            }),
    {
        Expression { kind: ExpressionKind::Primitive(primitive), line }
    }
}

impl View for Expression {
    type V = ExpressionView;

    open spec fn view(&self) -> ExpressionView {
        self.model()
    }
}

impl DeepView for Expression {
    type V = ExpressionView;

    open spec fn deep_view(&self) -> ExpressionView {
        self.model()
    }
}

} // verus!
