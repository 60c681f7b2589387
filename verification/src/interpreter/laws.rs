//! What holds of every evaluation.

use crate::interpreter::{
    kind_of_outcome, value_of, CalculationView, ErrorKind, InterpreterErrorView, Order, ValueView,
};
use crate::tree::expression::{ExpressionKindView, ExpressionView};
use vstd::prelude::*;

verus! {

/// The expression without its groups: each group gives way to what stands
/// inside it.
pub open spec fn without_groups(expression: ExpressionView) -> ExpressionView
    decreases expression,
{
    match expression.kind {
        ExpressionKindView::Primitive(_) => expression,
        ExpressionKindView::Group(inside) => without_groups(*inside),
        ExpressionKindView::Logical { operator, expression: operand } => ExpressionView {
            kind: ExpressionKindView::Logical {
                operator,
                expression: Box::new(without_groups(*operand)),
            },
            line: expression.line,
        },
        ExpressionKindView::Arithmetic { operator, a, b } => ExpressionView {
            kind: ExpressionKindView::Arithmetic {
                operator,
                a: Box::new(without_groups(*a)),
                b: Box::new(without_groups(*b)),
            },
            line: expression.line,
        },
        ExpressionKindView::Comparison { operator, a, b } => ExpressionView {
            kind: ExpressionKindView::Comparison {
                operator,
                a: Box::new(without_groups(*a)),
                b: Box::new(without_groups(*b)),
            },
            line: expression.line,
        },
    }
}

/// Whether each group of the expression stands on the line on which what
/// is inside it begins.
pub open spec fn groups_open_in_line(expression: ExpressionView) -> bool
    decreases expression,
{
    match expression.kind {
        ExpressionKindView::Primitive(_) => true,
        ExpressionKindView::Group(inside) => inside.line == expression.line && groups_open_in_line(
            *inside,
        ),
        ExpressionKindView::Logical { expression: operand, .. } => groups_open_in_line(*operand),
        ExpressionKindView::Arithmetic { a, b, .. } => groups_open_in_line(*a)
            && groups_open_in_line(*b),
        ExpressionKindView::Comparison { a, b, .. } => groups_open_in_line(*a)
            && groups_open_in_line(*b),
    }
}

/// An outcome without the line of its error.
pub open spec fn without_line(outcome: Result<ValueView, InterpreterErrorView>) -> Result<
    ValueView,
    ErrorKind,
> {
    match outcome {
        Ok(value) => Ok(value),
        Err(error) => Err(error.kind),
    }
}

/// Without its groups an expression begins on the same line, if each group
/// stands on the line on which its inside begins.
pub proof fn lemma_line_without_groups(expression: ExpressionView)
    requires
        groups_open_in_line(expression),
    ensures
        without_groups(expression).line == expression.line,
    decreases expression,
{
    match expression.kind {
        ExpressionKindView::Group(inside) => {
            lemma_line_without_groups(*inside);
        },
        _ => {},
    }
}

/// Groups change no value: an expression evaluates to the same value with
/// its groups and without them, and fails with the same kind of error.
pub proof fn lemma_groups_change_no_value(
    number: spec_fn(CalculationView) -> u64,
    ordering: spec_fn(u64, u64) -> Order,
    expression: ExpressionView,
)
    ensures
        without_line(value_of(number, ordering, without_groups(expression))) == without_line(
            value_of(number, ordering, expression),
        ),
    decreases expression,
{
    match expression.kind {
        ExpressionKindView::Primitive(_) => {},
        ExpressionKindView::Group(inside) => {
            lemma_groups_change_no_value(number, ordering, *inside);
        },
        ExpressionKindView::Logical { expression: operand, .. } => {
            lemma_groups_change_no_value(number, ordering, *operand);
        },
        ExpressionKindView::Arithmetic { a, b, .. } => {
            lemma_groups_change_no_value(number, ordering, *a);
            lemma_groups_change_no_value(number, ordering, *b);
        },
        ExpressionKindView::Comparison { a, b, .. } => {
            lemma_groups_change_no_value(number, ordering, *a);
            lemma_groups_change_no_value(number, ordering, *b);
        },
    }
}

/// Groups change no outcome: where each group stands on the line on which
/// its inside begins, an expression evaluates to the same value with its
/// groups and without them, and fails with the same error on the same line.
pub proof fn lemma_groups_change_no_outcome(
    number: spec_fn(CalculationView) -> u64,
    ordering: spec_fn(u64, u64) -> Order,
    expression: ExpressionView,
)
    requires
        groups_open_in_line(expression),
    ensures
        value_of(number, ordering, without_groups(expression)) == value_of(
            number,
            ordering,
            expression,
        ),
    decreases expression,
{
    match expression.kind {
        ExpressionKindView::Primitive(_) => {},
        ExpressionKindView::Group(inside) => {
            lemma_groups_change_no_outcome(number, ordering, *inside);
        },
        ExpressionKindView::Logical { expression: operand, .. } => {
            lemma_groups_change_no_outcome(number, ordering, *operand);
            lemma_line_without_groups(*operand);
        },
        ExpressionKindView::Arithmetic { a, b, .. } => {
            lemma_groups_change_no_outcome(number, ordering, *a);
            lemma_groups_change_no_outcome(number, ordering, *b);
            lemma_line_without_groups(*a);
        },
        ExpressionKindView::Comparison { a, b, .. } => {
            lemma_groups_change_no_outcome(number, ordering, *a);
            lemma_groups_change_no_outcome(number, ordering, *b);
            lemma_line_without_groups(*a);
        },
    }
}

/// Whether an expression fails, with which error and on which line, does
/// not hang on the arithmetic, nor does the kind of value that it gives, nor
/// the characters of a string.
pub proof fn lemma_errors_whatever_the_arithmetic(
    number: spec_fn(CalculationView) -> u64,
    ordering: spec_fn(u64, u64) -> Order,
    other_number: spec_fn(CalculationView) -> u64,
    other_ordering: spec_fn(u64, u64) -> Order,
    expression: ExpressionView,
)
    ensures
        kind_of_outcome(value_of(number, ordering, expression)) == kind_of_outcome(
            value_of(other_number, other_ordering, expression),
        ),
    decreases expression,
{
    match expression.kind {
        ExpressionKindView::Primitive(_) => {},
        ExpressionKindView::Group(inside) => {
            lemma_errors_whatever_the_arithmetic(
                number,
                ordering,
                other_number,
                other_ordering,
                *inside,
            );
        },
        ExpressionKindView::Logical { expression: operand, .. } => {
            lemma_errors_whatever_the_arithmetic(
                number,
                ordering,
                other_number,
                other_ordering,
                *operand,
            );
        },
        ExpressionKindView::Arithmetic { a, b, .. } => {
            lemma_errors_whatever_the_arithmetic(number, ordering, other_number, other_ordering, *a);
            lemma_errors_whatever_the_arithmetic(number, ordering, other_number, other_ordering, *b);
        },
        ExpressionKindView::Comparison { a, b, .. } => {
            lemma_errors_whatever_the_arithmetic(number, ordering, other_number, other_ordering, *a);
            lemma_errors_whatever_the_arithmetic(number, ordering, other_number, other_ordering, *b);
        },
    }
}

} // verus!
