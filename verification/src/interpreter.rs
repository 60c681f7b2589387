//! The evaluator: from a tree to a value, or to the lines that it prints.
//!
//! Numbers are floating-point values, and this library computes with none:
//! a number is held as the 64 bits of its value, and whoever calls the
//! evaluator hands it the arithmetic. What the evaluator owes is stated for
//! every arithmetic that may be handed in: which calculations it asks for,
//! in which order, and what it makes of the answers.

pub mod laws;

use crate::text::{decimal, push_decimal};
use crate::tree::expression::{
    Expression, ExpressionKind, ExpressionKindView, ExpressionView, Operation, Primitive,
    PrimitiveView,
};
use crate::tree::operator::{ArithmeticOperator, ComparisonOperator, LogicalOperator};
use crate::tree::statement::{Statement, StatementKind, StatementKindView, StatementView};
use crate::tree::{tree_line, Tree, TreeView};
use vstd::prelude::*;

verus! {

/// What an expression evaluates to. A number is the 64 bits of its
/// floating-point value.
#[derive(Debug, Clone, PartialEq, Eq)]
pub enum Value {
    Boolean(bool),
    Nil,
    Number(u64),
    String(String),
}

/// The mathematical model of a [`Value`].
pub enum ValueView {
    Boolean(bool),
    Nil,
    Number(u64),
    String(Seq<char>),
}

impl View for Value {
    type V = ValueView;

    open spec fn view(&self) -> ValueView {
        match self {
            Value::Boolean(value) => ValueView::Boolean(*value),
            Value::Nil => ValueView::Nil,
            Value::Number(bits) => ValueView::Number(*bits),
            Value::String(value) => ValueView::String(value@),
        }
    }
}

/// What the evaluator asks of the arithmetic.
#[derive(Debug, Clone, PartialEq, Eq)]
pub enum Calculation {
    /// The value of a number literal, given by its digits.
    Literal(String),
    /// The negative of a number.
    Negate(u64),
    /// What the operator makes of two numbers, the left one first.
    Arithmetic(ArithmeticOperator, u64, u64),
}

/// The mathematical model of a [`Calculation`].
pub enum CalculationView {
    Literal(Seq<char>),
    Negate(u64),
    Arithmetic(ArithmeticOperator, u64, u64),
}

impl View for Calculation {
    type V = CalculationView;

    open spec fn view(&self) -> CalculationView {
        match self {
            Calculation::Literal(literal) => CalculationView::Literal(literal@),
            Calculation::Negate(bits) => CalculationView::Negate(*bits),
            Calculation::Arithmetic(operator, a, b) => CalculationView::Arithmetic(*operator, *a, *b),
        }
    }
}

/// How the first of two numbers stands to the second. Two numbers of which
/// one is no number at all are unordered.
#[derive(Debug, Clone, Copy, PartialEq, Eq, Structural)]
pub enum Order {
    Less,
    Equal,
    Greater,
    Unordered,
}

/// The kinds of runtime error.
#[derive(Debug, Clone, Copy, PartialEq, Eq, Structural)]
pub enum ErrorKind {
    /// The operand of a negation is no number.
    OperandMustBeNumber,
    /// An operand of `-`, `*`, `/`, `<`, `<=`, `>` or `>=` is no number.
    OperandsMustBeNumbers,
    /// The operands of `+` are neither two numbers nor two strings.
    OperandsMustBeNumbersOrStrings,
    /// The tree to evaluate is no expression.
    ExpectedExpression,
    /// The tree to run is no statement and no program.
    ExpectedStatement,
}

/// A runtime error and the line that it speaks of.
#[derive(Debug, Clone, Copy, PartialEq, Eq)]
pub struct InterpreterError {
    pub kind: ErrorKind,
    pub line: usize,
}

/// The mathematical model of an [`InterpreterError`].
pub struct InterpreterErrorView {
    pub kind: ErrorKind,
    pub line: nat,
}

impl View for InterpreterError {
    type V = InterpreterErrorView;

    open spec fn view(&self) -> InterpreterErrorView {
        InterpreterErrorView { kind: self.kind, line: self.line as nat }
    }
}

/// The first line of the message of a runtime error.
pub open spec fn error_kind_text(kind: ErrorKind) -> Seq<char> {
    match kind {
        ErrorKind::OperandMustBeNumber => "Operand must be a number."@,
        ErrorKind::OperandsMustBeNumbers => "Operands must be numbers."@,
        ErrorKind::OperandsMustBeNumbersOrStrings => "Operands must be two numbers or two strings."@,
        ErrorKind::ExpectedExpression => "Expected expression"@,
        ErrorKind::ExpectedStatement => "Expected statement"@,
    }
}

/// The message of a runtime error: what went wrong, and in a line of its
/// own where.
pub open spec fn interpreter_error_text(error: InterpreterErrorView) -> Seq<char> {
    error_kind_text(error.kind) + "\n[line "@ + decimal(error.line) + "]"@
}

impl InterpreterError {
    /// The error of `kind` that speaks of `line`.
    pub fn new(kind: ErrorKind, line: usize) -> (error: InterpreterError)
        ensures
            error.kind == kind,
            error.line == line,
    {
        InterpreterError { kind, line }
    }

    /// The message of this error.
    pub fn to_string(&self) -> (text: String)
        ensures
            text@ == interpreter_error_text(self@),
    {
        let mut text = match self.kind {
            ErrorKind::OperandMustBeNumber => "Operand must be a number.".to_owned(),
            ErrorKind::OperandsMustBeNumbers => "Operands must be numbers.".to_owned(),
            ErrorKind::OperandsMustBeNumbersOrStrings => "Operands must be two numbers or two strings.".to_owned(),
            ErrorKind::ExpectedExpression => "Expected expression".to_owned(),
            ErrorKind::ExpectedStatement => "Expected statement".to_owned(),
        };
        text.append("\n[line ");
        push_decimal(&mut text, self.line);
        text.append("]");
        text
    }
}

/// The runtime error of `kind` on `line`.
pub open spec fn failure(kind: ErrorKind, line: nat) -> Result<ValueView, InterpreterErrorView> {
    Err(InterpreterErrorView { kind, line })
}

/// Whether `bits` is an answer of the arithmetic to `calculation`.
pub open spec fn answers<C: Fn(Calculation) -> u64>(
    calculate: &C,
    calculation: Calculation,
    bits: u64,
) -> bool {
    calculate.ensures((calculation,), bits)
}

/// Whether `found` is how the arithmetic orders `a` and `b`.
pub open spec fn orders<O: Fn(u64, u64) -> Order>(order: &O, a: u64, b: u64, found: Order) -> bool {
    order.ensures((a, b), found)
}

/// Whether `shown` is how `show` writes the number `bits`.
pub open spec fn writes<S: Fn(u64) -> String>(show: &S, bits: u64, shown: String) -> bool {
    show.ensures((bits,), shown)
}

/// Whether `number` is the function that `calculate` computes: every
/// answer to a calculation is what `number` gives for it.
pub open spec fn computes<C: Fn(Calculation) -> u64>(
    calculate: &C,
    number: spec_fn(CalculationView) -> u64,
) -> bool {
    forall|calculation: Calculation, bits: u64| #[trigger]
        answers(calculate, calculation, bits) ==> bits == number(calculation@)
}

/// Whether `ordering` is the function that `order` computes.
pub open spec fn arranges<O: Fn(u64, u64) -> Order>(
    order: &O,
    ordering: spec_fn(u64, u64) -> Order,
) -> bool {
    forall|a: u64, b: u64, found: Order| #[trigger]
        orders(order, a, b, found) ==> found == ordering(a, b)
}

/// Whether `text` is the function that `show` computes.
pub open spec fn displays<S: Fn(u64) -> String>(show: &S, text: spec_fn(u64) -> Seq<char>) -> bool {
    forall|bits: u64, shown: String| #[trigger] writes(show, bits, shown) ==> shown@ == text(bits)
}

/// Whether a value counts as true: `nil` and `false` do not, all else does.
pub open spec fn truthy(value: ValueView) -> bool {
    match value {
        ValueView::Nil => false,
        ValueView::Boolean(value) => value,
        _ => true,
    }
}

/// Whether a comparison holds of two numbers that stand in `order`.
pub open spec fn holds(operator: ComparisonOperator, order: Order) -> bool {
    match operator {
        ComparisonOperator::Equal => order is Equal,
        ComparisonOperator::NotEqual => !(order is Equal),
        ComparisonOperator::LessThan => order is Less,
        ComparisonOperator::LessEqual => order is Less || order is Equal,
        ComparisonOperator::GreaterThan => order is Greater,
        ComparisonOperator::GreaterEqual => order is Greater || order is Equal,
    }
}

/// The value of a primitive. The value of a number is what the arithmetic
/// reads from its digits.
pub open spec fn primitive_value(
    number: spec_fn(CalculationView) -> u64,
    primitive: PrimitiveView,
) -> ValueView {
    match primitive {
        PrimitiveView::Boolean(boolean) => ValueView::Boolean(boolean),
        PrimitiveView::Nil => ValueView::Nil,
        PrimitiveView::Number(literal) => ValueView::Number(number(CalculationView::Literal(literal))),
        PrimitiveView::String(text) => ValueView::String(text),
    }
}

/// What a prefix operator makes of the value of its operand, which stands
/// on `line`. `!` gives whether the operand does not count as true; `-`
/// gives the negative of a number and fails on all else.
pub open spec fn logical_value(
    number: spec_fn(CalculationView) -> u64,
    operator: LogicalOperator,
    operand: ValueView,
    line: nat,
) -> Result<ValueView, InterpreterErrorView> {
    match operator {
        LogicalOperator::Not => Ok(ValueView::Boolean(!truthy(operand))),
        LogicalOperator::Negate => match operand {
            ValueView::Number(bits) => Ok(ValueView::Number(number(CalculationView::Negate(bits)))),
            _ => failure(ErrorKind::OperandMustBeNumber, line),
        },
    }
}

/// What an arithmetic operator makes of the values of its operands, of
/// which the left one stands on `line`. Two numbers give a number; `+`
/// joins two strings; all else fails.
pub open spec fn arithmetic_value(
    number: spec_fn(CalculationView) -> u64,
    operator: ArithmeticOperator,
    left: ValueView,
    right: ValueView,
    line: nat,
) -> Result<ValueView, InterpreterErrorView> {
    match (left, right) {
        (ValueView::Number(a), ValueView::Number(b)) => Ok(
            ValueView::Number(number(CalculationView::Arithmetic(operator, a, b))),
        ),
        (ValueView::String(a), ValueView::String(b)) if operator is Add => Ok(
            ValueView::String(a + b),
        ),
        _ => if operator is Add {
            failure(ErrorKind::OperandsMustBeNumbersOrStrings, line)
        } else {
            failure(ErrorKind::OperandsMustBeNumbers, line)
        },
    }
}

/// Whether two values are equal. Values of different kinds are not; two
/// numbers are where the arithmetic finds them equal.
pub open spec fn equal_values(
    ordering: spec_fn(u64, u64) -> Order,
    left: ValueView,
    right: ValueView,
) -> bool {
    match (left, right) {
        (ValueView::Boolean(a), ValueView::Boolean(b)) => a == b,
        (ValueView::Nil, ValueView::Nil) => true,
        (ValueView::Number(a), ValueView::Number(b)) => ordering(a, b) is Equal,
        (ValueView::String(a), ValueView::String(b)) => a == b,
        _ => false,
    }
}

/// What a comparison makes of the values of its operands, of which the left
/// one stands on `line`. `==` and `!=` take any two values; the others take
/// two numbers and fail on all else.
pub open spec fn comparison_value(
    ordering: spec_fn(u64, u64) -> Order,
    operator: ComparisonOperator,
    left: ValueView,
    right: ValueView,
    line: nat,
) -> Result<ValueView, InterpreterErrorView> {
    match operator {
        ComparisonOperator::Equal => Ok(ValueView::Boolean(equal_values(ordering, left, right))),
        ComparisonOperator::NotEqual => Ok(
            ValueView::Boolean(!equal_values(ordering, left, right)),
        ),
        _ => match (left, right) {
            (ValueView::Number(a), ValueView::Number(b)) => Ok(
                ValueView::Boolean(holds(operator, ordering(a, b))),
            ),
            _ => failure(ErrorKind::OperandsMustBeNumbers, line),
        },
    }
}

/// What an expression evaluates to, where `number` and `ordering` are the
/// arithmetic.
///
/// The operands are evaluated from left to right, and the first error among
/// them is the outcome. A group evaluates to what stands inside it. A
/// runtime error speaks of the line of the operand, and of the left one
/// where there are two.
pub open spec fn value_of(
    number: spec_fn(CalculationView) -> u64,
    ordering: spec_fn(u64, u64) -> Order,
    expression: ExpressionView,
) -> Result<ValueView, InterpreterErrorView>
    decreases expression,
{
    match expression.kind {
        ExpressionKindView::Primitive(primitive) => Ok(primitive_value(number, primitive)),
        ExpressionKindView::Group(inside) => value_of(number, ordering, *inside),
        ExpressionKindView::Logical { operator, expression: operand } => match value_of(
            number,
            ordering,
            *operand,
        ) {
            Err(error) => Err(error),
            Ok(value) => logical_value(number, operator, value, operand.line),
        },
        ExpressionKindView::Arithmetic { operator, a, b } => match value_of(number, ordering, *a) {
            Err(error) => Err(error),
            Ok(left) => match value_of(number, ordering, *b) {
                Err(error) => Err(error),
                Ok(right) => arithmetic_value(number, operator, left, right, a.line),
            },
        },
        ExpressionKindView::Comparison { operator, a, b } => match value_of(number, ordering, *a) {
            Err(error) => Err(error),
            Ok(left) => match value_of(number, ordering, *b) {
                Err(error) => Err(error),
                Ok(right) => comparison_value(ordering, operator, left, right, a.line),
            },
        },
    }
}

/// What a value is apart from the arithmetic: of a number and of a truth
/// value only that it is one, and of anything else all.
pub open spec fn kind_of_value(value: ValueView) -> ValueView {
    match value {
        ValueView::Number(_) => ValueView::Number(0),
        ValueView::Boolean(_) => ValueView::Boolean(false),
        _ => value,
    }
}

/// What an outcome is apart from the arithmetic: the error in full, or
/// the value as far as [`kind_of_value`] keeps it.
pub open spec fn kind_of_outcome(outcome: Result<ValueView, InterpreterErrorView>) -> Result<
    ValueView,
    InterpreterErrorView,
> {
    match outcome {
        Ok(value) => Ok(kind_of_value(value)),
        Err(error) => Err(error),
    }
}

/// A value as text, where `text` writes a number.
pub open spec fn value_text(text: spec_fn(u64) -> Seq<char>, value: ValueView) -> Seq<char> {
    match value {
        ValueView::Nil => "nil"@,
        ValueView::Boolean(boolean) => if boolean {
            "true"@
        } else {
            "false"@
        },
        ValueView::Number(bits) => text(bits),
        ValueView::String(characters) => characters,
    }
}

/// What running statements leaves: the lines that were printed, and the
/// runtime error that ended the run, if one did.
pub struct RunView {
    pub printed: Seq<Seq<char>>,
    pub failed: Option<InterpreterErrorView>,
}

/// What running `statements` in order leaves. Each print statement writes
/// the value of its expression as one line. The first runtime error ends
/// the run, and no statement after it is run.
pub open spec fn run_of(
    number: spec_fn(CalculationView) -> u64,
    ordering: spec_fn(u64, u64) -> Order,
    text: spec_fn(u64) -> Seq<char>,
    statements: Seq<StatementView>,
) -> RunView
    decreases statements.len(),
{
    if statements.len() == 0 {
        RunView { printed: Seq::empty(), failed: None }
    } else {
        match statements[0].kind {
            StatementKindView::Print(expression) => match value_of(number, ordering, expression) {
                Err(error) => RunView { printed: Seq::empty(), failed: Some(error) },
                Ok(value) => {
                    let rest = run_of(number, ordering, text, statements.skip(1));
                    RunView {
                        printed: seq![value_text(text, value)] + rest.printed,
                        failed: rest.failed,
                    }
                },
            },
        }
    }
}

/// Whether two runs end alike: with as many lines printed, and with the
/// same error or with none.
pub open spec fn ends_like(run: RunView, other: RunView) -> bool {
    run.printed.len() == other.printed.len() && run.failed == other.failed
}

/// The statements of a tree that can be run.
pub open spec fn statements_of(tree: TreeView) -> Option<Seq<StatementView>> {
    match tree {
        TreeView::Expression(_) => None,
        TreeView::Program(statements) => Some(statements),
        TreeView::Statement(statement) => Some(seq![statement]),
    }
}

/// What a tree evaluates to; a tree that is no expression does not.
pub open spec fn tree_value(
    number: spec_fn(CalculationView) -> u64,
    ordering: spec_fn(u64, u64) -> Order,
    tree: TreeView,
) -> Result<ValueView, InterpreterErrorView> {
    match tree {
        TreeView::Expression(expression) => value_of(number, ordering, expression),
        _ => Err(
            InterpreterErrorView { kind: ErrorKind::ExpectedExpression, line: tree_line(tree) },
        ),
    }
}

/// What running a tree leaves; a tree that is an expression does not run.
pub open spec fn tree_run(
    number: spec_fn(CalculationView) -> u64,
    ordering: spec_fn(u64, u64) -> Order,
    text: spec_fn(u64) -> Seq<char>,
    tree: TreeView,
) -> RunView {
    match statements_of(tree) {
        Some(statements) => run_of(number, ordering, text, statements),
        None => RunView {
            printed: Seq::empty(),
            failed: Some(
                InterpreterErrorView { kind: ErrorKind::ExpectedStatement, line: tree_line(tree) },
            ),
        },
    }
}

/// The model of what an evaluation returns.
pub open spec fn outcome_view(outcome: Result<Value, InterpreterError>) -> Result<
    ValueView,
    InterpreterErrorView,
> {
    match outcome {
        Ok(value) => Ok(value@),
        Err(error) => Err(error@),
    }
}

impl Value {
    /// Whether this value counts as true.
    pub fn is_truthy(&self) -> (r: bool)
        ensures
            r == truthy(self@),
    {
        match self {
            Value::Nil => false,
            Value::Boolean(value) => *value,
            _ => true,
        }
    }

    /// Whether this value equals `other`, where `order` compares numbers.
    pub fn equals<O: Fn(u64, u64) -> Order>(&self, other: &Value, order: &O) -> (equal: bool)
        requires
            forall|a: u64, b: u64| order.requires((a, b)),
        ensures
            forall|ordering: spec_fn(u64, u64) -> Order| #[trigger]
                arranges(order, ordering) ==> equal == equal_values(ordering, self@, other@),
            forall|ordering: spec_fn(u64, u64) -> Order|
                !(self@ is Number && other@ is Number) ==> equal == #[trigger] equal_values(
                    ordering,
                    self@,
                    other@,
                ),
    {
        match self {
            Value::Boolean(a) => match other {
                Value::Boolean(b) => *a == *b,
                _ => false,
            },
            Value::Nil => match other {
                Value::Nil => true,
                _ => false,
            },
            Value::Number(a) => match other {
                Value::Number(b) => {
                    let found = order(*a, *b);
                    assert(orders(order, *a, *b, found));
                    found == Order::Equal
                },
                _ => false,
            },
            Value::String(a) => match other {
                Value::String(b) => *a == *b,
                _ => false,
            },
        }
    }

    /// This value as text, where `show` writes a number.
    pub fn display<S: Fn(u64) -> String>(&self, show: &S) -> (shown: String)
        requires
            forall|bits: u64| show.requires((bits,)),
        ensures
            forall|text: spec_fn(u64) -> Seq<char>| #[trigger]
                displays(show, text) ==> shown@ == value_text(text, self@),
            forall|text: spec_fn(u64) -> Seq<char>|
                !(self@ is Number) ==> shown@ == #[trigger] value_text(text, self@),
    {
        match self {
            Value::Nil => "nil".to_owned(),
            Value::Boolean(value) => if *value {
                "true".to_owned()
            } else {
                "false".to_owned()
            },
            Value::Number(bits) => {
                let shown = show(*bits);
                assert(writes(show, *bits, shown));
                shown
            },
            Value::String(value) => value.clone(),
        }
    }
}

/// Whether a comparison holds of two numbers that stand in `order`.
pub fn comparison_holds(operator: ComparisonOperator, order: Order) -> (r: bool)
    ensures
        r == holds(operator, order),
{
    match operator {
        ComparisonOperator::Equal => order == Order::Equal,
        ComparisonOperator::NotEqual => order != Order::Equal,
        ComparisonOperator::LessThan => order == Order::Less,
        ComparisonOperator::LessEqual => order == Order::Less || order == Order::Equal,
        ComparisonOperator::GreaterThan => order == Order::Greater,
        ComparisonOperator::GreaterEqual => order == Order::Greater || order == Order::Equal,
    }
}

/// What a prefix operator makes of the value of its operand, which stands
/// on `line`.
pub fn apply_logical<C: Fn(Calculation) -> u64>(
    operator: LogicalOperator,
    operand: Value,
    line: usize,
    calculate: &C,
) -> (outcome: Result<Value, InterpreterError>)
    requires
        forall|calculation: Calculation| calculate.requires((calculation,)),
    ensures
        forall|number: spec_fn(CalculationView) -> u64| #[trigger]
            computes(calculate, number) ==> outcome_view(outcome) == logical_value(
                number,
                operator,
                operand@,
                line as nat,
            ),
        forall|number: spec_fn(CalculationView) -> u64, other: ValueView|
            kind_of_value(other) == kind_of_value(operand@) ==> kind_of_outcome(
                #[trigger] logical_value(number, operator, other, line as nat),
            ) == kind_of_outcome(outcome_view(outcome)),
{
    match operator {
        LogicalOperator::Not => Ok(Value::Boolean(!operand.is_truthy())),
        LogicalOperator::Negate => match operand {
            Value::Number(bits) => {
                let negative = calculate(Calculation::Negate(bits));
                assert(answers(calculate, Calculation::Negate(bits), negative));
                Ok(Value::Number(negative))
            },
            _ => Err(InterpreterError::new(ErrorKind::OperandMustBeNumber, line)),
        },
    }
}

/// What an arithmetic operator makes of the values of its operands, of
/// which the left one stands on `line`.
pub fn apply_arithmetic<C: Fn(Calculation) -> u64>(
    operator: ArithmeticOperator,
    left: Value,
    right: Value,
    line: usize,
    calculate: &C,
) -> (outcome: Result<Value, InterpreterError>)
    requires
        forall|calculation: Calculation| calculate.requires((calculation,)),
    ensures
        forall|number: spec_fn(CalculationView) -> u64| #[trigger]
            computes(calculate, number) ==> outcome_view(outcome) == arithmetic_value(
                number,
                operator,
                left@,
                right@,
                line as nat,
            ),
        forall|number: spec_fn(CalculationView) -> u64, first: ValueView, second: ValueView|
            kind_of_value(first) == kind_of_value(left@) && kind_of_value(second) == kind_of_value(
                right@,
            ) ==> kind_of_outcome(
                #[trigger] arithmetic_value(number, operator, first, second, line as nat),
            ) == kind_of_outcome(outcome_view(outcome)),
{
    match (left, right) {
        (Value::Number(a), Value::Number(b)) => {
            let bits = calculate(Calculation::Arithmetic(operator, a, b));
            assert(answers(calculate, Calculation::Arithmetic(operator, a, b), bits));
            Ok(Value::Number(bits))
        },
        (Value::String(a), Value::String(b)) => {
            match operator {
                ArithmeticOperator::Add => {
                    let mut joined = a;
                    joined.append(b.as_str());
                    Ok(Value::String(joined))
                },
                _ => Err(InterpreterError::new(ErrorKind::OperandsMustBeNumbers, line)),
            }
        },
        _ => {
            match operator {
                ArithmeticOperator::Add => Err(
                    InterpreterError::new(ErrorKind::OperandsMustBeNumbersOrStrings, line),
                ),
                _ => Err(InterpreterError::new(ErrorKind::OperandsMustBeNumbers, line)),
            }
        },
    }
}

/// What a comparison makes of the values of its operands, of which the left
/// one stands on `line`.
pub fn apply_comparison<O: Fn(u64, u64) -> Order>(
    operator: ComparisonOperator,
    left: Value,
    right: Value,
    line: usize,
    order: &O,
) -> (outcome: Result<Value, InterpreterError>)
    requires
        forall|a: u64, b: u64| order.requires((a, b)),
    ensures
        forall|ordering: spec_fn(u64, u64) -> Order| #[trigger]
            arranges(order, ordering) ==> outcome_view(outcome) == comparison_value(
                ordering,
                operator,
                left@,
                right@,
                line as nat,
            ),
        forall|ordering: spec_fn(u64, u64) -> Order, first: ValueView, second: ValueView|
            kind_of_value(first) == kind_of_value(left@) && kind_of_value(second) == kind_of_value(
                right@,
            ) ==> kind_of_outcome(
                #[trigger] comparison_value(ordering, operator, first, second, line as nat),
            ) == kind_of_outcome(outcome_view(outcome)),
{
    match operator {
        ComparisonOperator::Equal => Ok(Value::Boolean(left.equals(&right, order))),
        ComparisonOperator::NotEqual => Ok(Value::Boolean(!left.equals(&right, order))),
        _ => match (left, right) {
            (Value::Number(a), Value::Number(b)) => {
                let found = order(a, b);
                assert(orders(order, a, b, found));
                Ok(Value::Boolean(comparison_holds(operator, found)))
            },
            _ => Err(InterpreterError::new(ErrorKind::OperandsMustBeNumbers, line)),
        },
    }
}

/// Evaluates an expression. `calculate` and `order` are the arithmetic of
/// numbers.
///
/// Where the two compute functions of their arguments, the outcome is what
/// [`value_of`] gives with these functions. Whatever they answer, the
/// outcome is of the kind that [`value_of`] gives with any arithmetic: the
/// same error on the same line, or a value of the same kind.
pub fn evaluate_expression<C: Fn(Calculation) -> u64, O: Fn(u64, u64) -> Order>(
    expression: &Expression,
    calculate: &C,
    order: &O,
) -> (outcome: Result<Value, InterpreterError>)
    requires
        forall|calculation: Calculation| calculate.requires((calculation,)),
        forall|a: u64, b: u64| order.requires((a, b)),
    ensures
        forall|number: spec_fn(CalculationView) -> u64, ordering: spec_fn(u64, u64) -> Order|
            #![trigger computes(calculate, number), arranges(order, ordering)]
            computes(calculate, number) && arranges(order, ordering) ==> outcome_view(outcome)
                == value_of(number, ordering, expression@),
        forall|number: spec_fn(CalculationView) -> u64, ordering: spec_fn(u64, u64) -> Order|
            kind_of_outcome(#[trigger] value_of(number, ordering, expression@)) == kind_of_outcome(
                outcome_view(outcome),
            ),
    decreases expression,
{
    match &expression.kind {
        ExpressionKind::Primitive(primitive) => match primitive {
            Primitive::Boolean(value) => Ok(Value::Boolean(*value)),
            Primitive::Nil => Ok(Value::Nil),
            Primitive::Number(literal) => {
                let written = literal.clone();
                let bits = calculate(Calculation::Literal(written));
                assert(answers(calculate, Calculation::Literal(written), bits));
                Ok(Value::Number(bits))
            },
            Primitive::String(value) => Ok(Value::String(value.clone())),
        },
        ExpressionKind::Operation(operation) => match operation {
            Operation::Group(inside) => {
                let outcome = evaluate_expression(inside, calculate, order);
                assert forall|
                    number: spec_fn(CalculationView) -> u64,
                    ordering: spec_fn(u64, u64) -> Order,
                | kind_of_outcome(#[trigger] value_of(number, ordering, expression@))
                    == kind_of_outcome(outcome_view(outcome)) by {
                    assert(value_of(number, ordering, expression@) == value_of(
                        number,
                        ordering,
                        inside@,
                    ));
                }
                outcome
            },
            Operation::Logical { operator, expression: operand } => {
                let inner = evaluate_expression(operand, calculate, order);
                let ghost first = outcome_view(inner);
                let outcome = match inner {
                    Ok(value) => apply_logical(*operator, value, operand.line, calculate),
                    Err(error) => Err(error),
                };
                assert forall|
                    number: spec_fn(CalculationView) -> u64,
                    ordering: spec_fn(u64, u64) -> Order,
                | kind_of_outcome(#[trigger] value_of(number, ordering, expression@))
                    == kind_of_outcome(outcome_view(outcome)) by {
                    assert(kind_of_outcome(value_of(number, ordering, operand@)) == kind_of_outcome(
                        first,
                    ));
                }
                outcome
            },
            Operation::Arithmetic { operator, a, b } => {
                let left = evaluate_expression(a, calculate, order);
                let ghost first = outcome_view(left);
                let ghost mut second = first;
                let outcome = match left {
                    Ok(left) => {
                        let right = evaluate_expression(b, calculate, order);
                        proof {
                            second = outcome_view(right);
                        }
                        match right {
                            Ok(right) => apply_arithmetic(
                                *operator,
                                left,
                                right,
                                a.line,
                                calculate,
                            ),
                            Err(error) => Err(error),
                        }
                    },
                    Err(error) => Err(error),
                };
                assert forall|
                    number: spec_fn(CalculationView) -> u64,
                    ordering: spec_fn(u64, u64) -> Order,
                | kind_of_outcome(#[trigger] value_of(number, ordering, expression@))
                    == kind_of_outcome(outcome_view(outcome)) by {
                    assert(kind_of_outcome(value_of(number, ordering, a@)) == kind_of_outcome(
                        first,
                    ));
                    if first is Ok {
                        assert(kind_of_outcome(value_of(number, ordering, b@)) == kind_of_outcome(
                            second,
                        ));
                    }
                }
                outcome
            },
            Operation::Comparison { operator, a, b } => {
                let left = evaluate_expression(a, calculate, order);
                let ghost first = outcome_view(left);
                let ghost mut second = first;
                let outcome = match left {
                    Ok(left) => {
                        let right = evaluate_expression(b, calculate, order);
                        proof {
                            second = outcome_view(right);
                        }
                        match right {
                            Ok(right) => apply_comparison(*operator, left, right, a.line, order),
                            Err(error) => Err(error),
                        }
                    },
                    Err(error) => Err(error),
                };
                assert forall|
                    number: spec_fn(CalculationView) -> u64,
                    ordering: spec_fn(u64, u64) -> Order,
                | kind_of_outcome(#[trigger] value_of(number, ordering, expression@))
                    == kind_of_outcome(outcome_view(outcome)) by {
                    assert(kind_of_outcome(value_of(number, ordering, a@)) == kind_of_outcome(
                        first,
                    ));
                    if first is Ok {
                        assert(kind_of_outcome(value_of(number, ordering, b@)) == kind_of_outcome(
                            second,
                        ));
                    }
                }
                outcome
            },
        },
    }
}

/// What a run leaves: the lines that it printed, in order, and the runtime
/// error that ended it, if one did.
#[derive(Debug, PartialEq, Eq)]
pub struct Run {
    pub printed: Vec<String>,
    pub outcome: Result<(), InterpreterError>,
}

impl View for Run {
    type V = RunView;

    open spec fn view(&self) -> RunView {
        RunView {
            printed: self.printed.deep_view(),
            failed: match self.outcome {
                Ok(_) => None,
                Err(error) => Some(error@),
            },
        }
    }
}

/// Runs statements in order, up to the first runtime error.
///
/// Where the arithmetic and `show` compute functions of their arguments,
/// the run is what [`run_of`] gives with these functions. Whatever they
/// answer, the run ends as [`run_of`] ends with any arithmetic: after as
/// many lines, and with the same error or with none.
pub fn execute_statements<
    C: Fn(Calculation) -> u64,
    O: Fn(u64, u64) -> Order,
    S: Fn(u64) -> String,
>(statements: &Vec<Statement>, calculate: &C, order: &O, show: &S) -> (run: Run)
    requires
        forall|calculation: Calculation| calculate.requires((calculation,)),
        forall|a: u64, b: u64| order.requires((a, b)),
        forall|bits: u64| show.requires((bits,)),
    ensures
        forall|
            number: spec_fn(CalculationView) -> u64,
            ordering: spec_fn(u64, u64) -> Order,
            text: spec_fn(u64) -> Seq<char>,
        |
            #![trigger computes(calculate, number), arranges(order, ordering), displays(show, text)]
            computes(calculate, number) && arranges(order, ordering) && displays(show, text)
                ==> run@ == run_of(number, ordering, text, statements.deep_view()),
        forall|
            number: spec_fn(CalculationView) -> u64,
            ordering: spec_fn(u64, u64) -> Order,
            text: spec_fn(u64) -> Seq<char>,
        |
            ends_like(run@, #[trigger] run_of(number, ordering, text, statements.deep_view())),
{
    let mut printed: Vec<String> = Vec::new();
    let mut index: usize = 0;
    let ghost all = statements.deep_view();
    assert(all.skip(0) == all);
    while index < statements.len()
        invariant
            index <= statements.len(),
            all == statements.deep_view(),
            forall|calculation: Calculation| calculate.requires((calculation,)),
            forall|a: u64, b: u64| order.requires((a, b)),
            forall|bits: u64| show.requires((bits,)),
            forall|
                number: spec_fn(CalculationView) -> u64,
                ordering: spec_fn(u64, u64) -> Order,
                text: spec_fn(u64) -> Seq<char>,
            |
                #![trigger computes(calculate, number), arranges(order, ordering), displays(show, text)]
                computes(calculate, number) && arranges(order, ordering) && displays(show, text)
                    ==> run_of(number, ordering, text, all) == (RunView {
                    printed: printed.deep_view() + run_of(
                        number,
                        ordering,
                        text,
                        all.skip(index as int),
                    ).printed,
                    failed: run_of(number, ordering, text, all.skip(index as int)).failed,
                }),
            printed.len() == index,
            forall|
                number: spec_fn(CalculationView) -> u64,
                ordering: spec_fn(u64, u64) -> Order,
                text: spec_fn(u64) -> Seq<char>,
            |
                ({
                    let whole = run_of(number, ordering, text, all);
                    let rest = #[trigger] run_of(number, ordering, text, all.skip(index as int));
                    whole.failed == rest.failed && whole.printed.len() == index + rest.printed.len()
                }),
        decreases statements.len() - index,
    {
        let ghost lines = printed.deep_view();
        assert(all.skip(index as int).skip(1) == all.skip(index + 1));
        match &statements[index].kind {
            StatementKind::Print(expression) => {
                match evaluate_expression(expression, calculate, order) {
                    Err(error) => {
                        assert forall|
                            number: spec_fn(CalculationView) -> u64,
                            ordering: spec_fn(u64, u64) -> Order,
                            text: spec_fn(u64) -> Seq<char>,
                        |
                            (#[trigger] run_of(
                                number,
                                ordering,
                                text,
                                all.skip(index as int),
                            )) == (RunView { printed: Seq::empty(), failed: Some(error@) }) by {
                            assert(kind_of_outcome(value_of(number, ordering, expression@))
                                == Err::<ValueView, InterpreterErrorView>(error@));
                        }
                        let run = Run { printed, outcome: Err(error) };
                        assert forall|
                            number: spec_fn(CalculationView) -> u64,
                            ordering: spec_fn(u64, u64) -> Order,
                            text: spec_fn(u64) -> Seq<char>,
                        | ends_like(run@, #[trigger] run_of(number, ordering, text, all)) by {
                            assert(run_of(number, ordering, text, all.skip(index as int)).failed
                                == Some(error@));
                        }
                        return run;
                    },
                    Ok(value) => {
                        let line = value.display(show);
                        printed.push(line);
                        assert forall|
                            number: spec_fn(CalculationView) -> u64,
                            ordering: spec_fn(u64, u64) -> Order,
                            text: spec_fn(u64) -> Seq<char>,
                        |
                            ({
                                let whole = run_of(number, ordering, text, all);
                                let rest = #[trigger] run_of(
                                    number,
                                    ordering,
                                    text,
                                    all.skip(index + 1),
                                );
                                whole.failed == rest.failed && whole.printed.len() == index + 1
                                    + rest.printed.len()
                            }) by {
                            let now = run_of(number, ordering, text, all.skip(index as int));
                            assert(kind_of_outcome(value_of(number, ordering, expression@)) is Ok);
                            assert(now.failed == run_of(
                                number,
                                ordering,
                                text,
                                all.skip(index + 1),
                            ).failed);
                        }
                        proof {
                            assert(printed.deep_view() == lines.push(line@));
                            assert forall|
                                number: spec_fn(CalculationView) -> u64,
                                ordering: spec_fn(u64, u64) -> Order,
                                text: spec_fn(u64) -> Seq<char>,
                            |
                                #![trigger computes(calculate, number), arranges(order, ordering), displays(show, text)]
                                computes(calculate, number) && arranges(order, ordering)
                                    && displays(show, text) implies run_of(
                                number,
                                ordering,
                                text,
                                all,
                            ) == (RunView {
                                printed: printed.deep_view() + run_of(
                                    number,
                                    ordering,
                                    text,
                                    all.skip(index + 1),
                                ).printed,
                                failed: run_of(number, ordering, text, all.skip(index + 1)).failed,
                            }) by {
                                let rest = run_of(number, ordering, text, all.skip(index + 1));
                                assert(lines + (seq![line@] + rest.printed) == lines.push(line@)
                                    + rest.printed);
                            }
                        }
                    },
                }
            },
        }
        index = index + 1;
    }
    let run = Run { printed, outcome: Ok(()) };
    assert forall|
        number: spec_fn(CalculationView) -> u64,
        ordering: spec_fn(u64, u64) -> Order,
        text: spec_fn(u64) -> Seq<char>,
    | ends_like(run@, #[trigger] run_of(number, ordering, text, all)) by {
        assert(run_of(number, ordering, text, all.skip(index as int)).failed is None);
    }
    run
}

/// The interpreter of one tree.
pub struct Interpreter {
    pub tree: Tree,
}

impl Interpreter {
    /// The interpreter of `tree`.
    pub fn new(tree: Tree) -> (interpreter: Interpreter)
        ensures
            interpreter.tree == tree,
    {
        Interpreter { tree }
    }

    /// Evaluates the tree, which has to be an expression.
    pub fn evaluate<C: Fn(Calculation) -> u64, O: Fn(u64, u64) -> Order>(
        self,
        calculate: &C,
        order: &O,
    ) -> (outcome: Result<Value, InterpreterError>)
        requires
            forall|calculation: Calculation| calculate.requires((calculation,)),
            forall|a: u64, b: u64| order.requires((a, b)),
        ensures
            forall|number: spec_fn(CalculationView) -> u64, ordering: spec_fn(u64, u64) -> Order|
                #![trigger computes(calculate, number), arranges(order, ordering)]
                computes(calculate, number) && arranges(order, ordering) ==> outcome_view(outcome)
                    == tree_value(number, ordering, self.tree@),
            forall|number: spec_fn(CalculationView) -> u64, ordering: spec_fn(u64, u64) -> Order|
                kind_of_outcome(#[trigger] tree_value(number, ordering, self.tree@))
                    == kind_of_outcome(outcome_view(outcome)),
    {
        match &self.tree {
            Tree::Expression(expression) => evaluate_expression(expression, calculate, order),
            _ => Err(InterpreterError::new(ErrorKind::ExpectedExpression, self.tree.line())),
        }
    }

    /// Runs the tree, which has to be a statement or a program.
    pub fn run<C: Fn(Calculation) -> u64, O: Fn(u64, u64) -> Order, S: Fn(u64) -> String>(
        self,
        calculate: &C,
        order: &O,
        show: &S,
    ) -> (run: Run)
        requires
            forall|calculation: Calculation| calculate.requires((calculation,)),
            forall|a: u64, b: u64| order.requires((a, b)),
            forall|bits: u64| show.requires((bits,)),
        ensures
            forall|
                number: spec_fn(CalculationView) -> u64,
                ordering: spec_fn(u64, u64) -> Order,
                text: spec_fn(u64) -> Seq<char>,
            |
                #![trigger computes(calculate, number), arranges(order, ordering), displays(show, text)]
                computes(calculate, number) && arranges(order, ordering) && displays(show, text)
                    ==> run@ == tree_run(number, ordering, text, self.tree@),
            forall|
                number: spec_fn(CalculationView) -> u64,
                ordering: spec_fn(u64, u64) -> Order,
                text: spec_fn(u64) -> Seq<char>,
            |
                ends_like(run@, #[trigger] tree_run(number, ordering, text, self.tree@)),
    {
        match self.tree {
            Tree::Expression(expression) => {
                let run = Run {
                    printed: Vec::new(),
                    outcome: Err(
                        InterpreterError::new(ErrorKind::ExpectedStatement, expression.line),
                    ),
                };
                assert(run.printed.deep_view() == Seq::<Seq<char>>::empty());
                run
            },
            Tree::Program(statements) => execute_statements(&statements, calculate, order, show),
            Tree::Statement(statement) => {
                let mut statements: Vec<Statement> = Vec::new();
                statements.push(statement);
                assert(statements.deep_view() == seq![statement@]);
                execute_statements(&statements, calculate, order, show)
            },
        }
    }
}

} // verus!
