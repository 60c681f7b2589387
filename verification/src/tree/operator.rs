//! The operators of the language and how strongly they bind.

use vstd::prelude::*;
use vstd::std_specs::convert::FromSpecImpl;

verus! {

/// The operators of arithmetic; `Add` also joins strings.
#[derive(Clone, Copy, Debug, PartialEq, Eq, Structural)]
pub enum ArithmeticOperator {
    Add,
    Divide,
    Multiply,
    Subtract,
}

/// The operators that compare two values.
#[derive(Clone, Copy, Debug, PartialEq, Eq, Structural)]
pub enum ComparisonOperator {
    Equal,
    GreaterEqual,
    GreaterThan,
    LessEqual,
    LessThan,
    NotEqual,
}

/// The operators that stand before their one operand.
#[derive(Clone, Copy, Debug, PartialEq, Eq, Structural)]
pub enum LogicalOperator {
    Negate,
    Not,
}

/// Any operator.
#[derive(Clone, Copy, Debug, PartialEq, Eq, Structural)]
pub enum Operator {
    Arithmetic(ArithmeticOperator),
    Comparison(ComparisonOperator),
    Logical(LogicalOperator),
}

/// How strongly an operator binds what stands to its left and to its right.
/// The higher power binds tighter; an operator that takes nothing on one
/// side has no power there.
pub trait Strength {
    spec fn strength(&self) -> (Option<u8>, Option<u8>);

    fn binding_power(&self) -> (power: (Option<u8>, Option<u8>))
        ensures
            power == self.strength(),
    ;
}

impl Strength for ArithmeticOperator {
    open spec fn strength(&self) -> (Option<u8>, Option<u8>) {
        match self {
            ArithmeticOperator::Add | ArithmeticOperator::Subtract => (Some(1u8), Some(2u8)),
            ArithmeticOperator::Divide | ArithmeticOperator::Multiply => (Some(3u8), Some(4u8)),
        }
    }

    fn binding_power(&self) -> (power: (Option<u8>, Option<u8>)) {
        match self {
            ArithmeticOperator::Add | ArithmeticOperator::Subtract => (Some(1), Some(2)),
            ArithmeticOperator::Divide | ArithmeticOperator::Multiply => (Some(3), Some(4)),
        }
    }
}

impl Strength for ComparisonOperator {
    open spec fn strength(&self) -> (Option<u8>, Option<u8>) {
        (Some(5u8), Some(6u8))
    }

    fn binding_power(&self) -> (power: (Option<u8>, Option<u8>)) {
        (Some(5), Some(6))
    }
}

impl Strength for LogicalOperator {
    open spec fn strength(&self) -> (Option<u8>, Option<u8>) {
        (None, Some(u8::MAX))
    }

    fn binding_power(&self) -> (power: (Option<u8>, Option<u8>)) {
        (None, Some(u8::MAX))
    }
}

impl Strength for Operator {
    open spec fn strength(&self) -> (Option<u8>, Option<u8>) {
        match self {
            Operator::Arithmetic(operator) => operator.strength(),
            Operator::Comparison(operator) => operator.strength(),
            Operator::Logical(operator) => operator.strength(),
        }
    }

    fn binding_power(&self) -> (power: (Option<u8>, Option<u8>)) {
        match self {
            Operator::Arithmetic(operator) => operator.binding_power(),
            Operator::Comparison(operator) => operator.binding_power(),
            Operator::Logical(operator) => operator.binding_power(),
        }
    }
}

impl From<ArithmeticOperator> for Operator {
    fn from(operator: ArithmeticOperator) -> (result: Operator) {
        Operator::Arithmetic(operator)
    }
}

impl FromSpecImpl<ArithmeticOperator> for Operator {
    open spec fn obeys_from_spec() -> bool {
        true
    }

    open spec fn from_spec(operator: ArithmeticOperator) -> Operator {
        Operator::Arithmetic(operator)
    }
}

impl From<ComparisonOperator> for Operator {
    fn from(operator: ComparisonOperator) -> (result: Operator) {
        Operator::Comparison(operator)
    }
}

impl FromSpecImpl<ComparisonOperator> for Operator {
    open spec fn obeys_from_spec() -> bool {
        true
    }

    open spec fn from_spec(operator: ComparisonOperator) -> Operator {
        Operator::Comparison(operator)
    }
}

impl From<LogicalOperator> for Operator {
    fn from(operator: LogicalOperator) -> (result: Operator) {
        Operator::Logical(operator)
    }
}

impl FromSpecImpl<LogicalOperator> for Operator {
    open spec fn obeys_from_spec() -> bool {
        true
    }

    open spec fn from_spec(operator: LogicalOperator) -> Operator {
        Operator::Logical(operator)
    }
}

impl ArithmeticOperator {
    /// The symbol of the operator.
    pub open spec fn symbol(self) -> Seq<char> {
        match self {
            ArithmeticOperator::Add => "+"@,
            ArithmeticOperator::Divide => "/"@,
            ArithmeticOperator::Multiply => "*"@,
            ArithmeticOperator::Subtract => "-"@,
        }
    }

    /// The symbol of the operator.
    pub fn to_string(&self) -> (text: String)
        ensures
            text@ == self.symbol(),
    {
        match self {
            ArithmeticOperator::Add => "+".to_owned(),
            ArithmeticOperator::Divide => "/".to_owned(),
            ArithmeticOperator::Multiply => "*".to_owned(),
            ArithmeticOperator::Subtract => "-".to_owned(),
        }
    }
}

impl ComparisonOperator {
    /// The symbol of the operator.
    pub open spec fn symbol(self) -> Seq<char> {
        match self {
            ComparisonOperator::Equal => "=="@,
            ComparisonOperator::GreaterEqual => ">="@,
            ComparisonOperator::GreaterThan => ">"@,
            ComparisonOperator::LessEqual => "<="@,
            ComparisonOperator::LessThan => "<"@,
            ComparisonOperator::NotEqual => "!="@,
        }
    }

    /// The symbol of the operator.
    pub fn to_string(&self) -> (text: String)
        ensures
            text@ == self.symbol(),
    {
        match self {
            ComparisonOperator::Equal => "==".to_owned(),
            ComparisonOperator::GreaterEqual => ">=".to_owned(),
            ComparisonOperator::GreaterThan => ">".to_owned(),
            ComparisonOperator::LessEqual => "<=".to_owned(),
            ComparisonOperator::LessThan => "<".to_owned(),
            ComparisonOperator::NotEqual => "!=".to_owned(),
        }
    }
}

impl LogicalOperator {
    /// The symbol of the operator.
    pub open spec fn symbol(self) -> Seq<char> {
        match self {
            LogicalOperator::Negate => "-"@,
            LogicalOperator::Not => "!"@,
        }
    }

    /// The symbol of the operator.
    pub fn to_string(&self) -> (text: String)
        ensures
            text@ == self.symbol(),
    {
        match self {
            LogicalOperator::Negate => "-".to_owned(),
            LogicalOperator::Not => "!".to_owned(),
        }
    }
}

impl Operator {
    /// The symbol of the operator.
    pub open spec fn symbol(self) -> Seq<char> {
        match self {
            Operator::Arithmetic(operator) => operator.symbol(),
            Operator::Comparison(operator) => operator.symbol(),
            Operator::Logical(operator) => operator.symbol(),
        }
    }

    /// The symbol of the operator.
    pub fn to_string(&self) -> (text: String)
        ensures
            text@ == self.symbol(),
    {
        match self {
            Operator::Arithmetic(operator) => operator.to_string(),
            Operator::Comparison(operator) => operator.to_string(),
            Operator::Logical(operator) => operator.to_string(),
        }
    }
}

} // verus!
