//! The parser: from tokens to a tree, by precedence climbing.
//!
//! The grammar is defined on sequences of tokens by [`parse_expression`],
//! [`parse_statement`] and [`parse`]; [`Parser`] computes the same trees.

pub mod laws;

use crate::text::{decimal, push_decimal};
use crate::token::{token_type, Token, TokenKind, TokenKindView, TokenView};
use crate::tree::expression::{
    Expression, ExpressionKindView, ExpressionView, Operation, Primitive, PrimitiveView,
};
use crate::tree::operator::{
    ArithmeticOperator, ComparisonOperator, LogicalOperator, Operator, Strength,
};
use crate::tree::statement::{Statement, StatementKind, StatementKindView, StatementView};
use crate::tree::{Tree, TreeView};
use vstd::prelude::*;

verus! {

/// What went wrong in a parse.
#[derive(Debug, Clone, PartialEq, Eq)]
pub enum ErrorKind {
    /// The tokens ended where one more was needed.
    UnexpectedEof,
    /// A token that cannot stand where it was found; `expected` names the
    /// token that had to stand there, where there is only one.
    UnexpectedToken { found: TokenKind, expected: Option<TokenKind> },
}

/// The first error of a parse and the line that it speaks of.
#[derive(Debug, Clone, PartialEq, Eq)]
pub struct ParserError {
    pub kind: ErrorKind,
    pub line: usize,
}

/// The mathematical model of an [`ErrorKind`].
pub enum ErrorKindView {
    UnexpectedEof,
    UnexpectedToken { found: TokenKindView, expected: Option<TokenKindView> },
}

/// The mathematical model of a [`ParserError`].
pub struct ParserErrorView {
    pub kind: ErrorKindView,
    pub line: nat,
}

impl View for ErrorKind {
    type V = ErrorKindView;

    open spec fn view(&self) -> ErrorKindView {
        match self {
            ErrorKind::UnexpectedEof => ErrorKindView::UnexpectedEof,
            ErrorKind::UnexpectedToken { found, expected } => ErrorKindView::UnexpectedToken {
                found: found@,
                expected: match expected {
                    Some(kind) => Some(kind@),
                    None => None,
                },
            },
        }
    }
}

impl View for ParserError {
    type V = ParserErrorView;

    open spec fn view(&self) -> ParserErrorView {
        ParserErrorView { kind: self.kind@, line: self.line as nat }
    }
}

/// The message of a parser error.
pub open spec fn parser_error_text(error: ParserErrorView) -> Seq<char> {
    match error.kind {
        ErrorKindView::UnexpectedEof => "unexpected EOF\n[line "@ + decimal(error.line) + "]"@,
        ErrorKindView::UnexpectedToken { found, expected } => match expected {
            Some(expected) => "found unexpected token `"@ + token_type(found) + "`, expected `"@
                + token_type(expected) + "`\n[line "@ + decimal(error.line) + "]"@,
            None => "found unexpected token `"@ + token_type(found) + "`\n[line "@ + decimal(
                error.line,
            ) + "]"@,
        },
    }
}

impl ParserError {
    /// The error of `kind` that speaks of `line`.
    pub fn new(kind: ErrorKind, line: usize) -> (error: ParserError)
        ensures
            error.kind == kind,
            error.line == line,
    {
        ParserError { kind, line }
    }

    /// The message of this error.
    pub fn to_string(&self) -> (text: String)
        ensures
            text@ == parser_error_text(self@),
    {
        let mut text = String::new();
        match &self.kind {
            ErrorKind::UnexpectedEof => {
                text.append("unexpected EOF\n[line ");
            },
            ErrorKind::UnexpectedToken { found, expected } => {
                text.append("found unexpected token `");
                text.append(found.label().as_str());
                match expected {
                    Some(expected) => {
                        text.append("`, expected `");
                        text.append(expected.label().as_str());
                    },
                    None => {},
                }
                text.append("`\n[line ");
            },
        }
        push_decimal(&mut text, self.line);
        text.append("]");
        text
    }
}

/// The error for tokens that end too early.
pub open spec fn ended(line: nat) -> ParserErrorView {
    ParserErrorView { kind: ErrorKindView::UnexpectedEof, line }
}

/// The error for a token that cannot stand where it was found.
pub open spec fn unexpected(token: TokenView, expected: Option<TokenKindView>) -> ParserErrorView {
    ParserErrorView {
        kind: ErrorKindView::UnexpectedToken { found: token.kind, expected },
        line: token.line,
    }
}

/// The primitive that a token stands for, if it stands for one.
pub open spec fn primitive_of(kind: TokenKindView) -> Option<PrimitiveView> {
    match kind {
        TokenKindView::False => Some(PrimitiveView::Boolean(false)),
        TokenKindView::True => Some(PrimitiveView::Boolean(true)),
        TokenKindView::Nil => Some(PrimitiveView::Nil),
        TokenKindView::Number { literal } => Some(PrimitiveView::Number(literal)),
        TokenKindView::String { value } => Some(PrimitiveView::String(value)),
        _ => None,
    }
}

/// The operator that a token is when it stands before its operand.
pub open spec fn prefix_operator(kind: TokenKindView) -> Option<LogicalOperator> {
    match kind {
        TokenKindView::Bang => Some(LogicalOperator::Not),
        TokenKindView::Minus => Some(LogicalOperator::Negate),
        _ => None,
    }
}

/// The operator that a token is when it stands between two operands.
pub open spec fn binary_operator(kind: TokenKindView) -> Option<Operator> {
    match kind {
        TokenKindView::Minus => Some(Operator::Arithmetic(ArithmeticOperator::Subtract)),
        TokenKindView::Plus => Some(Operator::Arithmetic(ArithmeticOperator::Add)),
        TokenKindView::Slash => Some(Operator::Arithmetic(ArithmeticOperator::Divide)),
        TokenKindView::Star => Some(Operator::Arithmetic(ArithmeticOperator::Multiply)),
        TokenKindView::EqualEqual => Some(Operator::Comparison(ComparisonOperator::Equal)),
        TokenKindView::Greater => Some(Operator::Comparison(ComparisonOperator::GreaterThan)),
        TokenKindView::GreaterEqual => Some(Operator::Comparison(ComparisonOperator::GreaterEqual)),
        TokenKindView::Less => Some(Operator::Comparison(ComparisonOperator::LessThan)),
        TokenKindView::LessEqual => Some(Operator::Comparison(ComparisonOperator::LessEqual)),
        TokenKindView::BangEqual => Some(Operator::Comparison(ComparisonOperator::NotEqual)),
        _ => None,
    }
}

/// The tokens at which an expression ends without error.
pub open spec fn ends_expression(kind: TokenKindView) -> bool {
    kind is Eof || kind is RightParenthesis || kind is Semicolon
}

/// The expression for a primitive that stands on `line`.
pub open spec fn primitive_expression(primitive: PrimitiveView, line: nat) -> ExpressionView {
    ExpressionView { kind: ExpressionKindView::Primitive(primitive), line }
}

/// The expression for a pair of parentheses that opens on `line`.
pub open spec fn group_expression(inside: ExpressionView, line: nat) -> ExpressionView {
    ExpressionView { kind: ExpressionKindView::Group(Box::new(inside)), line }
}

/// The expression for a prefix operator that stands on `line`.
pub open spec fn logical_expression(
    operator: LogicalOperator,
    operand: ExpressionView,
    line: nat,
) -> ExpressionView {
    ExpressionView {
        kind: ExpressionKindView::Logical { operator, expression: Box::new(operand) },
        line,
    }
}

/// The expression for `left operator right`, which begins where `left`
/// begins. A prefix operator joins nothing and leaves `left` as it is.
pub open spec fn binary_expression(
    operator: Operator,
    left: ExpressionView,
    right: ExpressionView,
) -> ExpressionView {
    match operator {
        Operator::Arithmetic(operator) => ExpressionView {
            kind: ExpressionKindView::Arithmetic {
                operator,
                a: Box::new(left),
                b: Box::new(right),
            },
            line: left.line,
        },
        Operator::Comparison(operator) => ExpressionView {
            kind: ExpressionKindView::Comparison {
                operator,
                a: Box::new(left),
                b: Box::new(right),
            },
            line: left.line,
        },
        Operator::Logical(_) => left,
    }
}

/// What parsing an expression gives: the expression or the first error, and
/// the tokens that are left after an expression.
pub struct ParsedExpression {
    pub result: Result<ExpressionView, ParserErrorView>,
    pub rest: Seq<TokenView>,
}

/// What parsing a statement gives.
pub struct ParsedStatement {
    pub result: Result<StatementView, ParserErrorView>,
    pub rest: Seq<TokenView>,
}

/// A parse that failed.
pub open spec fn failed(error: ParserErrorView) -> ParsedExpression {
    ParsedExpression { result: Err(error), rest: Seq::empty() }
}

/// The expression at the start of `tokens`, read as far as its operators
/// bind at least as strongly as `minimum`.
///
/// One token makes the left-hand side: a literal, a parenthesis with the
/// expression inside it, or a prefix operator with its operand. The
/// operators that follow are then folded into it by [`continue_expression`].
///
/// An expression takes at least one token, so what it leaves is shorter
/// than what there was. The definition tests this before it goes on, to
/// show that it ends; the test never fails.
pub open spec fn parse_expression(tokens: Seq<TokenView>, minimum: u8) -> ParsedExpression
    decreases tokens.len(), 1nat,
{
    if tokens.len() == 0 {
        failed(ended(1))
    } else {
        let token = tokens[0];
        let rest = tokens.skip(1);
        if let Some(primitive) = primitive_of(token.kind) {
            continue_expression(primitive_expression(primitive, token.line), rest, minimum)
        } else if token.kind is LeftParenthesis {
            let inside = parse_expression(rest, 0);
            match inside.result {
                Err(error) => failed(error),
                Ok(expression) => {
                    if inside.rest.len() == 0 {
                        failed(ended(expression.line))
                    } else if !(inside.rest[0].kind is RightParenthesis) {
                        failed(unexpected(inside.rest[0], Some(TokenKindView::RightParenthesis)))
                    } else if inside.rest.len() <= tokens.len() {
                        continue_expression(
                            group_expression(expression, token.line),
                            inside.rest.skip(1),
                            minimum,
                        )
                    } else {
                        failed(ended(expression.line))
                    }
                },
            }
        } else if let Some(operator) = prefix_operator(token.kind) {
            let operand = parse_expression(rest, u8::MAX);
            match operand.result {
                Err(error) => failed(error),
                Ok(expression) => {
                    if operand.rest.len() < tokens.len() {
                        continue_expression(
                            logical_expression(operator, expression, token.line),
                            operand.rest,
                            minimum,
                        )
                    } else {
                        failed(ended(expression.line))
                    }
                },
            }
        } else {
            failed(unexpected(token, None))
        }
    }
}

/// Folds the operators at the start of `tokens` into `left`, as long as
/// they bind to their left at least as strongly as `minimum`. It stops
/// without error at the end of the tokens, at a right parenthesis and at a
/// semicolon; a token that is no operator is an error.
pub open spec fn continue_expression(
    left: ExpressionView,
    tokens: Seq<TokenView>,
    minimum: u8,
) -> ParsedExpression
    decreases tokens.len(), 0nat,
{
    if tokens.len() == 0 || ends_expression(tokens[0].kind) {
        ParsedExpression { result: Ok(left), rest: tokens }
    } else {
        match binary_operator(tokens[0].kind) {
            None => failed(unexpected(tokens[0], None)),
            Some(operator) => match operator.strength() {
                (Some(left_power), Some(right_power)) => {
                    if left_power < minimum {
                        ParsedExpression { result: Ok(left), rest: tokens }
                    } else {
                        let right = parse_expression(tokens.skip(1), right_power);
                        match right.result {
                            Err(error) => failed(error),
                            Ok(expression) => {
                                if right.rest.len() < tokens.len() {
                                    continue_expression(
                                        binary_expression(operator, left, expression),
                                        right.rest,
                                        minimum,
                                    )
                                } else {
                                    failed(ended(expression.line))
                                }
                            },
                        }
                    }
                },
                _ => failed(unexpected(tokens[0], None)),
            },
        }
    }
}

/// The statement at the start of `tokens`: `print`, an expression and a
/// semicolon.
pub open spec fn parse_statement(tokens: Seq<TokenView>) -> ParsedStatement {
    if tokens.len() == 0 {
        ParsedStatement { result: Err(ended(1)), rest: Seq::empty() }
    } else if !(tokens[0].kind is Print) {
        ParsedStatement { result: Err(unexpected(tokens[0], None)), rest: Seq::empty() }
    } else {
        let expression = parse_expression(tokens.skip(1), 0);
        match expression.result {
            Err(error) => ParsedStatement { result: Err(error), rest: Seq::empty() },
            Ok(printed) => {
                if expression.rest.len() == 0 {
                    ParsedStatement { result: Err(ended(tokens[0].line)), rest: Seq::empty() }
                } else if !(expression.rest[0].kind is Semicolon) {
                    ParsedStatement {
                        result: Err(
                            unexpected(expression.rest[0], Some(TokenKindView::Semicolon)),
                        ),
                        rest: Seq::empty(),
                    }
                } else {
                    ParsedStatement {
                        result: Ok(
                            StatementView {
                                kind: StatementKindView::Print(printed),
                                line: tokens[0].line,
                            },
                        ),
                        rest: expression.rest.skip(1),
                    }
                }
            },
        }
    }
}

/// The statements of `tokens`, up to the end of the tokens or the token
/// that marks the end of the text.
pub open spec fn parse_statements(tokens: Seq<TokenView>) -> Result<
    Seq<StatementView>,
    ParserErrorView,
>
    decreases tokens.len(),
{
    if tokens.len() == 0 || tokens[0].kind is Eof {
        Ok(Seq::empty())
    } else {
        let first = parse_statement(tokens);
        match first.result {
            Err(error) => Err(error),
            Ok(statement) => {
                if first.rest.len() < tokens.len() {
                    match parse_statements(first.rest) {
                        Err(error) => Err(error),
                        Ok(others) => Ok(seq![statement] + others),
                    }
                } else {
                    Err(ended(statement.line))
                }
            },
        }
    }
}

/// The tree of `tokens`. Tokens that begin with `print` are statements: one
/// statement alone is a tree of its own, several are a program. All other
/// tokens are one expression.
pub open spec fn parse(tokens: Seq<TokenView>) -> Result<TreeView, ParserErrorView> {
    if tokens.len() == 0 {
        Err(ended(1))
    } else if tokens[0].kind is Print {
        match parse_statements(tokens) {
            Err(error) => Err(error),
            Ok(statements) => if statements.len() == 1 {
                Ok(TreeView::Statement(statements[0]))
            } else {
                Ok(TreeView::Program(statements))
            },
        }
    } else {
        match parse_expression(tokens, 0).result {
            Err(error) => Err(error),
            Ok(expression) => Ok(TreeView::Expression(expression)),
        }
    }
}

/// The model of what the parser returns for an expression.
pub open spec fn expression_result(result: Result<Expression, ParserError>) -> Result<
    ExpressionView,
    ParserErrorView,
> {
    match result {
        Ok(expression) => Ok(expression@),
        Err(error) => Err(error@),
    }
}

/// The model of what the parser returns for a statement.
pub open spec fn statement_result(result: Result<Statement, ParserError>) -> Result<
    StatementView,
    ParserErrorView,
> {
    match result {
        Ok(statement) => Ok(statement@),
        Err(error) => Err(error@),
    }
}

/// The model of what the parser returns.
pub open spec fn tree_result(result: Result<Tree, ParserError>) -> Result<
    TreeView,
    ParserErrorView,
> {
    match result {
        Ok(tree) => Ok(tree@),
        Err(error) => Err(error@),
    }
}

/// The primitive that a token stands for, if it stands for one.
fn primitive_for(kind: &TokenKind) -> (primitive: Option<Primitive>)
    ensures
        match primitive {
            Some(primitive) => primitive_of(kind@) == Some(primitive@),
            None => primitive_of(kind@) is None,
        },
{
    match kind {
        TokenKind::False => Some(Primitive::Boolean(false)),
        TokenKind::True => Some(Primitive::Boolean(true)),
        TokenKind::Nil => Some(Primitive::Nil),
        TokenKind::Number { literal } => Some(Primitive::Number(literal.clone())),
        TokenKind::String { value } => Some(Primitive::String(value.clone())),
        _ => None,
    }
}

/// The operator that a token is when it stands before its operand.
fn prefix_for(kind: &TokenKind) -> (operator: Option<LogicalOperator>)
    ensures
        operator == prefix_operator(kind@),
{
    match kind {
        TokenKind::Bang => Some(LogicalOperator::Not),
        TokenKind::Minus => Some(LogicalOperator::Negate),
        _ => None,
    }
}

/// The operator that a token is when it stands between two operands.
fn binary_for(kind: &TokenKind) -> (operator: Option<Operator>)
    ensures
        operator == binary_operator(kind@),
{
    match kind {
        TokenKind::Minus => Some(Operator::Arithmetic(ArithmeticOperator::Subtract)),
        TokenKind::Plus => Some(Operator::Arithmetic(ArithmeticOperator::Add)),
        TokenKind::Slash => Some(Operator::Arithmetic(ArithmeticOperator::Divide)),
        TokenKind::Star => Some(Operator::Arithmetic(ArithmeticOperator::Multiply)),
        TokenKind::EqualEqual => Some(Operator::Comparison(ComparisonOperator::Equal)),
        TokenKind::Greater => Some(Operator::Comparison(ComparisonOperator::GreaterThan)),
        TokenKind::GreaterEqual => Some(Operator::Comparison(ComparisonOperator::GreaterEqual)),
        TokenKind::Less => Some(Operator::Comparison(ComparisonOperator::LessThan)),
        TokenKind::LessEqual => Some(Operator::Comparison(ComparisonOperator::LessEqual)),
        TokenKind::BangEqual => Some(Operator::Comparison(ComparisonOperator::NotEqual)),
        _ => None,
    }
}

/// Whether an expression ends without error at a token of this kind.
fn ends_at(kind: &TokenKind) -> (ends: bool)
    ensures
        ends == ends_expression(kind@),
{
    match kind {
        TokenKind::Eof | TokenKind::RightParenthesis | TokenKind::Semicolon => true,
        _ => false,
    }
}

/// Joins two operands by the operator that stood between them.
fn join(operator: Operator, left: Expression, right: Expression) -> (joined: Expression)
    ensures
        joined@ == binary_expression(operator, left@, right@),
{
    let line = left.line;
    match operator {
        Operator::Arithmetic(operator) => Expression::operation(
            Operation::Arithmetic { operator, a: Box::new(left), b: Box::new(right) },
            line,
        ),
        Operator::Comparison(operator) => Expression::operation(
            Operation::Comparison { operator, a: Box::new(left), b: Box::new(right) },
            line,
        ),
        Operator::Logical(_) => left,
    }
}

/// The parser: tokens, and how far they have been read.
pub struct Parser {
    tokens: Vec<Token>,
    position: usize,
}

impl Parser {
    #[verifier::type_invariant]
    spec fn well_formed(self) -> bool {
        self.position <= self.tokens.len()
    }

    /// The tokens that have not been read yet.
    pub closed spec fn remaining(self) -> Seq<TokenView> {
        self.tokens.deep_view().skip(self.position as int)
    }

    /// A parser at the start of `tokens`.
    pub fn new(tokens: Vec<Token>) -> (parser: Parser)
        ensures
            parser.remaining() == tokens.deep_view(),
    {
        Parser { tokens, position: 0 }
    }

    /// The token at the front, if there is one.
    fn peek(&self) -> (token: Option<&Token>)
        ensures
            match token {
                Some(token) => self.remaining().len() > 0 && token@ == self.remaining()[0],
                None => self.remaining().len() == 0,
            },
    {
        proof {
            use_type_invariant(self);
        }
        if self.position < self.tokens.len() {
            Some(&self.tokens[self.position])
        } else {
            None
        }
    }

    /// Passes over the token at the front.
    fn advance(&mut self)
        requires
            old(self).remaining().len() > 0,
        ensures
            final(self).remaining() == old(self).remaining().skip(1),
    {
        proof {
            use_type_invariant(&*self);
        }
        assert(self.remaining().skip(1) == self.tokens.deep_view().skip(self.position + 1));
        self.position = self.position + 1;
    }

    /// Takes the token at the front, if there is one.
    fn next(&mut self) -> (token: Option<Token>)
        ensures
            match token {
                Some(token) => old(self).remaining().len() > 0 && token@ == old(self).remaining()[0]
                    && final(self).remaining() == old(self).remaining().skip(1),
                None => old(self).remaining().len() == 0 && final(self).remaining() == old(
                    self,
                ).remaining(),
            },
    {
        proof {
            use_type_invariant(&*self);
        }
        if self.position < self.tokens.len() {
            let token = self.tokens[self.position].duplicate();
            self.advance();
            Some(token)
        } else {
            None
        }
    }

    /// Reads the tree of the remaining tokens.
    pub fn parse(&mut self) -> (result: Result<Tree, ParserError>)
        ensures
            tree_result(result) == parse(old(self).remaining()),
    {
        let statements = match self.peek() {
            None => {
                return Err(ParserError::new(ErrorKind::UnexpectedEof, 1));
            },
            Some(token) => match token.kind {
                TokenKind::Print => true,
                _ => false,
            },
        };
        if statements {
            let mut statements = self.parse_statements()?;
            if statements.len() == 1 {
                let statement = statements.pop().unwrap();
                Ok(Tree::Statement(statement))
            } else {
                Ok(Tree::Program(statements))
            }
        } else {
            let expression = self.parse_expression(0)?;
            Ok(Tree::Expression(expression))
        }
    }

    /// Reads statements up to the end of the tokens.
    fn parse_statements(&mut self) -> (result: Result<Vec<Statement>, ParserError>)
        ensures
            match result {
                Ok(statements) => parse_statements(old(self).remaining()) == Ok::<
                    Seq<StatementView>,
                    ParserErrorView,
                >(statements.deep_view()),
                Err(error) => parse_statements(old(self).remaining()) == Err::<
                    Seq<StatementView>,
                    ParserErrorView,
                >(error@),
            },
    {
        let mut statements: Vec<Statement> = Vec::new();
        let ghost start = self.remaining();
        loop
            invariant
                start == old(self).remaining(),
                match parse_statements(self.remaining()) {
                    Ok(others) => parse_statements(start) == Ok::<
                        Seq<StatementView>,
                        ParserErrorView,
                    >(statements.deep_view() + others),
                    Err(error) => parse_statements(start) == Err::<
                        Seq<StatementView>,
                        ParserErrorView,
                    >(error),
                },
            decreases self.remaining().len(),
        {
            let more = match self.peek() {
                None => false,
                Some(token) => match token.kind {
                    TokenKind::Eof => false,
                    _ => true,
                },
            };
            if !more {
                return Ok(statements);
            }
            let statement = self.parse_statement()?;
            let ghost former = statements.deep_view();
            proof {
                if let Ok(others) = parse_statements(self.remaining()) {
                    assert(former.push(statement@) + others == former + (seq![statement@]
                        + others));
                }
            }
            statements.push(statement);
            assert(statements.deep_view() == former.push(statement@));
        }
    }

    /// Reads one statement.
    fn parse_statement(&mut self) -> (result: Result<Statement, ParserError>)
        ensures
            statement_result(result) == parse_statement(old(self).remaining()).result,
            result is Ok ==> final(self).remaining() == parse_statement(old(self).remaining()).rest,
            result is Ok ==> final(self).remaining().len() < old(self).remaining().len(),
    {
        let head = match self.next() {
            Some(token) => token,
            None => {
                return Err(ParserError::new(ErrorKind::UnexpectedEof, 1));
            },
        };
        match head.kind {
            TokenKind::Print => {},
            _ => {
                return Err(unexpected_token(head, None));
            },
        }
        let expression = self.parse_expression(0)?;
        let end = match self.next() {
            Some(token) => token,
            None => {
                return Err(ParserError::new(ErrorKind::UnexpectedEof, head.line));
            },
        };
        match end.kind {
            TokenKind::Semicolon => {},
            _ => {
                return Err(unexpected_token(end, Some(TokenKind::Semicolon)));
            },
        }
        Ok(Statement { kind: StatementKind::Print(expression), line: head.line })
    }

    /// Reads one expression, as far as its operators bind at least as
    /// strongly as `minimum`.
    fn parse_expression(&mut self, minimum: u8) -> (result: Result<Expression, ParserError>)
        ensures
            expression_result(result) == parse_expression(old(self).remaining(), minimum).result,
            result is Ok ==> final(self).remaining() == parse_expression(
                old(self).remaining(),
                minimum,
            ).rest,
            result is Ok ==> final(self).remaining().len() < old(self).remaining().len(),
        decreases old(self).remaining().len(),
    {
        let ghost tokens = self.remaining();
        let first = match self.next() {
            Some(token) => token,
            None => {
                return Err(ParserError::new(ErrorKind::UnexpectedEof, 1));
            },
        };
        let mut left = if let Some(primitive) = primitive_for(&first.kind) {
            Expression::primitive(primitive, first.line)
        } else if let Some(operator) = prefix_for(&first.kind) {
            let operand = self.parse_expression(u8::MAX)?;
            Expression::operation(
                Operation::Logical { operator, expression: Box::new(operand) },
                first.line,
            )
        } else {
            match first.kind {
                TokenKind::LeftParenthesis => {},
                _ => {
                    return Err(unexpected_token(first, None));
                },
            }
            let inside = self.parse_expression(0)?;
            let close = match self.next() {
                Some(token) => token,
                None => {
                    return Err(ParserError::new(ErrorKind::UnexpectedEof, inside.line));
                },
            };
            match close.kind {
                TokenKind::RightParenthesis => {},
                _ => {
                    return Err(unexpected_token(close, Some(TokenKind::RightParenthesis)));
                },
            }
            Expression::operation(Operation::Group(Box::new(inside)), first.line)
        };
        loop
            invariant
                tokens == old(self).remaining(),
                self.remaining().len() < tokens.len(),
                continue_expression(left@, self.remaining(), minimum) == parse_expression(
                    tokens,
                    minimum,
                ),
            decreases self.remaining().len(),
        {
            let token = match self.peek() {
                Some(token) => token,
                None => {
                    return Ok(left);
                },
            };
            if ends_at(&token.kind) {
                return Ok(left);
            }
            let (operator, right_power) = match binary_for(&token.kind) {
                Some(operator) => match operator.binding_power() {
                    (Some(left_power), Some(right_power)) => {
                        if left_power < minimum {
                            return Ok(left);
                        }
                        (operator, right_power)
                    },
                    _ => {
                        return Err(unexpected_token(token.duplicate(), None));
                    },
                },
                None => {
                    return Err(unexpected_token(token.duplicate(), None));
                },
            };
            self.advance();
            let right = self.parse_expression(right_power)?;
            left = join(operator, left, right);
        }
    }
}

/// The error for a token that cannot stand where it was found.
fn unexpected_token(token: Token, expected: Option<TokenKind>) -> (error: ParserError)
    ensures
        error@ == unexpected(
            token@,
            match expected {
                Some(kind) => Some(kind@),
                None => None,
            },
        ),
{
    ParserError::new(ErrorKind::UnexpectedToken { found: token.kind, expected }, token.line)
}

} // verus!
