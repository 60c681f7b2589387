//! What holds of every parse.

use crate::parser::{
    binary_expression, binary_operator, continue_expression, ends_expression, group_expression,
    logical_expression, parse, parse_expression, prefix_operator, primitive_expression,
    primitive_of, ParsedExpression, ParserErrorView,
};
use crate::printer::expression_text;
use crate::token::{TokenKindView, TokenView};
use crate::tree::expression::ExpressionView;
use crate::tree::operator::{ArithmeticOperator, Operator, Strength};
use crate::tree::TreeView;
use vstd::prelude::*;

verus! {

/// The operand that a literal token stands for.
pub open spec fn operand(token: TokenView) -> ExpressionView {
    primitive_expression(primitive_of(token.kind)->0, token.line)
}

/// The left binding power of a binary operator.
pub open spec fn left_power(operator: Operator) -> u8 {
    operator.strength().0->0
}

/// The right binding power of a binary operator.
pub open spec fn right_power(operator: Operator) -> u8 {
    operator.strength().1->0
}

/// A binary operator binds on both sides, and more strongly to the right
/// than to the left; no left power of one equals the right power of
/// another. So of two operators that meet over one operand exactly one
/// binds it.
pub proof fn lemma_powers_never_tie(kind: TokenKindView, other: TokenKindView)
    requires
        binary_operator(kind) is Some,
        binary_operator(other) is Some,
    ensures
        binary_operator(kind)->0.strength().0 is Some,
        binary_operator(kind)->0.strength().1 is Some,
        left_power(binary_operator(kind)->0) < right_power(binary_operator(kind)->0),
        left_power(binary_operator(other)->0) != right_power(binary_operator(kind)->0),
{
}

/// A literal alone is an expression.
pub proof fn lemma_literal(token: TokenView, rest: Seq<TokenView>, minimum: u8)
    requires
        primitive_of(token.kind) is Some,
    ensures
        parse_expression(seq![token] + rest, minimum) == continue_expression(
            operand(token),
            rest,
            minimum,
        ),
{
    assert((seq![token] + rest).skip(1) == rest);
}

/// Where an operator stands between two literals and the operator after
/// them binds no more strongly to its left than the first binds to its
/// right, the first operator takes both literals: `a - b - c` is
/// `(a - b) - c`, and `a * b + c` is `(a * b) + c`.
pub proof fn lemma_left_operator_binds_first(
    a: TokenView,
    first: TokenView,
    b: TokenView,
    second: TokenView,
    c: TokenView,
    end: TokenView,
)
    requires
        primitive_of(a.kind) is Some,
        primitive_of(b.kind) is Some,
        primitive_of(c.kind) is Some,
        binary_operator(first.kind) is Some,
        binary_operator(second.kind) is Some,
        left_power(binary_operator(second.kind)->0) < right_power(binary_operator(first.kind)->0),
        ends_expression(end.kind),
    ensures
        parse_expression(seq![a, first, b, second, c, end], 0).result == Ok::<
            ExpressionView,
            ParserErrorView,
        >(
            binary_expression(
                binary_operator(second.kind)->0,
                binary_expression(binary_operator(first.kind)->0, operand(a), operand(b)),
                operand(c),
            ),
        ),
{
    let tokens = seq![a, first, b, second, c, end];
    let one = binary_operator(first.kind)->0;
    let two = binary_operator(second.kind)->0;
    lemma_powers_never_tie(first.kind, second.kind);
    lemma_powers_never_tie(second.kind, first.kind);
    let after_a = seq![first, b, second, c, end];
    let after_first = seq![b, second, c, end];
    let after_b = seq![second, c, end];
    let after_second = seq![c, end];
    let after_c = seq![end];
    assert(tokens.skip(1) == after_a);
    assert(after_a.skip(1) == after_first);
    assert(after_first.skip(1) == after_b);
    assert(after_b.skip(1) == after_second);
    assert(after_second.skip(1) == after_c);
    // The right operand of the first operator is `b` alone.
    assert(continue_expression(operand(b), after_b, right_power(one)) == (ParsedExpression {
        result: Ok(operand(b)),
        rest: after_b,
    }));
    assert(parse_expression(after_first, right_power(one)) == (ParsedExpression {
        result: Ok(operand(b)),
        rest: after_b,
    }));
    // The right operand of the second operator is `c` alone.
    assert(continue_expression(operand(c), after_c, right_power(two)) == (ParsedExpression {
        result: Ok(operand(c)),
        rest: after_c,
    }));
    assert(parse_expression(after_second, right_power(two)) == (ParsedExpression {
        result: Ok(operand(c)),
        rest: after_c,
    }));
    let left = binary_expression(one, operand(a), operand(b));
    let whole = binary_expression(two, left, operand(c));
    assert(continue_expression(whole, after_c, 0) == (ParsedExpression {
        result: Ok(whole),
        rest: after_c,
    }));
    assert(continue_expression(left, after_b, 0) == continue_expression(whole, after_c, 0));
    assert(continue_expression(operand(a), after_a, 0) == continue_expression(left, after_b, 0));
    assert(parse_expression(tokens, 0) == continue_expression(operand(a), after_a, 0));
}

/// Where the operator after two literals binds more strongly to its left
/// than the operator between them binds to its right, the second operator
/// takes the literal in the middle: `a + b * c` is `a + (b * c)`.
pub proof fn lemma_right_operator_binds_first(
    a: TokenView,
    first: TokenView,
    b: TokenView,
    second: TokenView,
    c: TokenView,
    end: TokenView,
)
    requires
        primitive_of(a.kind) is Some,
        primitive_of(b.kind) is Some,
        primitive_of(c.kind) is Some,
        binary_operator(first.kind) is Some,
        binary_operator(second.kind) is Some,
        left_power(binary_operator(second.kind)->0) > right_power(binary_operator(first.kind)->0),
        ends_expression(end.kind),
    ensures
        parse_expression(seq![a, first, b, second, c, end], 0).result == Ok::<
            ExpressionView,
            ParserErrorView,
        >(
            binary_expression(
                binary_operator(first.kind)->0,
                operand(a),
                binary_expression(binary_operator(second.kind)->0, operand(b), operand(c)),
            ),
        ),
{
    let tokens = seq![a, first, b, second, c, end];
    let one = binary_operator(first.kind)->0;
    let two = binary_operator(second.kind)->0;
    lemma_powers_never_tie(first.kind, second.kind);
    lemma_powers_never_tie(second.kind, first.kind);
    let after_a = seq![first, b, second, c, end];
    let after_first = seq![b, second, c, end];
    let after_b = seq![second, c, end];
    let after_second = seq![c, end];
    let after_c = seq![end];
    assert(tokens.skip(1) == after_a);
    assert(after_a.skip(1) == after_first);
    assert(after_first.skip(1) == after_b);
    assert(after_b.skip(1) == after_second);
    assert(after_second.skip(1) == after_c);
    let right = binary_expression(two, operand(b), operand(c));
    let whole = binary_expression(one, operand(a), right);
    assert(continue_expression(operand(c), after_c, right_power(two)) == (ParsedExpression {
        result: Ok(operand(c)),
        rest: after_c,
    }));
    assert(parse_expression(after_second, right_power(two)) == (ParsedExpression {
        result: Ok(operand(c)),
        rest: after_c,
    }));
    assert(continue_expression(right, after_c, right_power(one)) == (ParsedExpression {
        result: Ok(right),
        rest: after_c,
    }));
    assert(continue_expression(operand(b), after_b, right_power(one)) == continue_expression(
        right,
        after_c,
        right_power(one),
    ));
    assert(parse_expression(after_first, right_power(one)) == (ParsedExpression {
        result: Ok(right),
        rest: after_c,
    }));
    assert(continue_expression(whole, after_c, 0) == (ParsedExpression {
        result: Ok(whole),
        rest: after_c,
    }));
    assert(continue_expression(operand(a), after_a, 0) == continue_expression(whole, after_c, 0));
    assert(parse_expression(tokens, 0) == continue_expression(operand(a), after_a, 0));
}

/// The token of kind `kind` on `line`.
pub open spec fn token(kind: TokenKindView, line: nat) -> TokenView {
    TokenView { kind, line }
}

/// Subtraction takes its operands from the left: `a - b - c` is
/// `(a - b) - c`.
pub proof fn lemma_subtraction_goes_left(
    a: TokenView,
    b: TokenView,
    c: TokenView,
    first_line: nat,
    second_line: nat,
    end_line: nat,
)
    requires
        primitive_of(a.kind) is Some,
        primitive_of(b.kind) is Some,
        primitive_of(c.kind) is Some,
    ensures
        parse(
            seq![
                a,
                token(TokenKindView::Minus, first_line),
                b,
                token(TokenKindView::Minus, second_line),
                c,
                token(TokenKindView::Eof, end_line),
            ],
        ) == Ok::<TreeView, ParserErrorView>(
            TreeView::Expression(
                binary_expression(
                    Operator::Arithmetic(ArithmeticOperator::Subtract),
                    binary_expression(
                        Operator::Arithmetic(ArithmeticOperator::Subtract),
                        operand(a),
                        operand(b),
                    ),
                    operand(c),
                ),
            ),
        ),
{
    lemma_left_operator_binds_first(
        a,
        token(TokenKindView::Minus, first_line),
        b,
        token(TokenKindView::Minus, second_line),
        c,
        token(TokenKindView::Eof, end_line),
    );
}

/// Multiplication binds tighter than addition on both sides of it:
/// `a * b + c * d` is `(a * b) + (c * d)`.
pub proof fn lemma_products_are_added(
    a: TokenView,
    b: TokenView,
    c: TokenView,
    d: TokenView,
    first_line: nat,
    second_line: nat,
    third_line: nat,
    end_line: nat,
)
    requires
        primitive_of(a.kind) is Some,
        primitive_of(b.kind) is Some,
        primitive_of(c.kind) is Some,
        primitive_of(d.kind) is Some,
    ensures
        parse(
            seq![
                a,
                token(TokenKindView::Star, first_line),
                b,
                token(TokenKindView::Plus, second_line),
                c,
                token(TokenKindView::Star, third_line),
                d,
                token(TokenKindView::Eof, end_line),
            ],
        ) == Ok::<TreeView, ParserErrorView>(
            TreeView::Expression(
                binary_expression(
                    Operator::Arithmetic(ArithmeticOperator::Add),
                    binary_expression(
                        Operator::Arithmetic(ArithmeticOperator::Multiply),
                        operand(a),
                        operand(b),
                    ),
                    binary_expression(
                        Operator::Arithmetic(ArithmeticOperator::Multiply),
                        operand(c),
                        operand(d),
                    ),
                ),
            ),
        ),
{
    let star_one = token(TokenKindView::Star, first_line);
    let plus = token(TokenKindView::Plus, second_line);
    let star_two = token(TokenKindView::Star, third_line);
    let end = token(TokenKindView::Eof, end_line);
    let tokens = seq![a, star_one, b, plus, c, star_two, d, end];
    let times = Operator::Arithmetic(ArithmeticOperator::Multiply);
    let add = Operator::Arithmetic(ArithmeticOperator::Add);
    let s1 = seq![star_one, b, plus, c, star_two, d, end];
    let s2 = seq![b, plus, c, star_two, d, end];
    let s3 = seq![plus, c, star_two, d, end];
    let s4 = seq![c, star_two, d, end];
    let s5 = seq![star_two, d, end];
    let s6 = seq![d, end];
    let s7 = seq![end];
    assert(tokens.skip(1) == s1);
    assert(s1.skip(1) == s2);
    assert(s2.skip(1) == s3);
    assert(s3.skip(1) == s4);
    assert(s4.skip(1) == s5);
    assert(s5.skip(1) == s6);
    assert(s6.skip(1) == s7);
    let left = binary_expression(times, operand(a), operand(b));
    let right = binary_expression(times, operand(c), operand(d));
    let whole = binary_expression(add, left, right);
    // `d` is the right operand of the second product.
    assert(continue_expression(operand(d), s7, 4) == (ParsedExpression {
        result: Ok(operand(d)),
        rest: s7,
    }));
    assert(parse_expression(s6, 4) == (ParsedExpression { result: Ok(operand(d)), rest: s7 }));
    // The second product is the right operand of the sum.
    assert(continue_expression(right, s7, 2) == (ParsedExpression { result: Ok(right), rest: s7 }));
    assert(continue_expression(operand(c), s5, 2) == continue_expression(right, s7, 2));
    assert(parse_expression(s4, 2) == (ParsedExpression { result: Ok(right), rest: s7 }));
    // `b` is the right operand of the first product.
    assert(continue_expression(operand(b), s3, 4) == (ParsedExpression {
        result: Ok(operand(b)),
        rest: s3,
    }));
    assert(parse_expression(s2, 4) == (ParsedExpression { result: Ok(operand(b)), rest: s3 }));
    assert(continue_expression(whole, s7, 0) == (ParsedExpression { result: Ok(whole), rest: s7 }));
    assert(continue_expression(left, s3, 0) == continue_expression(whole, s7, 0));
    assert(continue_expression(operand(a), s1, 0) == continue_expression(left, s3, 0));
    assert(parse_expression(tokens, 0) == continue_expression(operand(a), s1, 0));
}

/// A parenthesis around an expression is kept as a group: where `inside`
/// parses to an expression up to a right parenthesis, the same tokens
/// behind a left parenthesis parse to the group of this expression, and
/// the group prints as `(group ...)` around what the expression prints as.
pub proof fn lemma_parentheses_are_kept(
    open: TokenView,
    inside: Seq<TokenView>,
    end: TokenView,
    text: spec_fn(Seq<char>) -> Seq<char>,
)
    requires
        open.kind is LeftParenthesis,
        end.kind is Eof,
        parse_expression(inside, 0).result is Ok,
        parse_expression(inside, 0).rest.len() == 2,
        parse_expression(inside, 0).rest[0].kind is RightParenthesis,
        parse_expression(inside, 0).rest[1] == end,
    ensures
        parse(seq![open] + inside) == Ok::<TreeView, ParserErrorView>(
            TreeView::Expression(
                group_expression(parse_expression(inside, 0).result->Ok_0, open.line),
            ),
        ),
        expression_text(
            text,
            group_expression(parse_expression(inside, 0).result->Ok_0, open.line),
        ) == "(group "@ + expression_text(text, parse_expression(inside, 0).result->Ok_0) + ")"@,
{
    let tokens = seq![open] + inside;
    let parsed = parse_expression(inside, 0);
    let expression = parsed.result->Ok_0;
    assert(tokens.skip(1) == inside);
    lemma_rest_is_shorter(inside, 0);
    let after = parsed.rest.skip(1);
    assert(after == seq![end]);
    let group = group_expression(expression, open.line);
    assert(continue_expression(group, after, 0) == (ParsedExpression {
        result: Ok(group),
        rest: after,
    }));
}

/// An expression begins on the line of its first token.
pub proof fn lemma_expression_begins_with_its_first_token(tokens: Seq<TokenView>, minimum: u8)
    ensures
        parse_expression(tokens, minimum).result matches Ok(expression) ==> tokens.len() > 0
            && expression.line == tokens[0].line,
    decreases tokens.len(), 1nat,
{
    if tokens.len() > 0 {
        let first = tokens[0];
        let rest = tokens.skip(1);
        if primitive_of(first.kind) is Some {
            lemma_continuation_keeps_the_line(
                primitive_expression(primitive_of(first.kind)->0, first.line),
                rest,
                minimum,
            );
        } else if first.kind is LeftParenthesis {
            let inside = parse_expression(rest, 0);
            if inside.result is Ok && inside.rest.len() > 0 && inside.rest.len() <= tokens.len() {
                lemma_continuation_keeps_the_line(
                    group_expression(inside.result->Ok_0, first.line),
                    inside.rest.skip(1),
                    minimum,
                );
            }
        } else if prefix_operator(first.kind) is Some {
            let inner = parse_expression(rest, u8::MAX);
            if inner.result is Ok && inner.rest.len() < tokens.len() {
                lemma_continuation_keeps_the_line(
                    logical_expression(
                        prefix_operator(first.kind)->0,
                        inner.result->Ok_0,
                        first.line,
                    ),
                    inner.rest,
                    minimum,
                );
            }
        }
    }
}

/// Folding operators into an expression leaves it on its line.
pub proof fn lemma_continuation_keeps_the_line(
    left: ExpressionView,
    tokens: Seq<TokenView>,
    minimum: u8,
)
    ensures
        continue_expression(left, tokens, minimum).result matches Ok(expression)
            ==> expression.line == left.line,
    decreases tokens.len(), 0nat,
{
    if tokens.len() > 0 && !ends_expression(tokens[0].kind) {
        if let Some(operator) = binary_operator(tokens[0].kind) {
            if let (Some(left_power), Some(right_power)) = operator.strength() {
                if left_power >= minimum {
                    let right = parse_expression(tokens.skip(1), right_power);
                    if right.result is Ok && right.rest.len() < tokens.len() {
                        lemma_continuation_keeps_the_line(
                            binary_expression(operator, left, right.result->Ok_0),
                            right.rest,
                            minimum,
                        );
                    }
                }
            }
        }
    }
}

/// An expression takes at least one token, and what it leaves is no longer
/// than what there was.
pub proof fn lemma_rest_is_shorter(tokens: Seq<TokenView>, minimum: u8)
    ensures
        parse_expression(tokens, minimum).result is Ok ==> parse_expression(
            tokens,
            minimum,
        ).rest.len() < tokens.len(),
    decreases tokens.len(), 1nat,
{
    if tokens.len() > 0 {
        let first = tokens[0];
        let rest = tokens.skip(1);
        if primitive_of(first.kind) is Some {
            lemma_continuation_is_no_longer(
                primitive_expression(primitive_of(first.kind)->0, first.line),
                rest,
                minimum,
            );
        } else if first.kind is LeftParenthesis {
            lemma_rest_is_shorter(rest, 0);
            let inside = parse_expression(rest, 0);
            if inside.result is Ok && inside.rest.len() > 0 && inside.rest[0].kind
                is RightParenthesis {
                lemma_continuation_is_no_longer(
                    group_expression(inside.result->Ok_0, first.line),
                    inside.rest.skip(1),
                    minimum,
                );
            }
        } else if prefix_operator(first.kind) is Some {
            lemma_rest_is_shorter(rest, u8::MAX);
            let inner = parse_expression(rest, u8::MAX);
            if inner.result is Ok {
                lemma_continuation_is_no_longer(
                    logical_expression(
                        prefix_operator(first.kind)->0,
                        inner.result->Ok_0,
                        first.line,
                    ),
                    inner.rest,
                    minimum,
                );
            }
        }
    }
}

/// Folding operators into an expression leaves no more tokens than there
/// were.
pub proof fn lemma_continuation_is_no_longer(
    left: ExpressionView,
    tokens: Seq<TokenView>,
    minimum: u8,
)
    ensures
        continue_expression(left, tokens, minimum).result is Ok ==> continue_expression(
            left,
            tokens,
            minimum,
        ).rest.len() <= tokens.len(),
    decreases tokens.len(), 0nat,
{
    if tokens.len() > 0 && !ends_expression(tokens[0].kind) {
        if let Some(operator) = binary_operator(tokens[0].kind) {
            if let (Some(left_power), Some(right_power)) = operator.strength() {
                if left_power >= minimum {
                    lemma_rest_is_shorter(tokens.skip(1), right_power);
                    let right = parse_expression(tokens.skip(1), right_power);
                    if right.result is Ok && right.rest.len() < tokens.len() {
                        lemma_continuation_is_no_longer(
                            binary_expression(operator, left, right.result->Ok_0),
                            right.rest,
                            minimum,
                        );
                    }
                }
            }
        }
    }
}

} // verus!
