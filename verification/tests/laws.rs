use bagel::interpreter::{evaluate_expression, Calculation, Order};
use bagel::parser::Parser;
use bagel::printer::Printer;
use bagel::scanner::{tokenize, Scanner};
use bagel::token::{Token, TokenKind};
use bagel::tree::expression::{Expression, ExpressionKind, Operation};
use bagel::tree::operator::ArithmeticOperator;
use bagel::tree::Tree;

fn render(written: &str) -> String {
    let value: f64 = written.parse().unwrap();
    if value.fract() == 0.0 {
        format!("{value:.1}")
    } else {
        format!("{value}")
    }
}

fn calculate(calculation: Calculation) -> u64 {
    let value = match calculation {
        Calculation::Literal(written) => written.parse::<f64>().unwrap(),
        Calculation::Negate(bits) => -f64::from_bits(bits),
        Calculation::Arithmetic(operator, a, b) => {
            let (a, b) = (f64::from_bits(a), f64::from_bits(b));
            match operator {
                ArithmeticOperator::Add => a + b,
                ArithmeticOperator::Divide => a / b,
                ArithmeticOperator::Multiply => a * b,
                ArithmeticOperator::Subtract => a - b,
            }
        }
    };
    value.to_bits()
}

fn order(a: u64, b: u64) -> Order {
    let (a, b) = (f64::from_bits(a), f64::from_bits(b));
    if a < b {
        Order::Less
    } else if a > b {
        Order::Greater
    } else if a == b {
        Order::Equal
    } else {
        Order::Unordered
    }
}

const SOURCES: [&str; 8] = [
    "",
    "print \"Hello\";",
    "var x = (1.5 + y) * 3; // note\nwhile (x >= 0) { x = x - 1; }",
    "\"a\nb\" @ # \"open",
    "1.2.3. and nil/2//\n\n!=!",
    "\n\n\t",
    "// only a comment",
    "a.b(c,d);{}-+*<=>==",
];

fn expression(source: &str) -> Expression {
    match Parser::new(tokenize(source).unwrap()).parse().unwrap() {
        Tree::Expression(expression) => expression,
        other => panic!("no expression: {other:?}"),
    }
}

fn printed(source: &str) -> String {
    Printer::new(&Parser::new(tokenize(source).unwrap()).parse().unwrap()).print(&render)
}

fn without_groups(expression: Expression) -> Expression {
    let Expression { kind, line } = expression;
    match kind {
        ExpressionKind::Primitive(primitive) => {
            Expression { kind: ExpressionKind::Primitive(primitive), line }
        }
        ExpressionKind::Operation(operation) => match operation {
            Operation::Group(inside) => without_groups(*inside),
            Operation::Logical { operator, expression } => Expression::operation(
                Operation::Logical { operator, expression: Box::new(without_groups(*expression)) },
                line,
            ),
            Operation::Arithmetic { operator, a, b } => Expression::operation(
                Operation::Arithmetic {
                    operator,
                    a: Box::new(without_groups(*a)),
                    b: Box::new(without_groups(*b)),
                },
                line,
            ),
            Operation::Comparison { operator, a, b } => Expression::operation(
                Operation::Comparison {
                    operator,
                    a: Box::new(without_groups(*a)),
                    b: Box::new(without_groups(*b)),
                },
                line,
            ),
        },
    }
}

#[test]
fn the_end_comes_once_and_last() {
    for source in SOURCES {
        let (tokens, _) = Scanner::new(source).split();
        let ends = tokens.iter().filter(|token| token.kind == TokenKind::Eof).count();
        assert_eq!(ends, 1, "{source:?}");
        assert_eq!(tokens.last().unwrap().kind, TokenKind::Eof, "{source:?}");
    }
}

#[test]
fn lines_never_decrease() {
    for source in SOURCES {
        let (tokens, errors) = Scanner::new(source).split();
        assert!(tokens.iter().all(|token| token.line >= 1));
        assert!(tokens.windows(2).all(|pair| pair[0].line <= pair[1].line), "{source:?}");
        assert!(errors.windows(2).all(|pair| pair[0].line() <= pair[1].line()), "{source:?}");
    }
}

#[test]
fn padding_changes_no_token() {
    let kinds = |source: &str| -> Vec<TokenKind> {
        Scanner::new(source).split().0.into_iter().map(|token| token.kind).collect()
    };
    for source in SOURCES {
        for (before, after) in [(" ", ""), ("", "\n"), ("\n\t \n", " \t\n\n "), ("\r\n", "\r")] {
            let padded = format!("{before}{source}{after}");
            assert_eq!(kinds(&padded), kinds(source), "{padded:?}");
        }
    }
}

#[test]
fn number_literals_keep_their_text() {
    for literal in ["0", "7", "42", "007", "1234.1234", "10.40", "0.5", "123456789012345678901234567890"] {
        assert_eq!(
            tokenize(literal),
            Ok(vec![
                Token { kind: TokenKind::Number { literal: literal.to_string() }, line: 1 },
                Token { kind: TokenKind::Eof, line: 1 },
            ])
        );
    }
    for source in SOURCES {
        for token in Scanner::new(source).split().0 {
            if let TokenKind::Number { literal } = token.kind {
                assert!(source.contains(&literal));
                assert!(literal.parse::<f64>().is_ok());
            }
        }
    }
}

#[test]
fn words_scan_by_the_table() {
    let reserved = [
        ("and", TokenKind::And),
        ("class", TokenKind::Class),
        ("else", TokenKind::Else),
        ("false", TokenKind::False),
        ("for", TokenKind::For),
        ("fun", TokenKind::Fun),
        ("if", TokenKind::If),
        ("nil", TokenKind::Nil),
        ("or", TokenKind::Or),
        ("print", TokenKind::Print),
        ("return", TokenKind::Return),
        ("super", TokenKind::Super),
        ("this", TokenKind::This),
        ("true", TokenKind::True),
        ("var", TokenKind::Var),
        ("while", TokenKind::While),
    ];
    for (word, kind) in reserved {
        let tokens = tokenize(word).unwrap();
        assert_eq!(tokens[0].kind, kind);
        assert_eq!(tokens.len(), 2);
        for other in [format!("{word}s"), format!("_{word}"), word.to_uppercase()] {
            let tokens = tokenize(&other).unwrap();
            assert_eq!(tokens[0].kind, TokenKind::Identifier { lexeme: other.clone() });
            assert_eq!(tokens.len(), 2);
        }
    }
}

#[test]
fn operators_of_one_strength_go_left() {
    assert_eq!(printed("1 - 2 - 3"), "(- (- 1.0 2.0) 3.0)");
    assert_eq!(printed("nil - \"b\" - true"), "(- (- nil b) true)");
    assert_eq!(printed("1 * 2 + 3 * 4"), "(+ (* 1.0 2.0) (* 3.0 4.0))");
    assert_eq!(printed("8 / 4 / 2"), "(/ (/ 8.0 4.0) 2.0)");
    assert_eq!(printed("1 + 2 * 3"), "(+ 1.0 (* 2.0 3.0))");
    assert_eq!(printed("1 + 2 - 3"), "(- (+ 1.0 2.0) 3.0)");
}

#[test]
fn parentheses_are_kept_as_groups() {
    for inside in ["1", "\"a\"", "1 + 2", "!true", "(nil)", "1 < 2 == true"] {
        assert_eq!(printed(&format!("({inside})")), format!("(group {})", printed(inside)));
    }
}

#[test]
fn groups_change_no_value() {
    for source in [
        "(1 + 2) * 3",
        "((1)) + (2 * (3 - 4))",
        "!((false))",
        "-(1) < (2)",
        "(\"a\") + (\"b\")",
        "((nil)) == (nil)",
        "(\"a\") * (2)",
        "-(nil)",
        "(1 < (true)) == (2)",
    ] {
        let with = expression(source);
        let with_value = evaluate_expression(&with, &calculate, &order);
        let without_value = evaluate_expression(&without_groups(with), &calculate, &order);
        assert_eq!(without_value, with_value, "{source}");
    }
    let with = expression("(\nnil) + 1");
    let with_error = evaluate_expression(&with, &calculate, &order).unwrap_err();
    let without_error =
        evaluate_expression(&without_groups(with), &calculate, &order).unwrap_err();
    assert_eq!(with_error.kind, without_error.kind);
    assert_eq!((with_error.line, without_error.line), (1, 2));
}
