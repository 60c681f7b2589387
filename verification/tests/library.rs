use bagel::command::{Command, CommandError};
use bagel::environment::{Colorization, Environment};
use bagel::interpreter::{
    evaluate_expression, Calculation, ErrorKind as RuntimeErrorKind, Interpreter, InterpreterError,
    Order, Value,
};
use bagel::parser::{ErrorKind, Parser, ParserError};
use bagel::printer::Printer;
use bagel::program::{
    evaluate_source, parse_source, parse_tree, run_source, tokenize_source, ProgramError, Report,
};
use bagel::scanner::{tokenize, Scanner, ScannerError};
use bagel::text::{blank, digit, letter, push_decimal, same_text, word_part, word_start};
use bagel::token::{Token, TokenKind};
use bagel::tree::expression::{Expression, ExpressionKind, Operation, Primitive};
use bagel::tree::operator::{
    ArithmeticOperator, ComparisonOperator, LogicalOperator, Operator, Strength,
};
use bagel::tree::statement::StatementKind;
use bagel::tree::Tree;

fn render(written: &str) -> String {
    let value: f64 = written.parse().unwrap();
    if value.fract() == 0.0 {
        format!("{value:.1}")
    } else {
        format!("{value}")
    }
}

fn calculate(calculation: Calculation) -> u64 {
    let value = match calculation {
        Calculation::Literal(written) => written.parse::<f64>().unwrap(),
        Calculation::Negate(bits) => -f64::from_bits(bits),
        Calculation::Arithmetic(operator, a, b) => {
            let (a, b) = (f64::from_bits(a), f64::from_bits(b));
            match operator {
                ArithmeticOperator::Add => a + b,
                ArithmeticOperator::Divide => a / b,
                ArithmeticOperator::Multiply => a * b,
                ArithmeticOperator::Subtract => a - b,
            }
        }
    };
    value.to_bits()
}

fn order(a: u64, b: u64) -> Order {
    let (a, b) = (f64::from_bits(a), f64::from_bits(b));
    if a < b {
        Order::Less
    } else if a > b {
        Order::Greater
    } else if a == b {
        Order::Equal
    } else {
        Order::Unordered
    }
}

fn show(bits: u64) -> String {
    let value = f64::from_bits(bits);
    if value.fract() == 0.0 {
        format!("{}", value.trunc())
    } else {
        format!("{value}")
    }
}

fn kinds(source: &str) -> Vec<TokenKind> {
    tokenize(source).unwrap().into_iter().map(|token| token.kind).collect()
}

fn number(literal: &str) -> TokenKind {
    TokenKind::Number { literal: literal.to_string() }
}

fn identifier(lexeme: &str) -> TokenKind {
    TokenKind::Identifier { lexeme: lexeme.to_string() }
}

fn tree(source: &str) -> Result<Tree, ParserError> {
    Parser::new(tokenize(source).unwrap()).parse()
}

fn expression(source: &str) -> Expression {
    match tree(source).unwrap() {
        Tree::Expression(expression) => expression,
        other => panic!("no expression: {other:?}"),
    }
}

fn value(source: &str) -> Result<Value, InterpreterError> {
    evaluate_expression(&expression(source), &calculate, &order)
}

fn printed(source: &str) -> String {
    Printer::new(&tree(source).unwrap()).print(&render)
}

fn evaluate(source: &str) -> Report {
    evaluate_source(source, &calculate, &order, &show)
}

fn strings(lines: &[&str]) -> Vec<String> {
    lines.iter().map(|line| line.to_string()).collect()
}

#[test]
fn scanner_yields_the_end_once_and_then_nothing() {
    let mut scanner = Scanner::new("+");
    assert_eq!(scanner.next(), Some(Ok(Token { kind: TokenKind::Plus, line: 1 })));
    assert_eq!(scanner.next(), Some(Ok(Token { kind: TokenKind::Eof, line: 1 })));
    assert_eq!(scanner.next(), None);
    assert_eq!(scanner.next(), None);
}

#[test]
fn scanner_counts_lines_from_one() {
    let tokens = tokenize("a\nb\n\n  c // d\ne").unwrap();
    let lines: Vec<usize> = tokens.iter().map(|token| token.line).collect();
    assert_eq!(lines, vec![1, 2, 4, 5, 5]);
}

#[test]
fn scanner_takes_the_longer_operator() {
    assert_eq!(
        kinds("! != = == < <= > >= !=="),
        vec![
            TokenKind::Bang,
            TokenKind::BangEqual,
            TokenKind::Equal,
            TokenKind::EqualEqual,
            TokenKind::Less,
            TokenKind::LessEqual,
            TokenKind::Greater,
            TokenKind::GreaterEqual,
            TokenKind::BangEqual,
            TokenKind::Equal,
            TokenKind::Eof,
        ]
    );
    assert_eq!(kinds("<"), vec![TokenKind::Less, TokenKind::Eof]);
}

#[test]
fn scanner_passes_over_comments_up_to_the_newline() {
    let tokens = tokenize("1 // two 3\n4 / 5 //").unwrap();
    assert_eq!(
        tokens,
        vec![
            Token { kind: number("1"), line: 1 },
            Token { kind: number("4"), line: 2 },
            Token { kind: TokenKind::Slash, line: 2 },
            Token { kind: number("5"), line: 2 },
            Token { kind: TokenKind::Eof, line: 2 },
        ]
    );
}

#[test]
fn scanner_skips_blanks_and_carriage_returns() {
    assert_eq!(kinds(" \t\r(\r\n)"), vec![
        TokenKind::LeftParenthesis,
        TokenKind::RightParenthesis,
        TokenKind::Eof
    ]);
}

#[test]
fn scanner_reports_other_white_space_as_unknown() {
    assert_eq!(
        tokenize("a\u{a0}b"),
        Err(vec![ScannerError::UnknownCharacter { character: '\u{a0}', line: 1 }])
    );
}

#[test]
fn number_takes_one_dot_between_digits() {
    assert_eq!(kinds("12.50"), vec![number("12.50"), TokenKind::Eof]);
    assert_eq!(kinds("1.2.3"), vec![number("1.2"), TokenKind::Dot, number("3"), TokenKind::Eof]);
    assert_eq!(kinds("7."), vec![number("7"), TokenKind::Dot, TokenKind::Eof]);
    assert_eq!(kinds(".7"), vec![TokenKind::Dot, number("7"), TokenKind::Eof]);
    assert_eq!(kinds("7.x"), vec![number("7"), TokenKind::Dot, identifier("x"), TokenKind::Eof]);
    assert_eq!(kinds("007"), vec![number("007"), TokenKind::Eof]);
}

#[test]
fn number_ends_where_a_letter_begins() {
    assert_eq!(kinds("12ab"), vec![number("12"), identifier("ab"), TokenKind::Eof]);
}

#[test]
fn string_keeps_its_body_and_counts_its_newlines() {
    let tokens = tokenize("\"a\nb\" c").unwrap();
    assert_eq!(
        tokens,
        vec![
            Token { kind: TokenKind::String { value: "a\nb".to_string() }, line: 1 },
            Token { kind: identifier("c"), line: 2 },
            Token { kind: TokenKind::Eof, line: 2 },
        ]
    );
    assert_eq!(kinds("\"\""), vec![TokenKind::String { value: String::new() }, TokenKind::Eof]);
}

#[test]
fn unterminated_string_speaks_of_the_last_line() {
    let (tokens, errors) = Scanner::new("x \"a\n\nb").split();
    assert_eq!(
        tokens,
        vec![Token { kind: identifier("x"), line: 1 }, Token { kind: TokenKind::Eof, line: 3 }]
    );
    assert_eq!(errors, vec![ScannerError::UnterminatedString { line: 3 }]);
    assert_eq!(errors[0].line(), 3);
    assert_eq!(errors[0].to_string(), "[line 3] Error: Unterminated string.");
}

#[test]
fn scanner_goes_on_after_an_error() {
    let mut scanner = Scanner::new("@1");
    assert_eq!(
        scanner.next(),
        Some(Err(ScannerError::UnknownCharacter { character: '@', line: 1 }))
    );
    assert_eq!(scanner.next(), Some(Ok(Token { kind: number("1"), line: 1 })));
    assert_eq!(
        Scanner::new("@1").scan(),
        Err(vec![ScannerError::UnknownCharacter { character: '@', line: 1 }])
    );
}

#[test]
fn scanner_error_messages() {
    let unknown = ScannerError::UnknownCharacter { character: '$', line: 12 };
    assert_eq!(unknown.to_string(), "[line 12] Error: Unexpected character: $");
    assert_eq!(unknown.line(), 12);
    let wide = ScannerError::UnknownCharacter { character: 'é', line: 1 };
    assert_eq!(wide.to_string(), "[line 1] Error: Unexpected character: é");
}

#[test]
fn every_reserved_word_has_its_token() {
    assert_eq!(
        kinds("and class else false for fun if nil or print return super this true var while"),
        vec![
            TokenKind::And,
            TokenKind::Class,
            TokenKind::Else,
            TokenKind::False,
            TokenKind::For,
            TokenKind::Fun,
            TokenKind::If,
            TokenKind::Nil,
            TokenKind::Or,
            TokenKind::Print,
            TokenKind::Return,
            TokenKind::Super,
            TokenKind::This,
            TokenKind::True,
            TokenKind::Var,
            TokenKind::While,
            TokenKind::Eof,
        ]
    );
}

#[test]
fn words_near_reserved_words_are_identifiers() {
    assert_eq!(
        kinds("And and_ _and an nill print1 WHILE"),
        vec![
            identifier("And"),
            identifier("and_"),
            identifier("_and"),
            identifier("an"),
            identifier("nill"),
            identifier("print1"),
            identifier("WHILE"),
            TokenKind::Eof,
        ]
    );
}

#[test]
fn tokens_are_described_by_type_lexeme_and_literal() {
    assert_eq!(TokenKind::Eof.describe(&render), "EOF  null");
    assert_eq!(TokenKind::Print.describe(&render), "PRINT print null");
    assert_eq!(TokenKind::GreaterEqual.describe(&render), "GREATER_EQUAL >= null");
    assert_eq!(identifier("_x9").describe(&render), "IDENTIFIER _x9 null");
    assert_eq!(number("10.40").describe(&render), "NUMBER 10.40 10.4");
    assert_eq!(number("83").describe(&render), "NUMBER 83 83.0");
    assert_eq!(
        TokenKind::String { value: "a b".to_string() }.describe(&render),
        "STRING \"a b\" a b"
    );
    assert_eq!(TokenKind::LeftBrace.label(), "LEFT_BRACE");
    assert_eq!(TokenKind::LeftBrace.lexeme(), "{");
    assert_eq!(TokenKind::String { value: "q".to_string() }.lexeme(), "\"q\"");
    assert_eq!(number("1.5").duplicate(), number("1.5"));
    let token = Token::new(identifier("n"), 3);
    assert_eq!(token.duplicate(), token);
}

#[test]
fn text_helpers() {
    assert!(digit('0') && digit('9') && !digit('a') && !digit('/') && !digit(':'));
    assert!(letter('a') && letter('z') && letter('A') && letter('Z') && !letter('_'));
    assert!(!letter('@') && !letter('[') && !letter('`') && !letter('{') && !letter('é'));
    assert!(word_start('_') && word_start('q') && !word_start('1'));
    assert!(word_part('_') && word_part('q') && word_part('1') && !word_part('-'));
    assert!(blank(' ') && blank('\t') && blank('\r') && !blank('\n') && !blank('\u{a0}'));
    assert!(same_text("run", "run"));
    assert!(!same_text("run", "runs"));
    assert!(!same_text("", "r"));
    let mut text = String::from("n=");
    push_decimal(&mut text, 0);
    push_decimal(&mut text, 9);
    push_decimal(&mut text, 10);
    push_decimal(&mut text, 4096);
    assert_eq!(text, "n=09104096");
}

#[test]
fn operators_bind_by_the_table() {
    assert_eq!(ArithmeticOperator::Add.binding_power(), (Some(1), Some(2)));
    assert_eq!(ArithmeticOperator::Subtract.binding_power(), (Some(1), Some(2)));
    assert_eq!(ArithmeticOperator::Multiply.binding_power(), (Some(3), Some(4)));
    assert_eq!(ArithmeticOperator::Divide.binding_power(), (Some(3), Some(4)));
    assert_eq!(ComparisonOperator::Equal.binding_power(), (Some(5), Some(6)));
    assert_eq!(ComparisonOperator::LessThan.binding_power(), (Some(5), Some(6)));
    assert_eq!(LogicalOperator::Not.binding_power(), (None, Some(255)));
    assert_eq!(LogicalOperator::Negate.binding_power(), (None, Some(255)));
    assert_eq!(Operator::from(ArithmeticOperator::Divide).binding_power(), (Some(3), Some(4)));
    assert_eq!(
        Operator::from(ComparisonOperator::NotEqual),
        Operator::Comparison(ComparisonOperator::NotEqual)
    );
    assert_eq!(Operator::from(LogicalOperator::Not), Operator::Logical(LogicalOperator::Not));
    assert_eq!(Operator::from(LogicalOperator::Not).to_string(), "!");
    assert_eq!(ComparisonOperator::GreaterEqual.to_string(), ">=");
    assert_eq!(ArithmeticOperator::Subtract.to_string(), "-");
}

#[test]
fn parser_trees_print_in_prefix_form() {
    assert_eq!(printed("1 + 2 * 3"), "(+ 1.0 (* 2.0 3.0))");
    assert_eq!(printed("1 * 2 + 3"), "(+ (* 1.0 2.0) 3.0)");
    assert_eq!(printed("-1 - -2"), "(- (- 1.0) (- 2.0))");
    assert_eq!(printed("!!true"), "(! (! true))");
    assert_eq!(printed("(1 + 2) * 3"), "(* (group (+ 1.0 2.0)) 3.0)");
    assert_eq!(printed("1 + 2 < 3 * 4"), "(+ 1.0 (* (< 2.0 3.0) 4.0))");
    assert_eq!(printed("1 == 2 != 3"), "(!= (== 1.0 2.0) 3.0)");
    assert_eq!(printed("\"a\" + nil"), "(+ a nil)");
    assert_eq!(printed("0.50"), "0.5");
}

#[test]
fn parser_reads_statements_up_to_the_end() {
    assert_eq!(printed("print 1;"), "(print 1.0)");
    assert_eq!(printed("print 1; print \"a\" + \"b\";\nprint nil;"), "(print 1.0)\n(print (+ a b))\n(print nil)");
    match tree("print 1;").unwrap() {
        Tree::Statement(statement) => assert_eq!(statement.line, 1),
        other => panic!("no statement: {other:?}"),
    }
    match tree("print 1;\n\nprint 2;").unwrap() {
        Tree::Program(statements) => {
            assert_eq!(statements.len(), 2);
            assert_eq!(statements[1].line, 3);
            let StatementKind::Print(expression) = &statements[1].kind;
            assert_eq!(expression.line, 3);
        }
        other => panic!("no program: {other:?}"),
    }
}

#[test]
fn expressions_begin_on_the_line_of_their_first_token() {
    let sum = expression("1\n+\n2");
    assert_eq!(sum.line, 1);
    match sum.kind {
        ExpressionKind::Operation(Operation::Arithmetic { operator, a, b }) => {
            assert_eq!(operator, ArithmeticOperator::Add);
            assert_eq!(*a, Expression { kind: ExpressionKind::Primitive(Primitive::Number("1".to_string())), line: 1 });
            assert_eq!(b.line, 3);
        }
        other => panic!("no sum: {other:?}"),
    }
    let group = expression("\n(\n-\n3)");
    assert_eq!(group.line, 2);
    match group.kind {
        ExpressionKind::Operation(Operation::Group(inside)) => assert_eq!(inside.line, 3),
        other => panic!("no group: {other:?}"),
    }
}

#[test]
fn parser_errors() {
    assert_eq!(
        Parser::new(Vec::new()).parse(),
        Err(ParserError { kind: ErrorKind::UnexpectedEof, line: 1 })
    );
    assert_eq!(
        tree(""),
        Err(ParserError {
            kind: ErrorKind::UnexpectedToken { found: TokenKind::Eof, expected: None },
            line: 1
        })
    );
    assert_eq!(
        tree("(72 +)"),
        Err(ParserError {
            kind: ErrorKind::UnexpectedToken { found: TokenKind::RightParenthesis, expected: None },
            line: 1
        })
    );
    assert_eq!(
        tree("(1\n 2"),
        Err(ParserError {
            kind: ErrorKind::UnexpectedToken { found: number("2"), expected: None },
            line: 2
        })
    );
    assert_eq!(
        tree("\n(1;"),
        Err(ParserError {
            kind: ErrorKind::UnexpectedToken {
                found: TokenKind::Semicolon,
                expected: Some(TokenKind::RightParenthesis)
            },
            line: 2
        })
    );
    assert_eq!(
        tree("print 1\n"),
        Err(ParserError {
            kind: ErrorKind::UnexpectedToken {
                found: TokenKind::Eof,
                expected: Some(TokenKind::Semicolon)
            },
            line: 2
        })
    );
    assert_eq!(
        tree("print 1; 2;"),
        Err(ParserError {
            kind: ErrorKind::UnexpectedToken { found: number("2"), expected: None },
            line: 1
        })
    );
    assert_eq!(
        tree("1 foo"),
        Err(ParserError {
            kind: ErrorKind::UnexpectedToken { found: identifier("foo"), expected: None },
            line: 1
        })
    );
    let tokens = vec![
        Token::new(TokenKind::LeftParenthesis, 4),
        Token::new(TokenKind::True, 5),
    ];
    assert_eq!(
        Parser::new(tokens).parse(),
        Err(ParserError { kind: ErrorKind::UnexpectedEof, line: 5 })
    );
    let tokens = vec![Token::new(TokenKind::Print, 7), Token::new(TokenKind::Nil, 8)];
    assert_eq!(
        Parser::new(tokens).parse(),
        Err(ParserError { kind: ErrorKind::UnexpectedEof, line: 7 })
    );
}

#[test]
fn parser_error_messages() {
    assert_eq!(
        ParserError::new(ErrorKind::UnexpectedEof, 3).to_string(),
        "unexpected EOF\n[line 3]"
    );
    assert_eq!(
        tree("(1;").unwrap_err().to_string(),
        "found unexpected token `SEMICOLON`, expected `RIGHT_PAREN`\n[line 1]"
    );
    assert_eq!(tree("+").unwrap_err().to_string(), "found unexpected token `PLUS`\n[line 1]");
}

#[test]
fn parser_leaves_what_follows_an_expression() {
    assert_eq!(printed("1 ) 2"), "1.0");
    assert_eq!(printed("1 ; 2"), "1.0");
}

#[test]
fn values_are_truthy_but_nil_and_false() {
    assert!(!Value::Nil.is_truthy());
    assert!(!Value::Boolean(false).is_truthy());
    assert!(Value::Boolean(true).is_truthy());
    assert!(Value::Number(0f64.to_bits()).is_truthy());
    assert!(Value::String(String::new()).is_truthy());
    assert_eq!(value("!nil"), Ok(Value::Boolean(true)));
    assert_eq!(value("!0"), Ok(Value::Boolean(false)));
    assert_eq!(value("!\"\""), Ok(Value::Boolean(false)));
    assert_eq!(value("!!nil"), Ok(Value::Boolean(false)));
}

#[test]
fn arithmetic_is_that_of_floating_point() {
    assert_eq!(value("1 + 2"), Ok(Value::Number(3f64.to_bits())));
    assert_eq!(value("7 - 10"), Ok(Value::Number((-3f64).to_bits())));
    assert_eq!(value("1.5 * 4"), Ok(Value::Number(6f64.to_bits())));
    assert_eq!(value("1 / 4"), Ok(Value::Number(0.25f64.to_bits())));
    assert_eq!(value("-2.5"), Ok(Value::Number((-2.5f64).to_bits())));
    assert_eq!(value("0.1 + 0.2"), Ok(Value::Number((0.1f64 + 0.2f64).to_bits())));
    assert_eq!(value("1 / 0"), Ok(Value::Number(f64::INFINITY.to_bits())));
    assert_eq!(evaluate("1 / 0").output, strings(&["inf"]));
    assert_eq!(evaluate("(0 / 0) == (0 / 0)").output, strings(&["false"]));
    assert_eq!(evaluate("(0 / 0) != (0 / 0)").output, strings(&["true"]));
    assert_eq!(evaluate("(0 / 0) <= (0 / 0)").output, strings(&["false"]));
    assert_eq!(evaluate("-0 == 0").output, strings(&["true"]));
    assert_eq!(evaluate("1 - 3").output, strings(&["-2"]));
    assert_eq!(evaluate("1 / 3").output, strings(&[&format!("{}", 1f64 / 3f64)]));
}

#[test]
fn comparisons_order_numbers() {
    for (source, expected) in [
        ("1 < 2", true),
        ("2 < 2", false),
        ("2 <= 2", true),
        ("3 <= 2", false),
        ("3 > 2", true),
        ("2 > 2", false),
        ("2 >= 2", true),
        ("1 >= 2", false),
        ("2 == 2", true),
        ("2 == 2.0", true),
        ("2 != 2", false),
        ("2 != 3", true),
    ] {
        assert_eq!(value(source), Ok(Value::Boolean(expected)), "{source}");
    }
}

#[test]
fn equality_takes_any_two_values() {
    for (source, expected) in [
        ("nil == nil", true),
        ("nil == false", false),
        ("true == true", true),
        ("true == false", false),
        ("\"a\" == \"a\"", true),
        ("\"a\" == \"b\"", false),
        ("\"1\" == 1", false),
        ("1 == \"1\"", false),
        ("nil != 0", true),
        ("\"\" != nil", true),
        ("true != true", false),
    ] {
        assert_eq!(value(source), Ok(Value::Boolean(expected)), "{source}");
    }
    assert!(Value::Number(1f64.to_bits()).equals(&Value::Number(1f64.to_bits()), &order));
    assert!(!Value::Number(f64::NAN.to_bits()).equals(&Value::Number(f64::NAN.to_bits()), &order));
    assert!(!Value::Nil.equals(&Value::Boolean(false), &order));
}

#[test]
fn runtime_errors_name_their_kind_and_line() {
    let error = |kind, line| Err(InterpreterError { kind, line });
    assert_eq!(value("-nil"), error(RuntimeErrorKind::OperandMustBeNumber, 1));
    assert_eq!(value("-\n\"a\""), error(RuntimeErrorKind::OperandMustBeNumber, 2));
    assert_eq!(value("1 + nil"), error(RuntimeErrorKind::OperandsMustBeNumbersOrStrings, 1));
    assert_eq!(value("\"a\" + 1"), error(RuntimeErrorKind::OperandsMustBeNumbersOrStrings, 1));
    assert_eq!(value("\n1\n+\nnil"), error(RuntimeErrorKind::OperandsMustBeNumbersOrStrings, 2));
    assert_eq!(value("nil * 1"), error(RuntimeErrorKind::OperandsMustBeNumbers, 1));
    assert_eq!(value("\"a\" - \"b\""), error(RuntimeErrorKind::OperandsMustBeNumbers, 1));
    assert_eq!(value("1 / true"), error(RuntimeErrorKind::OperandsMustBeNumbers, 1));
    assert_eq!(value("\"a\" < \"b\""), error(RuntimeErrorKind::OperandsMustBeNumbers, 1));
    assert_eq!(value("1 >= nil"), error(RuntimeErrorKind::OperandsMustBeNumbers, 1));
    assert_eq!(value("(\nnil) + 1"), error(RuntimeErrorKind::OperandsMustBeNumbersOrStrings, 1));
}

#[test]
fn the_left_error_comes_first() {
    let error = |kind, line| Err(InterpreterError { kind, line });
    assert_eq!(value("(-nil) + (1 * nil)"), error(RuntimeErrorKind::OperandMustBeNumber, 1));
    assert_eq!(value("1 + (1 * nil)"), error(RuntimeErrorKind::OperandsMustBeNumbers, 1));
    assert_eq!(value("(1 < nil) == (-nil)"), error(RuntimeErrorKind::OperandsMustBeNumbers, 1));
}

#[test]
fn runtime_error_messages() {
    let message = |kind| InterpreterError::new(kind, 14).to_string();
    assert_eq!(message(RuntimeErrorKind::OperandMustBeNumber), "Operand must be a number.\n[line 14]");
    assert_eq!(message(RuntimeErrorKind::OperandsMustBeNumbers), "Operands must be numbers.\n[line 14]");
    assert_eq!(
        message(RuntimeErrorKind::OperandsMustBeNumbersOrStrings),
        "Operands must be two numbers or two strings.\n[line 14]"
    );
    assert_eq!(message(RuntimeErrorKind::ExpectedExpression), "Expected expression\n[line 14]");
    assert_eq!(message(RuntimeErrorKind::ExpectedStatement), "Expected statement\n[line 14]");
}

#[test]
fn values_are_displayed() {
    assert_eq!(Value::Nil.display(&show), "nil");
    assert_eq!(Value::Boolean(true).display(&show), "true");
    assert_eq!(Value::Boolean(false).display(&show), "false");
    assert_eq!(Value::Number(5f64.to_bits()).display(&show), "5");
    assert_eq!(Value::Number(10.4f64.to_bits()).display(&show), "10.4");
    assert_eq!(Value::String("a \"b\"".to_string()).display(&show), "a \"b\"");
}

#[test]
fn interpreter_wants_the_right_kind_of_tree() {
    let statement = tree("\nprint 1;").unwrap();
    assert_eq!(
        Interpreter::new(statement).evaluate(&calculate, &order),
        Err(InterpreterError { kind: RuntimeErrorKind::ExpectedExpression, line: 2 })
    );
    let run = Interpreter::new(tree("\n\n1 + 1").unwrap()).run(&calculate, &order, &show);
    assert!(run.printed.is_empty());
    assert_eq!(
        run.outcome,
        Err(InterpreterError { kind: RuntimeErrorKind::ExpectedStatement, line: 3 })
    );
    assert_eq!(
        Interpreter::new(tree("1 + 1").unwrap()).evaluate(&calculate, &order),
        Ok(Value::Number(2f64.to_bits()))
    );
    assert_eq!(evaluate("print 1;").errors, strings(&["Expected expression\n[line 1]"]));
    assert_eq!(evaluate("print 1;").exit_code, 70);
    let report = run_source("1", &calculate, &order, &show);
    assert_eq!(report.errors, strings(&["Expected statement\n[line 1]"]));
    assert_eq!(report.exit_code, 70);
}

#[test]
fn a_run_stops_at_the_first_error() {
    let report = run_source(
        "print 1;\nprint \"two\";\nprint -nil;\nprint 4;",
        &calculate,
        &order,
        &show,
    );
    assert_eq!(report.output, strings(&["1", "two"]));
    assert_eq!(report.errors, strings(&["Operand must be a number.\n[line 3]"]));
    assert_eq!(report.exit_code, 70);
}

#[test]
fn a_run_prints_each_value_on_its_line() {
    let report = run_source(
        "print 1 + 1; print nil; print !nil; print \"a\" + \"b\"; print 2 > 1;",
        &calculate,
        &order,
        &show,
    );
    assert_eq!(report.output, strings(&["2", "nil", "true", "ab", "true"]));
    assert!(report.errors.is_empty());
    assert_eq!(report.exit_code, 0);
}

#[test]
fn commands_that_do_not_scan_or_parse_end_with_65() {
    for report in [
        parse_source("1 + @", &render),
        evaluate("1 + @"),
        run_source("print @;", &calculate, &order, &show),
    ] {
        assert!(report.output.is_empty());
        assert_eq!(report.errors, strings(&["[line 1] Error: Unexpected character: @"]));
        assert_eq!(report.exit_code, 65);
    }
    for report in [
        parse_source("1 +", &render),
        evaluate("1 +"),
    ] {
        assert!(report.output.is_empty());
        assert_eq!(report.errors, strings(&["found unexpected token `EOF`\n[line 1]"]));
        assert_eq!(report.exit_code, 65);
    }
    let report = run_source("print 1", &calculate, &order, &show);
    assert_eq!(report.errors, strings(&["found unexpected token `EOF`, expected `SEMICOLON`\n[line 1]"]));
    assert_eq!(report.exit_code, 65);
}

#[test]
fn tokenize_writes_tokens_beside_errors() {
    let report = tokenize_source("1 @ \"a", &render);
    assert_eq!(report.output, strings(&["NUMBER 1 1.0", "EOF  null"]));
    assert_eq!(
        report.errors,
        strings(&[
            "[line 1] Error: Unexpected character: @",
            "[line 1] Error: Unterminated string."
        ])
    );
    assert_eq!(report.exit_code, 65);
}

#[test]
fn program_errors_have_their_exit_codes() {
    assert_eq!(ProgramError::Scanner(Vec::new()).exit_code(), 65);
    assert_eq!(
        ProgramError::Parser(ParserError::new(ErrorKind::UnexpectedEof, 1)).exit_code(),
        65
    );
    assert_eq!(
        ProgramError::Interpreter(InterpreterError::new(RuntimeErrorKind::OperandMustBeNumber, 1))
            .exit_code(),
        70
    );
}

#[test]
fn commands_are_read_from_the_arguments() {
    let arguments = |list: &[&str]| list.iter().map(|argument| argument.to_string()).collect::<Vec<_>>();
    let file = "a.lox".to_string();
    assert_eq!(Command::from_arguments(arguments(&["help"])), Ok(Command::Help));
    assert_eq!(Command::from_arguments(arguments(&["help", "me"])), Ok(Command::Help));
    assert_eq!(
        Command::from_arguments(arguments(&["tokenize", "a.lox"])),
        Ok(Command::Tokenize { filename: file.clone() })
    );
    assert_eq!(
        Command::from_arguments(arguments(&["parse", "a.lox", "b.lox"])),
        Ok(Command::Parse { filename: file.clone() })
    );
    assert_eq!(
        Command::from_arguments(arguments(&["evaluate", "a.lox"])),
        Ok(Command::Evaluate { filename: file.clone() })
    );
    assert_eq!(
        Command::from_arguments(arguments(&["run", "a.lox"])),
        Ok(Command::Run { filename: file })
    );
    assert_eq!(
        Command::from_arguments(arguments(&[])),
        Err(CommandError::MissingArgument("command"))
    );
    assert_eq!(
        Command::from_arguments(arguments(&["run"])),
        Err(CommandError::MissingArgument("filename"))
    );
    assert_eq!(
        Command::from_arguments(arguments(&["Run", "a.lox"])),
        Err(CommandError::UnknownCommand("Run".to_string()))
    );
    assert_eq!(
        Command::from_arguments(arguments(&[""])),
        Err(CommandError::UnknownCommand(String::new()))
    );
    assert_eq!(CommandError::MissingArgument("filename").to_string(), "missing argument `filename`");
    assert_eq!(
        CommandError::UnknownCommand("scan".to_string()).to_string(),
        "unknown command `scan`"
    );
}

#[test]
fn settings_are_read() {
    assert_eq!(Colorization::from_setting(None), Colorization::Enabled);
    assert_eq!(Colorization::from_setting(Some("disabled")), Colorization::Disabled);
    assert_eq!(Colorization::from_setting(Some("Disabled")), Colorization::Enabled);
    assert_eq!(Colorization::from_setting(Some("")), Colorization::Enabled);
    assert_eq!(Environment::from_setting(None), Environment::Regular);
    assert_eq!(Environment::from_setting(Some("yes")), Environment::Testing);
    assert_eq!(Environment::from_setting(Some("no")), Environment::Regular);
}

#[test]
fn program_errors_have_their_messages() {
    let scanner = ProgramError::Scanner(vec![
        ScannerError::UnknownCharacter { character: '#', line: 1 },
        ScannerError::UnterminatedString { line: 2 },
    ]);
    assert_eq!(
        scanner.messages(),
        strings(&["[line 1] Error: Unexpected character: #", "[line 2] Error: Unterminated string."])
    );
    let parser = ProgramError::Parser(ParserError::new(ErrorKind::UnexpectedEof, 9));
    assert_eq!(parser.messages(), strings(&["unexpected EOF\n[line 9]"]));
    let interpreter = ProgramError::Interpreter(InterpreterError::new(
        RuntimeErrorKind::OperandsMustBeNumbers,
        2,
    ));
    assert_eq!(interpreter.messages(), strings(&["Operands must be numbers.\n[line 2]"]));
    assert_eq!(
        Report::failure(strings(&["a"]), &interpreter),
        Report {
            output: strings(&["a"]),
            errors: strings(&["Operands must be numbers.\n[line 2]"]),
            exit_code: 70
        }
    );
    assert_eq!(
        Report::success(strings(&["a", "b"])),
        Report { output: strings(&["a", "b"]), errors: Vec::new(), exit_code: 0 }
    );
}

#[test]
fn a_source_text_has_a_tree_or_an_error() {
    assert_eq!(parse_tree("nil").unwrap(), tree("nil").unwrap());
    assert_eq!(
        parse_tree("1 $ \n ?"),
        Err(ProgramError::Scanner(vec![
            ScannerError::UnknownCharacter { character: '$', line: 1 },
            ScannerError::UnknownCharacter { character: '?', line: 2 },
        ]))
    );
    assert_eq!(
        parse_tree("(1"),
        Err(ProgramError::Parser(ParserError {
            kind: ErrorKind::UnexpectedToken {
                found: TokenKind::Eof,
                expected: Some(TokenKind::RightParenthesis)
            },
            line: 1
        }))
    );
}
