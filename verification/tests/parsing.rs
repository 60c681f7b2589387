use bagel::program::{parse_source, tokenize_source, Report};

fn render(written: &str) -> String {
    let value: f64 = written.parse().unwrap();
    if value.fract() == 0.0 {
        format!("{value:.1}")
    } else {
        format!("{value}")
    }
}

fn parse_text(source: &str) -> Report {
    parse_source(source, &render)
}

/// What the report puts on a stream: each element and a newline.
fn stream(lines: &[String]) -> String {
    let mut text = String::new();
    for line in lines {
        text.push_str(line);
        text.push('\n');
    }
    text
}

#[test]
fn tokenize() {
    let report = tokenize_source("2 + 3", &render);
    assert_eq!(stream(&report.output), "NUMBER 2 2.0\nPLUS + null\nNUMBER 3 3.0\nEOF  null\n");
    assert_eq!(report.exit_code, 0);
    assert!(report.errors.is_empty());
}

#[test]
fn parse() {
    let report = parse_text("2 + 3");
    assert_eq!(stream(&report.output), "(+ 2.0 3.0)\n");
    assert_eq!(report.exit_code, 0);
    assert!(report.errors.is_empty());
}

#[test]
fn arithmetic() {
    let report = parse_text("16 * 38 / 58");
    assert_eq!(stream(&report.output), "(/ (* 16.0 38.0) 58.0)\n");
    assert_eq!(report.exit_code, 0);
    assert!(report.errors.is_empty());
}

#[test]
fn true_test() {
    let report = parse_text("true");
    assert_eq!(stream(&report.output), "true\n");
    assert_eq!(report.exit_code, 0);
    assert!(report.errors.is_empty());
}

#[test]
fn false_test() {
    let report = parse_text("false");
    assert_eq!(stream(&report.output), "false\n");
    assert_eq!(report.exit_code, 0);
    assert!(report.errors.is_empty());
}

#[test]
fn comparison() {
    let report = parse_text("83 < 99 < 115");
    assert_eq!(stream(&report.output), "(< (< 83.0 99.0) 115.0)\n");
    assert_eq!(report.exit_code, 0);
    assert!(report.errors.is_empty());
}

#[test]
fn equality_equal() {
    let report = parse_text("\"baz\" == \"baz\"");
    assert_eq!(stream(&report.output), "(== baz baz)\n");
    assert_eq!(report.exit_code, 0);
    assert!(report.errors.is_empty());
}

#[test]
fn not_equal() {
    let report = parse_text("\"foo\" != \"baz\"");
    assert_eq!(stream(&report.output), "(!= foo baz)\n");
    assert_eq!(report.exit_code, 0);
    assert!(report.errors.is_empty());
}

#[test]
fn errors_equal() {
    let report = parse_text("(72 +)");
    assert_eq!(report.exit_code, 65);
}

#[test]
fn multiplication() {
    let report = parse_text("38 * 58");
    assert_eq!(stream(&report.output), "(* 38.0 58.0)\n");
    assert_eq!(report.exit_code, 0);
    assert!(report.errors.is_empty());
}

#[test]
fn nil() {
    let report = parse_text("nil");
    assert_eq!(stream(&report.output), "nil\n");
    assert_eq!(report.exit_code, 0);
    assert!(report.errors.is_empty());
}

#[test]
fn not() {
    let report = parse_text("!true");
    assert_eq!(stream(&report.output), "(! true)\n");
    assert_eq!(report.exit_code, 0);
    assert!(report.errors.is_empty());
}

#[test]
fn number_number() {
    let report = parse_text("42.47");
    assert_eq!(stream(&report.output), "42.47\n");
    assert_eq!(report.exit_code, 0);
    assert!(report.errors.is_empty());
}

#[test]
fn parentheses_parentheses() {
    let report = parse_text("(\"foo\")");
    assert_eq!(stream(&report.output), "(group foo)\n");
    assert_eq!(report.exit_code, 0);
    assert!(report.errors.is_empty());
}

#[test]
fn parsing_string_string() {
    let report = parse_text("\"hello\"");
    assert_eq!(stream(&report.output), "hello\n");
    assert_eq!(report.exit_code, 0);
    assert!(report.errors.is_empty());
}
