use bagel::program::{tokenize_source, Report};

fn render(written: &str) -> String {
    let value: f64 = written.parse().unwrap();
    if value.fract() == 0.0 {
        format!("{value:.1}")
    } else {
        format!("{value}")
    }
}

fn tokenize_text(source: &str) -> Report {
    tokenize_source(source, &render)
}

/// What the report puts on a stream: each element and a newline.
fn stream(lines: &[String]) -> String {
    let mut text = String::new();
    for line in lines {
        text.push_str(line);
        text.push('\n');
    }
    text
}

#[test]
fn assignment_equality_test() {
    let report = tokenize_text("={===}");
    assert_eq!(stream(&report.output), "EQUAL = null\nLEFT_BRACE { null\nEQUAL_EQUAL == null\nEQUAL = null\nRIGHT_BRACE } null\nEOF  null\n");
    assert_eq!(report.exit_code, 0);
    assert!(report.errors.is_empty());
}

#[test]
fn division_comment_slash() {
    let report = tokenize_text("/()");
    assert_eq!(stream(&report.output), "SLASH / null\nLEFT_PAREN ( null\nRIGHT_PAREN ) null\nEOF  null\n");
    assert_eq!(report.exit_code, 0);
    assert!(report.errors.is_empty());
}

#[test]
fn division_comment_comment() {
    let report = tokenize_text("() // Comment");
    assert_eq!(stream(&report.output), "LEFT_PAREN ( null\nRIGHT_PAREN ) null\nEOF  null\n");
    assert_eq!(report.exit_code, 0);
    assert!(report.errors.is_empty());
}

#[test]
fn empty() {
    let report = tokenize_text("");
    assert_eq!(stream(&report.output), "EOF  null\n");
    assert_eq!(report.exit_code, 0);
    assert!(report.errors.is_empty());
}

#[test]
fn identifier_test() {
    let report = tokenize_text("foo bar _hello");
    assert_eq!(stream(&report.output), "IDENTIFIER foo null\nIDENTIFIER bar null\nIDENTIFIER _hello null\nEOF  null\n");
    assert_eq!(report.exit_code, 0);
    assert!(report.errors.is_empty());
}

#[test]
fn lexical_error_test() {
    let report = tokenize_text(",.$(#");
    assert_eq!(stream(&report.output), "COMMA , null\nDOT . null\nLEFT_PAREN ( null\nEOF  null\n");
    assert_eq!(stream(&report.errors), "[line 1] Error: Unexpected character: $\n[line 1] Error: Unexpected character: #\n");
    assert_eq!(report.exit_code, 65);
}

#[test]
fn multi_line_error_test() {
    let report = tokenize_text("# (\n)\t@\n");
    assert_eq!(stream(&report.output), "LEFT_PAREN ( null\nRIGHT_PAREN ) null\nEOF  null\n");
    assert_eq!(stream(&report.errors), "[line 1] Error: Unexpected character: #\n[line 2] Error: Unexpected character: @\n");
    assert_eq!(report.exit_code, 65);
}

#[test]
fn negation_inequality_test() {
    let report = tokenize_text("!!===");
    assert_eq!(stream(&report.output), "BANG ! null\nBANG_EQUAL != null\nEQUAL_EQUAL == null\nEOF  null\n");
    assert_eq!(report.exit_code, 0);
    assert!(report.errors.is_empty());
}

#[test]
fn number_integer() {
    let report = tokenize_text("42");
    assert_eq!(stream(&report.output), "NUMBER 42 42.0\nEOF  null\n");
    assert_eq!(report.exit_code, 0);
    assert!(report.errors.is_empty());
}

#[test]
fn number_decimal() {
    let report = tokenize_text("1234.1234");
    assert_eq!(stream(&report.output), "NUMBER 1234.1234 1234.1234\nEOF  null\n");
    assert_eq!(report.exit_code, 0);
    assert!(report.errors.is_empty());
}

#[test]
fn reserved_test() {
    let report = tokenize_text("and");
    assert_eq!(stream(&report.output), "AND and null\nEOF  null\n");
    assert_eq!(report.exit_code, 0);
    assert!(report.errors.is_empty());
}

#[test]
fn single_character_test() {
    let report = tokenize_text("({*.,+-*};)");
    assert_eq!(stream(&report.output), "LEFT_PAREN ( null\nLEFT_BRACE { null\nSTAR * null\nDOT . null\nCOMMA , null\nPLUS + null\nMINUS - null\nSTAR * null\nRIGHT_BRACE } null\nSEMICOLON ; null\nRIGHT_PAREN ) null\nEOF  null\n");
    assert_eq!(report.exit_code, 0);
    assert!(report.errors.is_empty());
}

#[test]
fn success() {
    let report = tokenize_text("\"foo baz\"");
    assert_eq!(stream(&report.output), "STRING \"foo baz\" foo baz\nEOF  null\n");
    assert_eq!(report.exit_code, 0);
    assert!(report.errors.is_empty());
}

#[test]
fn failure() {
    let report = tokenize_text("\"bar");
    assert_eq!(stream(&report.output), "EOF  null\n");
    assert_eq!(stream(&report.errors), "[line 1] Error: Unterminated string.\n");
    assert_eq!(report.exit_code, 65);
}

#[test]
fn whitespace_test() {
    let report = tokenize_text("(\t\n )\n");
    assert_eq!(stream(&report.output), "LEFT_PAREN ( null\nRIGHT_PAREN ) null\nEOF  null\n");
    assert_eq!(report.exit_code, 0);
    assert!(report.errors.is_empty());
}

#[test]
fn scanning_empty_file() {
    let report = tokenize_text("");
    assert_eq!(stream(&report.output), "EOF  null\n");
    assert_eq!(report.exit_code, 0);
    assert!(report.errors.is_empty());
}

#[test]
fn scanning_parentheses() {
    let report = tokenize_text("(()");
    assert_eq!(stream(&report.output), "LEFT_PAREN ( null\nLEFT_PAREN ( null\nRIGHT_PAREN ) null\nEOF  null\n");
    assert_eq!(report.exit_code, 0);
    assert!(report.errors.is_empty());
}

#[test]
fn assignment_equality_operators() {
    let report = tokenize_text("={===}");
    assert_eq!(stream(&report.output), "EQUAL = null\nLEFT_BRACE { null\nEQUAL_EQUAL == null\nEQUAL = null\nRIGHT_BRACE } null\nEOF  null\n");
    assert_eq!(report.exit_code, 0);
    assert!(report.errors.is_empty());
}

#[test]
fn braces_braces() {
    let report = tokenize_text("{{}}");
    assert_eq!(stream(&report.output), "LEFT_BRACE { null\nLEFT_BRACE { null\nRIGHT_BRACE } null\nRIGHT_BRACE } null\nEOF  null\n");
    assert_eq!(report.exit_code, 0);
    assert!(report.errors.is_empty());
}

#[test]
fn division_or_comment_comment() {
    let report = tokenize_text("() // Comment");
    assert_eq!(stream(&report.output), "LEFT_PAREN ( null\nRIGHT_PAREN ) null\nEOF  null\n");
    assert_eq!(report.exit_code, 0);
    assert!(report.errors.is_empty());
}

#[test]
fn division_or_comment_slash() {
    let report = tokenize_text("/()");
    assert_eq!(stream(&report.output), "SLASH / null\nLEFT_PAREN ( null\nRIGHT_PAREN ) null\nEOF  null\n");
    assert_eq!(report.exit_code, 0);
    assert!(report.errors.is_empty());
}

#[test]
fn empty_file_empty_file() {
    let report = tokenize_text("");
    assert_eq!(stream(&report.output), "EOF  null\n");
    assert_eq!(report.exit_code, 0);
    assert!(report.errors.is_empty());
}

#[test]
fn identifiers_braces() {
    let report = tokenize_text("foo bar _hello");
    assert_eq!(stream(&report.output), "IDENTIFIER foo null\nIDENTIFIER bar null\nIDENTIFIER _hello null\nEOF  null\n");
    assert_eq!(report.exit_code, 0);
    assert!(report.errors.is_empty());
}

#[test]
fn lexical_error() {
    let report = tokenize_text(",.$(#");
    assert_eq!(stream(&report.output), "COMMA , null\nDOT . null\nLEFT_PAREN ( null\nEOF  null\n");
    assert_eq!(stream(&report.errors), "[line 1] Error: Unexpected character: $\n[line 1] Error: Unexpected character: #\n");
    assert_eq!(report.exit_code, 65);
}

#[test]
fn multi_line_error() {
    let report = tokenize_text("# (\n)   @\n");
    assert_eq!(stream(&report.output), "LEFT_PAREN ( null\nRIGHT_PAREN ) null\nEOF  null\n");
    assert_eq!(stream(&report.errors), "[line 1] Error: Unexpected character: #\n[line 2] Error: Unexpected character: @\n");
    assert_eq!(report.exit_code, 65);
}

#[test]
fn negation_inequality_operators() {
    let report = tokenize_text("!!===");
    assert_eq!(stream(&report.output), "BANG ! null\nBANG_EQUAL != null\nEQUAL_EQUAL == null\nEOF  null\n");
    assert_eq!(report.exit_code, 0);
    assert!(report.errors.is_empty());
}

#[test]
fn number_literal_integer() {
    let report = tokenize_text("42");
    assert_eq!(stream(&report.output), "NUMBER 42 42.0\nEOF  null\n");
    assert_eq!(report.exit_code, 0);
    assert!(report.errors.is_empty());
}

#[test]
fn number_literal_decimal() {
    let report = tokenize_text("1234.1234");
    assert_eq!(stream(&report.output), "NUMBER 1234.1234 1234.1234\nEOF  null\n");
    assert_eq!(report.exit_code, 0);
    assert!(report.errors.is_empty());
}

#[test]
fn scanning_parentheses_parentheses() {
    let report = tokenize_text("(()");
    assert_eq!(stream(&report.output), "LEFT_PAREN ( null\nLEFT_PAREN ( null\nRIGHT_PAREN ) null\nEOF  null\n");
    assert_eq!(report.exit_code, 0);
    assert!(report.errors.is_empty());
}

#[test]
fn relational_operators() {
    let report = tokenize_text("<<=>>=");
    assert_eq!(stream(&report.output), "LESS < null\nLESS_EQUAL <= null\nGREATER > null\nGREATER_EQUAL >= null\nEOF  null\n");
    assert_eq!(report.exit_code, 0);
    assert!(report.errors.is_empty());
}

#[test]
fn reserved_words() {
    let report = tokenize_text("and");
    assert_eq!(stream(&report.output), "AND and null\nEOF  null\n");
    assert_eq!(report.exit_code, 0);
    assert!(report.errors.is_empty());
}

#[test]
fn single_char_tokens() {
    let report = tokenize_text("({*.,+-*};)");
    assert_eq!(stream(&report.output), "LEFT_PAREN ( null\nLEFT_BRACE { null\nSTAR * null\nDOT . null\nCOMMA , null\nPLUS + null\nMINUS - null\nSTAR * null\nRIGHT_BRACE } null\nSEMICOLON ; null\nRIGHT_PAREN ) null\nEOF  null\n");
    assert_eq!(report.exit_code, 0);
    assert!(report.errors.is_empty());
}

#[test]
fn scanning_string_string() {
    let report = tokenize_text("\"foo baz\"");
    assert_eq!(stream(&report.output), "STRING \"foo baz\" foo baz\nEOF  null\n");
    assert_eq!(report.exit_code, 0);
    assert!(report.errors.is_empty());
}

#[test]
fn string_unterminated_string() {
    let report = tokenize_text("\"bar");
    assert_eq!(stream(&report.output), "EOF  null\n");
    assert_eq!(stream(&report.errors), "[line 1] Error: Unterminated string.\n");
    assert_ne!(report.exit_code, 0);
}

#[test]
fn string_literal_string() {
    let report = tokenize_text("\"foo baz\"");
    assert_eq!(stream(&report.output), "STRING \"foo baz\" foo baz\nEOF  null\n");
    assert_eq!(report.exit_code, 0);
    assert!(report.errors.is_empty());
}

#[test]
fn string_literal_unterminated_string() {
    let report = tokenize_text("\"bar");
    assert_eq!(stream(&report.output), "EOF  null\n");
    assert_eq!(stream(&report.errors), "[line 1] Error: Unterminated string.\n");
    assert_ne!(report.exit_code, 0);
}

#[test]
fn whitespace_comment() {
    let report = tokenize_text("() // Comment");
    assert_eq!(stream(&report.output), "LEFT_PAREN ( null\nRIGHT_PAREN ) null\nEOF  null\n");
    assert_eq!(report.exit_code, 0);
    assert!(report.errors.is_empty());
}

#[test]
fn whitespace_slash() {
    let report = tokenize_text("(   \n)\n");
    assert_eq!(stream(&report.output), "LEFT_PAREN ( null\nRIGHT_PAREN ) null\nEOF  null\n");
    assert_eq!(report.exit_code, 0);
    assert!(report.errors.is_empty());
}
