use bagel::interpreter::{Calculation, Order};
use bagel::program::{run_source, Report};
use bagel::tree::operator::ArithmeticOperator;

fn calculate(calculation: Calculation) -> u64 {
    let value = match calculation {
        Calculation::Literal(written) => written.parse::<f64>().unwrap(),
        Calculation::Negate(bits) => -f64::from_bits(bits),
        Calculation::Arithmetic(operator, a, b) => {
            let (a, b) = (f64::from_bits(a), f64::from_bits(b));
            match operator {
                ArithmeticOperator::Add => a + b,
                ArithmeticOperator::Divide => a / b,
                ArithmeticOperator::Multiply => a * b,
                ArithmeticOperator::Subtract => a - b,
            }
        }
    };
    value.to_bits()
}

fn order(a: u64, b: u64) -> Order {
    let (a, b) = (f64::from_bits(a), f64::from_bits(b));
    if a < b {
        Order::Less
    } else if a > b {
        Order::Greater
    } else if a == b {
        Order::Equal
    } else {
        Order::Unordered
    }
}

fn show(bits: u64) -> String {
    let value = f64::from_bits(bits);
    if value.fract() == 0.0 {
        format!("{}", value.trunc())
    } else {
        format!("{value}")
    }
}

fn run_text(source: &str) -> Report {
    run_source(source, &calculate, &order, &show)
}

/// What the report puts on a stream: each element and a newline.
fn stream(lines: &[String]) -> String {
    let mut text = String::new();
    for line in lines {
        text.push_str(line);
        text.push('\n');
    }
    text
}

#[test]
fn multiple_one() {
    let report = run_text("print \"Hello, World!\";\nprint 42;\n");
    assert_eq!(report.output.join("\n"), "Hello, World!\n42");
    assert_eq!(report.exit_code, 0);
    assert!(report.errors.is_empty());
}

#[test]
fn print() {
    let report = run_text("print \"Hello, World!\";");
    assert_eq!(stream(&report.output), "Hello, World!\n");
    assert_eq!(report.exit_code, 0);
    assert!(report.errors.is_empty());
}
