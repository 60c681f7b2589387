//! The four commands on a source text: what each writes and how it ends.
//!
//! Nothing is read or written here. A command takes the source text and
//! gives back a [`Report`]: the lines for the standard output, the messages
//! for the standard error, and the exit code.
//!
//! A command states what it reports in two ways. Where the arithmetic and
//! the writing of numbers that it is handed compute functions of their
//! arguments, the report is the one that the definition gives with these
//! functions. Whatever it is handed, the report ends like the one of the
//! definition: with the same messages and exit code, after as many lines.

use crate::interpreter::{
    arranges, computes, displays, interpreter_error_text, tree_run, tree_value, value_text,
    Calculation, CalculationView, Interpreter, InterpreterError, InterpreterErrorView, Order,
};
use crate::parser::{parse, parser_error_text, Parser, ParserError, ParserErrorView};
use crate::printer::{tree_text, Printer};
use crate::scanner::{
    errors_of, scan, scanner_error_text, tokens_of, Scanner, ScannerError, ScannerErrorView,
};
use crate::token::{renders, token_text, Token, TokenView};
use crate::tree::{Tree, TreeView};
use vstd::prelude::*;

verus! {

/// The exit code of a command that ended well.
pub const SUCCESS: u8 = 0;

/// The exit code for a source text that does not scan or parse.
pub const MALFORMED: u8 = 65;

/// The exit code for a runtime error.
pub const FAILED: u8 = 70;

/// Why a command on a source text ended badly.
#[derive(Debug, PartialEq, Eq)]
pub enum ProgramError {
    /// The source text does not scan: all its errors, in order.
    Scanner(Vec<ScannerError>),
    /// The tokens do not parse: the first error.
    Parser(ParserError),
    /// The tree does not evaluate or run: the first error.
    Interpreter(InterpreterError),
}

/// The mathematical model of a [`ProgramError`].
pub enum ProgramErrorView {
    Scanner(Seq<ScannerErrorView>),
    Parser(ParserErrorView),
    Interpreter(InterpreterErrorView),
}

impl View for ProgramError {
    type V = ProgramErrorView;

    open spec fn view(&self) -> ProgramErrorView {
        match self {
            ProgramError::Scanner(errors) => ProgramErrorView::Scanner(errors.deep_view()),
            ProgramError::Parser(error) => ProgramErrorView::Parser(error@),
            ProgramError::Interpreter(error) => ProgramErrorView::Interpreter(error@),
        }
    }
}

/// The exit code that an error asks for: one for a source text that is
/// malformed, another for a runtime error.
pub open spec fn error_exit_code(error: ProgramErrorView) -> u8 {
    match error {
        ProgramErrorView::Scanner(_) => MALFORMED,
        ProgramErrorView::Parser(_) => MALFORMED,
        ProgramErrorView::Interpreter(_) => FAILED,
    }
}

/// The messages of `errors`, one for each.
pub open spec fn scanner_error_lines(errors: Seq<ScannerErrorView>) -> Seq<Seq<char>> {
    Seq::new(errors.len(), |index: int| scanner_error_text(errors[index]))
}

/// The messages of an error: one for each error of the scanner, and one for
/// any other error.
pub open spec fn error_messages(error: ProgramErrorView) -> Seq<Seq<char>> {
    match error {
        ProgramErrorView::Scanner(errors) => scanner_error_lines(errors),
        ProgramErrorView::Parser(error) => seq![parser_error_text(error)],
        ProgramErrorView::Interpreter(error) => seq![interpreter_error_text(error)],
    }
}

/// What a command leaves: what to write on the standard output, each
/// element followed by a newline; what to write on the standard error in
/// the same way; and the exit code.
#[derive(Debug, PartialEq, Eq)]
pub struct Report {
    pub output: Vec<String>,
    pub errors: Vec<String>,
    pub exit_code: u8,
}

/// The mathematical model of a [`Report`].
pub struct ReportView {
    pub output: Seq<Seq<char>>,
    pub errors: Seq<Seq<char>>,
    pub exit_code: u8,
}

impl View for Report {
    type V = ReportView;

    open spec fn view(&self) -> ReportView {
        ReportView {
            output: self.output.deep_view(),
            errors: self.errors.deep_view(),
            exit_code: self.exit_code,
        }
    }
}

/// The report of a command that ended with `error` after it had written
/// `output`.
pub open spec fn failure_report(output: Seq<Seq<char>>, error: ProgramErrorView) -> ReportView {
    ReportView { output, errors: error_messages(error), exit_code: error_exit_code(error) }
}

/// The report of a command that ended well after it had written `output`.
pub open spec fn success_report(output: Seq<Seq<char>>) -> ReportView {
    ReportView { output, errors: Seq::empty(), exit_code: SUCCESS }
}

/// Whether two reports end alike: with the same messages and the same exit
/// code, after as many lines of output.
pub open spec fn ends_alike(report: ReportView, other: ReportView) -> bool {
    &&& report.errors == other.errors
    &&& report.exit_code == other.exit_code
    &&& report.output.len() == other.output.len()
}

/// The lines that show `tokens`, one for each.
pub open spec fn token_lines(
    text: spec_fn(Seq<char>) -> Seq<char>,
    tokens: Seq<TokenView>,
) -> Seq<Seq<char>> {
    Seq::new(tokens.len(), |index: int| token_text(tokens[index].kind, text))
}

/// What `tokenize` leaves: the tokens of the source, one on each line, and
/// the messages of the errors. The tokens are written even where there are
/// errors.
pub open spec fn tokenize_report(
    text: spec_fn(Seq<char>) -> Seq<char>,
    source: Seq<char>,
) -> ReportView {
    let elements = scan(source, 1);
    let output = token_lines(text, tokens_of(elements));
    if errors_of(elements).len() == 0 {
        success_report(output)
    } else {
        failure_report(output, ProgramErrorView::Scanner(errors_of(elements)))
    }
}

/// The tree of a source text, or why there is none.
pub open spec fn tree_of(source: Seq<char>) -> Result<TreeView, ProgramErrorView> {
    let elements = scan(source, 1);
    if errors_of(elements).len() > 0 {
        Err(ProgramErrorView::Scanner(errors_of(elements)))
    } else {
        match parse(tokens_of(elements)) {
            Err(error) => Err(ProgramErrorView::Parser(error)),
            Ok(tree) => Ok(tree),
        }
    }
}

/// What `parse` leaves: the tree of the source as text.
pub open spec fn parse_report(
    text: spec_fn(Seq<char>) -> Seq<char>,
    source: Seq<char>,
) -> ReportView {
    match tree_of(source) {
        Err(error) => failure_report(Seq::empty(), error),
        Ok(tree) => success_report(seq![tree_text(text, tree)]),
    }
}

/// What `evaluate` leaves: the value of the expression in the source, or
/// the message of the runtime error.
pub open spec fn evaluate_report(
    number: spec_fn(CalculationView) -> u64,
    ordering: spec_fn(u64, u64) -> Order,
    text: spec_fn(u64) -> Seq<char>,
    source: Seq<char>,
) -> ReportView {
    match tree_of(source) {
        Err(error) => failure_report(Seq::empty(), error),
        Ok(tree) => match tree_value(number, ordering, tree) {
            Ok(value) => success_report(seq![value_text(text, value)]),
            Err(error) => failure_report(Seq::empty(), ProgramErrorView::Interpreter(error)),
        },
    }
}

/// What `run` leaves: the lines that the statements of the source print,
/// and the message of the runtime error that ended the run, if one did.
pub open spec fn run_report(
    number: spec_fn(CalculationView) -> u64,
    ordering: spec_fn(u64, u64) -> Order,
    text: spec_fn(u64) -> Seq<char>,
    source: Seq<char>,
) -> ReportView {
    match tree_of(source) {
        Err(error) => failure_report(Seq::empty(), error),
        Ok(tree) => {
            let run = tree_run(number, ordering, text, tree);
            match run.failed {
                None => success_report(run.printed),
                Some(error) => failure_report(run.printed, ProgramErrorView::Interpreter(error)),
            }
        },
    }
}

/// The messages of scanner errors, one for each.
pub fn scanner_messages(errors: &Vec<ScannerError>) -> (lines: Vec<String>)
    ensures
        lines.deep_view() == scanner_error_lines(errors.deep_view()),
{
    let mut lines: Vec<String> = Vec::new();
    let mut index: usize = 0;
    while index < errors.len()
        invariant
            index <= errors.len(),
            lines.len() == index,
            forall|at: int|
                0 <= at < index ==> (#[trigger] lines[at])@ == scanner_error_text(errors[at]@),
        decreases errors.len() - index,
    {
        lines.push(errors[index].to_string());
        index = index + 1;
    }
    lines
}

impl ProgramError {
    /// The exit code that the error asks for.
    pub fn exit_code(&self) -> (code: u8)
        ensures
            code == error_exit_code(self@),
    {
        match self {
            ProgramError::Scanner(_) => MALFORMED,
            ProgramError::Parser(_) => MALFORMED,
            ProgramError::Interpreter(_) => FAILED,
        }
    }

    /// The messages of the error.
    pub fn messages(&self) -> (lines: Vec<String>)
        ensures
            lines.deep_view() == error_messages(self@),
    {
        match self {
            ProgramError::Scanner(errors) => scanner_messages(errors),
            ProgramError::Parser(error) => {
                let mut lines: Vec<String> = Vec::new();
                let message = error.to_string();
                lines.push(message);
                lines
            },
            ProgramError::Interpreter(error) => {
                let mut lines: Vec<String> = Vec::new();
                let message = error.to_string();
                lines.push(message);
                lines
            },
        }
    }
}

impl Report {
    /// The report of a command that ended well after it had written
    /// `output`.
    pub fn success(output: Vec<String>) -> (report: Report)
        ensures
            report@ == success_report(output.deep_view()),
    {
        let report = Report { output, errors: Vec::new(), exit_code: SUCCESS };
        assert(report.errors.deep_view() == Seq::<Seq<char>>::empty());
        report
    }

    /// The report of a command that ended with `error` after it had written
    /// `output`.
    pub fn failure(output: Vec<String>, error: &ProgramError) -> (report: Report)
        ensures
            report@ == failure_report(output.deep_view(), error@),
    {
        Report { output, errors: error.messages(), exit_code: error.exit_code() }
    }
}

/// The lines that show tokens, one for each.
pub fn describe_tokens<R: Fn(&str) -> String>(tokens: &Vec<Token>, render: &R) -> (lines: Vec<
    String,
>)
    requires
        forall|written: &str| render.requires((written,)),
    ensures
        lines.len() == tokens.len(),
        forall|text: spec_fn(Seq<char>) -> Seq<char>| #[trigger]
            renders(render, text) ==> lines.deep_view() == token_lines(text, tokens.deep_view()),
{
    let mut lines: Vec<String> = Vec::new();
    let mut index: usize = 0;
    while index < tokens.len()
        invariant
            index <= tokens.len(),
            lines.len() == index,
            forall|written: &str| render.requires((written,)),
            forall|text: spec_fn(Seq<char>) -> Seq<char>| #[trigger]
                renders(render, text) ==> (forall|at: int|
                    0 <= at < index ==> (#[trigger] lines[at])@ == token_text(
                        tokens[at]@.kind,
                        text,
                    )),
        decreases tokens.len() - index,
    {
        lines.push(tokens[index].kind.describe(render));
        index = index + 1;
    }
    lines
}

/// One line.
fn one_line(line: String) -> (lines: Vec<String>)
    ensures
        lines.deep_view() == seq![line@],
{
    let mut lines: Vec<String> = Vec::new();
    lines.push(line);
    lines
}

/// No line.
fn no_line() -> (lines: Vec<String>)
    ensures
        lines.deep_view() == Seq::<Seq<char>>::empty(),
{
    let lines: Vec<String> = Vec::new();
    lines
}

/// Writes the tokens of `source`.
pub fn tokenize_source<R: Fn(&str) -> String>(source: &str, render: &R) -> (report: Report)
    requires
        forall|written: &str| render.requires((written,)),
    ensures
        forall|text: spec_fn(Seq<char>) -> Seq<char>| #[trigger]
            renders(render, text) ==> report@ == tokenize_report(text, source@),
        forall|text: spec_fn(Seq<char>) -> Seq<char>|
            ends_alike(report@, #[trigger] tokenize_report(text, source@)),
{
    let (tokens, errors) = Scanner::new(source).split();
    let output = describe_tokens(&tokens, render);
    if errors.len() == 0 {
        Report::success(output)
    } else {
        Report::failure(output, &ProgramError::Scanner(errors))
    }
}

/// The model of what [`parse_tree`] returns.
pub open spec fn tree_result(result: Result<Tree, ProgramError>) -> Result<
    TreeView,
    ProgramErrorView,
> {
    match result {
        Ok(tree) => Ok(tree@),
        Err(error) => Err(error@),
    }
}

/// The tree of `source`, or why there is none.
pub fn parse_tree(source: &str) -> (result: Result<Tree, ProgramError>)
    ensures
        tree_result(result) == tree_of(source@),
{
    let (tokens, errors) = Scanner::new(source).split();
    if errors.len() > 0 {
        return Err(ProgramError::Scanner(errors));
    }
    let mut parser = Parser::new(tokens);
    match parser.parse() {
        Ok(tree) => Ok(tree),
        Err(error) => Err(ProgramError::Parser(error)),
    }
}

/// Writes the tree of `source`.
pub fn parse_source<R: Fn(&str) -> String>(source: &str, render: &R) -> (report: Report)
    requires
        forall|written: &str| render.requires((written,)),
    ensures
        forall|text: spec_fn(Seq<char>) -> Seq<char>| #[trigger]
            renders(render, text) ==> report@ == parse_report(text, source@),
        forall|text: spec_fn(Seq<char>) -> Seq<char>|
            ends_alike(report@, #[trigger] parse_report(text, source@)),
{
    match parse_tree(source) {
        Err(error) => Report::failure(no_line(), &error),
        Ok(tree) => Report::success(one_line(Printer::new(&tree).print(render))),
    }
}

/// Evaluates the expression in `source` and writes its value.
pub fn evaluate_source<C: Fn(Calculation) -> u64, O: Fn(u64, u64) -> Order, S: Fn(u64) -> String>(
    source: &str,
    calculate: &C,
    order: &O,
    show: &S,
) -> (report: Report)
    requires
        forall|calculation: Calculation| calculate.requires((calculation,)),
        forall|a: u64, b: u64| order.requires((a, b)),
        forall|bits: u64| show.requires((bits,)),
    ensures
        forall|
            number: spec_fn(CalculationView) -> u64,
            ordering: spec_fn(u64, u64) -> Order,
            text: spec_fn(u64) -> Seq<char>,
        |
            #![trigger computes(calculate, number), arranges(order, ordering), displays(show, text)]
            computes(calculate, number) && arranges(order, ordering) && displays(show, text)
                ==> report@ == evaluate_report(number, ordering, text, source@),
        forall|
            number: spec_fn(CalculationView) -> u64,
            ordering: spec_fn(u64, u64) -> Order,
            text: spec_fn(u64) -> Seq<char>,
        |
            ends_alike(report@, #[trigger] evaluate_report(number, ordering, text, source@)),
{
    match parse_tree(source) {
        Err(error) => Report::failure(no_line(), &error),
        Ok(tree) => {
            match Interpreter::new(tree).evaluate(calculate, order) {
                Ok(value) => Report::success(one_line(value.display(show))),
                Err(error) => Report::failure(no_line(), &ProgramError::Interpreter(error)),
            }
        },
    }
}

/// Runs the statements in `source`.
pub fn run_source<C: Fn(Calculation) -> u64, O: Fn(u64, u64) -> Order, S: Fn(u64) -> String>(
    source: &str,
    calculate: &C,
    order: &O,
    show: &S,
) -> (report: Report)
    requires
        forall|calculation: Calculation| calculate.requires((calculation,)),
        forall|a: u64, b: u64| order.requires((a, b)),
        forall|bits: u64| show.requires((bits,)),
    ensures
        forall|
            number: spec_fn(CalculationView) -> u64,
            ordering: spec_fn(u64, u64) -> Order,
            text: spec_fn(u64) -> Seq<char>,
        |
            #![trigger computes(calculate, number), arranges(order, ordering), displays(show, text)]
            computes(calculate, number) && arranges(order, ordering) && displays(show, text)
                ==> report@ == run_report(number, ordering, text, source@),
        forall|
            number: spec_fn(CalculationView) -> u64,
            ordering: spec_fn(u64, u64) -> Order,
            text: spec_fn(u64) -> Seq<char>,
        |
            ends_alike(report@, #[trigger] run_report(number, ordering, text, source@)),
{
    match parse_tree(source) {
        Err(error) => Report::failure(no_line(), &error),
        Ok(tree) => {
            let run = Interpreter::new(tree).run(calculate, order, show);
            match run.outcome {
                Ok(_) => Report::success(run.printed),
                Err(error) => Report::failure(run.printed, &ProgramError::Interpreter(error)),
            }
        },
    }
}

} // verus!
