//! The printer: a tree as text, in prefix form with parentheses.

use crate::token::{rendered, renders};
use crate::tree::expression::{
    Expression, ExpressionKind, ExpressionKindView, ExpressionView, Operation, Primitive,
    PrimitiveView,
};
use crate::tree::statement::{Statement, StatementKind, StatementKindView, StatementView};
use crate::tree::{Tree, TreeView};
use vstd::prelude::*;

verus! {

/// A primitive as text, where `text` writes the value of a number from its
/// digits.
pub open spec fn primitive_text(
    text: spec_fn(Seq<char>) -> Seq<char>,
    primitive: PrimitiveView,
) -> Seq<char> {
    match primitive {
        PrimitiveView::Boolean(value) => if value {
            "true"@
        } else {
            "false"@
        },
        PrimitiveView::Nil => "nil"@,
        PrimitiveView::Number(literal) => text(literal),
        PrimitiveView::String(value) => value,
    }
}

/// An expression as text: a primitive as it is, a group as
/// `(group inside)`, and an operation as its symbol and its operands in
/// parentheses.
pub open spec fn expression_text(
    text: spec_fn(Seq<char>) -> Seq<char>,
    expression: ExpressionView,
) -> Seq<char>
    decreases expression,
{
    match expression.kind {
        ExpressionKindView::Primitive(primitive) => primitive_text(text, primitive),
        ExpressionKindView::Group(inside) => "(group "@ + expression_text(text, *inside) + ")"@,
        ExpressionKindView::Logical { operator, expression: operand } => "("@ + operator.symbol()
            + " "@ + expression_text(text, *operand) + ")"@,
        ExpressionKindView::Arithmetic { operator, a, b } => "("@ + operator.symbol() + " "@
            + expression_text(text, *a) + " "@ + expression_text(text, *b) + ")"@,
        ExpressionKindView::Comparison { operator, a, b } => "("@ + operator.symbol() + " "@
            + expression_text(text, *a) + " "@ + expression_text(text, *b) + ")"@,
    }
}

/// A statement as text.
pub open spec fn statement_text(
    text: spec_fn(Seq<char>) -> Seq<char>,
    statement: StatementView,
) -> Seq<char> {
    match statement.kind {
        StatementKindView::Print(expression) => "(print "@ + expression_text(text, expression)
            + ")"@,
    }
}

/// The statements of a program as text, with a newline between one and the
/// next.
pub open spec fn program_text(
    text: spec_fn(Seq<char>) -> Seq<char>,
    statements: Seq<StatementView>,
) -> Seq<char>
    decreases statements.len(),
{
    if statements.len() == 0 {
        Seq::empty()
    } else if statements.len() == 1 {
        statement_text(text, statements[0])
    } else {
        program_text(text, statements.drop_last()) + "\n"@ + statement_text(
            text,
            statements.last(),
        )
    }
}

/// A tree as text.
pub open spec fn tree_text(text: spec_fn(Seq<char>) -> Seq<char>, tree: TreeView) -> Seq<char> {
    match tree {
        TreeView::Expression(expression) => expression_text(text, expression),
        TreeView::Program(statements) => program_text(text, statements),
        TreeView::Statement(statement) => statement_text(text, statement),
    }
}

/// Appends an expression as text.
pub fn write_expression<R: Fn(&str) -> String>(
    expression: &Expression,
    render: &R,
    output: &mut String,
)
    requires
        forall|written: &str| render.requires((written,)),
    ensures
        forall|text: spec_fn(Seq<char>) -> Seq<char>| #[trigger]
            renders(render, text) ==> final(output)@ == old(output)@ + expression_text(
                text,
                expression@,
            ),
    decreases expression,
{
    match &expression.kind {
        ExpressionKind::Primitive(primitive) => match primitive {
            Primitive::Boolean(value) => {
                if *value {
                    output.append("true");
                } else {
                    output.append("false");
                }
            },
            Primitive::Nil => {
                output.append("nil");
            },
            Primitive::Number(literal) => {
                let written = literal.as_str();
                let value = render(written);
                assert(rendered(render, written, value));
                output.append(value.as_str());
            },
            Primitive::String(value) => {
                output.append(value.as_str());
            },
        },
        ExpressionKind::Operation(operation) => match operation {
            Operation::Group(inside) => {
                output.append("(group ");
                write_expression(inside, render, output);
                output.append(")");
            },
            Operation::Logical { operator, expression: operand } => {
                output.append("(");
                output.append(operator.to_string().as_str());
                output.append(" ");
                write_expression(operand, render, output);
                output.append(")");
            },
            Operation::Arithmetic { operator, a, b } => {
                output.append("(");
                output.append(operator.to_string().as_str());
                output.append(" ");
                write_expression(a, render, output);
                output.append(" ");
                write_expression(b, render, output);
                output.append(")");
            },
            Operation::Comparison { operator, a, b } => {
                output.append("(");
                output.append(operator.to_string().as_str());
                output.append(" ");
                write_expression(a, render, output);
                output.append(" ");
                write_expression(b, render, output);
                output.append(")");
            },
        },
    }
}

/// Appends a statement as text.
pub fn write_statement<R: Fn(&str) -> String>(
    statement: &Statement,
    render: &R,
    output: &mut String,
)
    requires
        forall|written: &str| render.requires((written,)),
    ensures
        forall|text: spec_fn(Seq<char>) -> Seq<char>| #[trigger]
            renders(render, text) ==> final(output)@ == old(output)@ + statement_text(
                text,
                statement@,
            ),
{
    match &statement.kind {
        StatementKind::Print(expression) => {
            output.append("(print ");
            write_expression(expression, render, output);
            output.append(")");
        },
    }
}

/// The printer of one tree.
pub struct Printer<'a> {
    pub tree: &'a Tree,
}

impl<'a> Printer<'a> {
    /// The printer of `tree`.
    pub fn new(tree: &'a Tree) -> (printer: Printer<'a>)
        ensures
            printer.tree == tree,
    {
        Printer { tree }
    }

    /// The tree as text. `render` turns the digits of a number literal into
    /// its value as text.
    pub fn print<R: Fn(&str) -> String>(&self, render: &R) -> (output: String)
        requires
            forall|written: &str| render.requires((written,)),
        ensures
            forall|text: spec_fn(Seq<char>) -> Seq<char>| #[trigger]
                renders(render, text) ==> output@ == tree_text(text, self.tree@),
    {
        let mut output = String::new();
        match self.tree {
            Tree::Expression(expression) => {
                write_expression(expression, render, &mut output);
            },
            Tree::Statement(statement) => {
                write_statement(statement, render, &mut output);
            },
            Tree::Program(statements) => {
                let ghost all = statements.deep_view();
                let mut index: usize = 0;
                while index < statements.len()
                    invariant
                        index <= statements.len(),
                        all == statements.deep_view(),
                        forall|written: &str| render.requires((written,)),
                        forall|text: spec_fn(Seq<char>) -> Seq<char>| #[trigger]
                            renders(render, text) ==> output@ == program_text(
                                text,
                                all.take(index as int),
                            ),
                    decreases statements.len() - index,
                {
                    if index > 0 {
                        output.append("\n");
                    }
                    write_statement(&statements[index], render, &mut output);
                    assert forall|text: spec_fn(Seq<char>) -> Seq<char>| #[trigger]
                        renders(render, text) implies output@ == program_text(
                        text,
                        all.take(index + 1),
                    ) by {
                        assert(all.take(index + 1).drop_last() == all.take(index as int));
                    }
                    index = index + 1;
                }
                assert(all.take(index as int) == all);
            },
        }
        output
    }
}

} // verus!
