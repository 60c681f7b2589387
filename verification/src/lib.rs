//! A tree-walking interpreter for a small scripting language of the Lox
//! family: a scanner, a precedence-climbing parser, a printer of trees and
//! an evaluator, each defined on mathematical sequences and trees and
//! computed by code that is proved to follow the definition.
//!
//! The library reads no file and writes nothing, and it computes with no
//! floating-point number. A number is held as its digits or as the bits of
//! its value, and the caller hands in the arithmetic.

pub mod command;
pub mod environment;
pub mod interpreter;
pub mod parser;
pub mod printer;
pub mod program;
pub mod scanner;
pub mod text;
pub mod token;
pub mod tree;
