//! Tokens: what the scanner hands to the parser.

use crate::text::{spells, string_of};
use vstd::prelude::*;

verus! {

/// What a token is. Identifiers, numbers and strings carry their text; a
/// number carries the digits as they were written, and its value is read
/// from them where it is needed.
#[derive(Debug, Clone, PartialEq, Eq)]
pub enum TokenKind {
    And,
    Bang,
    BangEqual,
    Class,
    Comma,
    Dot,
    Else,
    Eof,
    Equal,
    EqualEqual,
    False,
    For,
    Fun,
    Greater,
    GreaterEqual,
    Identifier { lexeme: String },
    If,
    LeftBrace,
    LeftParenthesis,
    Less,
    LessEqual,
    Minus,
    Nil,
    Number { literal: String },
    Or,
    Plus,
    Print,
    Return,
    RightBrace,
    RightParenthesis,
    Semicolon,
    Slash,
    Star,
    String { value: String },
    Super,
    This,
    True,
    Var,
    While,
}

/// The mathematical model of a [`TokenKind`].
pub enum TokenKindView {
    And,
    Bang,
    BangEqual,
    Class,
    Comma,
    Dot,
    Else,
    Eof,
    Equal,
    EqualEqual,
    False,
    For,
    Fun,
    Greater,
    GreaterEqual,
    Identifier { lexeme: Seq<char> },
    If,
    LeftBrace,
    LeftParenthesis,
    Less,
    LessEqual,
    Minus,
    Nil,
    Number { literal: Seq<char> },
    Or,
    Plus,
    Print,
    Return,
    RightBrace,
    RightParenthesis,
    Semicolon,
    Slash,
    Star,
    String { value: Seq<char> },
    Super,
    This,
    True,
    Var,
    While,
}

impl View for TokenKind {
    type V = TokenKindView;

    open spec fn view(&self) -> TokenKindView {
        match self {
            TokenKind::And => TokenKindView::And,
            TokenKind::Bang => TokenKindView::Bang,
            TokenKind::BangEqual => TokenKindView::BangEqual,
            TokenKind::Class => TokenKindView::Class,
            TokenKind::Comma => TokenKindView::Comma,
            TokenKind::Dot => TokenKindView::Dot,
            TokenKind::Else => TokenKindView::Else,
            TokenKind::Eof => TokenKindView::Eof,
            TokenKind::Equal => TokenKindView::Equal,
            TokenKind::EqualEqual => TokenKindView::EqualEqual,
            TokenKind::False => TokenKindView::False,
            TokenKind::For => TokenKindView::For,
            TokenKind::Fun => TokenKindView::Fun,
            TokenKind::Greater => TokenKindView::Greater,
            TokenKind::GreaterEqual => TokenKindView::GreaterEqual,
            TokenKind::Identifier { lexeme } => TokenKindView::Identifier { lexeme: lexeme@ },
            TokenKind::If => TokenKindView::If,
            TokenKind::LeftBrace => TokenKindView::LeftBrace,
            TokenKind::LeftParenthesis => TokenKindView::LeftParenthesis,
            TokenKind::Less => TokenKindView::Less,
            TokenKind::LessEqual => TokenKindView::LessEqual,
            TokenKind::Minus => TokenKindView::Minus,
            TokenKind::Nil => TokenKindView::Nil,
            TokenKind::Number { literal } => TokenKindView::Number { literal: literal@ },
            TokenKind::Or => TokenKindView::Or,
            TokenKind::Plus => TokenKindView::Plus,
            TokenKind::Print => TokenKindView::Print,
            TokenKind::Return => TokenKindView::Return,
            TokenKind::RightBrace => TokenKindView::RightBrace,
            TokenKind::RightParenthesis => TokenKindView::RightParenthesis,
            TokenKind::Semicolon => TokenKindView::Semicolon,
            TokenKind::Slash => TokenKindView::Slash,
            TokenKind::Star => TokenKindView::Star,
            TokenKind::String { value } => TokenKindView::String { value: value@ },
            TokenKind::Super => TokenKindView::Super,
            TokenKind::This => TokenKindView::This,
            TokenKind::True => TokenKindView::True,
            TokenKind::Var => TokenKindView::Var,
            TokenKind::While => TokenKindView::While,
        }
    }
}

impl DeepView for TokenKind {
    type V = TokenKindView;

    open spec fn deep_view(&self) -> TokenKindView {
        self@
    }
}

/// A token and the line on which its first character stands, counted from 1.
#[derive(Debug, Clone, PartialEq, Eq)]
pub struct Token {
    pub kind: TokenKind,
    pub line: usize,
}

/// The mathematical model of a [`Token`].
pub struct TokenView {
    pub kind: TokenKindView,
    pub line: nat,
}

impl View for Token {
    type V = TokenView;

    open spec fn view(&self) -> TokenView {
        TokenView { kind: self.kind@, line: self.line as nat }
    }
}

impl DeepView for Token {
    type V = TokenView;

    open spec fn deep_view(&self) -> TokenView {
        self@
    }
}

/// The reserved word that `word` spells, if it spells one.
pub open spec fn keyword(word: Seq<char>) -> Option<TokenKindView> {
    if word == "and"@ {
        Some(TokenKindView::And)
    } else if word == "class"@ {
        Some(TokenKindView::Class)
    } else if word == "else"@ {
        Some(TokenKindView::Else)
    } else if word == "false"@ {
        Some(TokenKindView::False)
    } else if word == "for"@ {
        Some(TokenKindView::For)
    } else if word == "fun"@ {
        Some(TokenKindView::Fun)
    } else if word == "if"@ {
        Some(TokenKindView::If)
    } else if word == "nil"@ {
        Some(TokenKindView::Nil)
    } else if word == "or"@ {
        Some(TokenKindView::Or)
    } else if word == "print"@ {
        Some(TokenKindView::Print)
    } else if word == "return"@ {
        Some(TokenKindView::Return)
    } else if word == "super"@ {
        Some(TokenKindView::Super)
    } else if word == "this"@ {
        Some(TokenKindView::This)
    } else if word == "true"@ {
        Some(TokenKindView::True)
    } else if word == "var"@ {
        Some(TokenKindView::Var)
    } else if word == "while"@ {
        Some(TokenKindView::While)
    } else {
        None
    }
}

/// The kind of an identifier-shaped lexeme: the reserved word if it is one,
/// an identifier otherwise.
pub open spec fn word_kind(word: Seq<char>) -> TokenKindView {
    match keyword(word) {
        Some(kind) => kind,
        None => TokenKindView::Identifier { lexeme: word },
    }
}

/// The kind of the identifier-shaped lexeme `characters[from..to]`.
pub(crate) fn classify_word(characters: &Vec<char>, from: usize, to: usize) -> (kind: TokenKind)
    requires
        from <= to <= characters.len(),
    ensures
        kind@ == word_kind(characters@.subrange(from as int, to as int)),
{
    if spells(characters, from, to, "and") {
        TokenKind::And
    } else if spells(characters, from, to, "class") {
        TokenKind::Class
    } else if spells(characters, from, to, "else") {
        TokenKind::Else
    } else if spells(characters, from, to, "false") {
        TokenKind::False
    } else if spells(characters, from, to, "for") {
        TokenKind::For
    } else if spells(characters, from, to, "fun") {
        TokenKind::Fun
    } else if spells(characters, from, to, "if") {
        TokenKind::If
    } else if spells(characters, from, to, "nil") {
        TokenKind::Nil
    } else if spells(characters, from, to, "or") {
        TokenKind::Or
    } else if spells(characters, from, to, "print") {
        TokenKind::Print
    } else if spells(characters, from, to, "return") {
        TokenKind::Return
    } else if spells(characters, from, to, "super") {
        TokenKind::Super
    } else if spells(characters, from, to, "this") {
        TokenKind::This
    } else if spells(characters, from, to, "true") {
        TokenKind::True
    } else if spells(characters, from, to, "var") {
        TokenKind::Var
    } else if spells(characters, from, to, "while") {
        TokenKind::While
    } else {
        TokenKind::Identifier { lexeme: string_of(characters, from, to) }
    }
}

/// The name of the type of a token.
pub open spec fn token_type(kind: TokenKindView) -> Seq<char> {
    match kind {
        TokenKindView::And => "AND"@,
        TokenKindView::Bang => "BANG"@,
        TokenKindView::BangEqual => "BANG_EQUAL"@,
        TokenKindView::Class => "CLASS"@,
        TokenKindView::Comma => "COMMA"@,
        TokenKindView::Dot => "DOT"@,
        TokenKindView::Else => "ELSE"@,
        TokenKindView::Eof => "EOF"@,
        TokenKindView::Equal => "EQUAL"@,
        TokenKindView::EqualEqual => "EQUAL_EQUAL"@,
        TokenKindView::False => "FALSE"@,
        TokenKindView::For => "FOR"@,
        TokenKindView::Fun => "FUN"@,
        TokenKindView::Greater => "GREATER"@,
        TokenKindView::GreaterEqual => "GREATER_EQUAL"@,
        TokenKindView::Identifier { .. } => "IDENTIFIER"@,
        TokenKindView::If => "IF"@,
        TokenKindView::LeftBrace => "LEFT_BRACE"@,
        TokenKindView::LeftParenthesis => "LEFT_PAREN"@,
        TokenKindView::Less => "LESS"@,
        TokenKindView::LessEqual => "LESS_EQUAL"@,
        TokenKindView::Minus => "MINUS"@,
        TokenKindView::Nil => "NIL"@,
        TokenKindView::Number { .. } => "NUMBER"@,
        TokenKindView::Or => "OR"@,
        TokenKindView::Plus => "PLUS"@,
        TokenKindView::Print => "PRINT"@,
        TokenKindView::Return => "RETURN"@,
        TokenKindView::RightBrace => "RIGHT_BRACE"@,
        TokenKindView::RightParenthesis => "RIGHT_PAREN"@,
        TokenKindView::Semicolon => "SEMICOLON"@,
        TokenKindView::Slash => "SLASH"@,
        TokenKindView::Star => "STAR"@,
        TokenKindView::String { .. } => "STRING"@,
        TokenKindView::Super => "SUPER"@,
        TokenKindView::This => "THIS"@,
        TokenKindView::True => "TRUE"@,
        TokenKindView::Var => "VAR"@,
        TokenKindView::While => "WHILE"@,
    }
}

/// The text of a token as it stands in the source; a string with its
/// quotes, the end of the text as nothing.
pub open spec fn token_lexeme(kind: TokenKindView) -> Seq<char> {
    match kind {
        TokenKindView::And => "and"@,
        TokenKindView::Bang => "!"@,
        TokenKindView::BangEqual => "!="@,
        TokenKindView::Class => "class"@,
        TokenKindView::Comma => ","@,
        TokenKindView::Dot => "."@,
        TokenKindView::Else => "else"@,
        TokenKindView::Eof => ""@,
        TokenKindView::Equal => "="@,
        TokenKindView::EqualEqual => "=="@,
        TokenKindView::False => "false"@,
        TokenKindView::For => "for"@,
        TokenKindView::Fun => "fun"@,
        TokenKindView::Greater => ">"@,
        TokenKindView::GreaterEqual => ">="@,
        TokenKindView::Identifier { lexeme } => lexeme,
        TokenKindView::If => "if"@,
        TokenKindView::LeftBrace => "{"@,
        TokenKindView::LeftParenthesis => "("@,
        TokenKindView::Less => "<"@,
        TokenKindView::LessEqual => "<="@,
        TokenKindView::Minus => "-"@,
        TokenKindView::Nil => "nil"@,
        TokenKindView::Number { literal } => literal,
        TokenKindView::Or => "or"@,
        TokenKindView::Plus => "+"@,
        TokenKindView::Print => "print"@,
        TokenKindView::Return => "return"@,
        TokenKindView::RightBrace => "}"@,
        TokenKindView::RightParenthesis => ")"@,
        TokenKindView::Semicolon => ";"@,
        TokenKindView::Slash => "/"@,
        TokenKindView::Star => "*"@,
        TokenKindView::String { value } => "\""@ + value + "\""@,
        TokenKindView::Super => "super"@,
        TokenKindView::This => "this"@,
        TokenKindView::True => "true"@,
        TokenKindView::Var => "var"@,
        TokenKindView::While => "while"@,
    }
}

/// Whether `value` is how `render` writes the number with the digits
/// `written`.
pub open spec fn rendered<R: Fn(&str) -> String>(render: &R, written: &str, value: String) -> bool {
    render.ensures((written,), value)
}

/// Whether `text` is the function that `render` computes: from the digits
/// of a number literal to its value as text.
pub open spec fn renders<R: Fn(&str) -> String>(
    render: &R,
    text: spec_fn(Seq<char>) -> Seq<char>,
) -> bool {
    forall|written: &str, value: String| #[trigger]
        rendered(render, written, value) ==> value@ == text(written@)
}

/// The literal value of a token as text: the characters of a string, the
/// value of a number as `text` writes it, and `null` for every other token.
pub open spec fn token_literal(kind: TokenKindView, text: spec_fn(Seq<char>) -> Seq<char>) -> Seq<
    char,
> {
    match kind {
        TokenKindView::String { value } => value,
        TokenKindView::Number { literal } => text(literal),
        _ => "null"@,
    }
}

/// The line that shows a token: its type, its lexeme and its literal value
/// with one space between them.
pub open spec fn token_text(kind: TokenKindView, text: spec_fn(Seq<char>) -> Seq<char>) -> Seq<
    char,
> {
    token_type(kind) + " "@ + token_lexeme(kind) + " "@ + token_literal(kind, text)
}

impl TokenKind {
    /// A copy of this kind.
    pub fn duplicate(&self) -> (copy: TokenKind)
        ensures
            copy@ == self@,
    {
        match self {
            TokenKind::And => TokenKind::And,
            TokenKind::Bang => TokenKind::Bang,
            TokenKind::BangEqual => TokenKind::BangEqual,
            TokenKind::Class => TokenKind::Class,
            TokenKind::Comma => TokenKind::Comma,
            TokenKind::Dot => TokenKind::Dot,
            TokenKind::Else => TokenKind::Else,
            TokenKind::Eof => TokenKind::Eof,
            TokenKind::Equal => TokenKind::Equal,
            TokenKind::EqualEqual => TokenKind::EqualEqual,
            TokenKind::False => TokenKind::False,
            TokenKind::For => TokenKind::For,
            TokenKind::Fun => TokenKind::Fun,
            TokenKind::Greater => TokenKind::Greater,
            TokenKind::GreaterEqual => TokenKind::GreaterEqual,
            TokenKind::Identifier { lexeme } => TokenKind::Identifier { lexeme: lexeme.clone() },
            TokenKind::If => TokenKind::If,
            TokenKind::LeftBrace => TokenKind::LeftBrace,
            TokenKind::LeftParenthesis => TokenKind::LeftParenthesis,
            TokenKind::Less => TokenKind::Less,
            TokenKind::LessEqual => TokenKind::LessEqual,
            TokenKind::Minus => TokenKind::Minus,
            TokenKind::Nil => TokenKind::Nil,
            TokenKind::Number { literal } => TokenKind::Number { literal: literal.clone() },
            TokenKind::Or => TokenKind::Or,
            TokenKind::Plus => TokenKind::Plus,
            TokenKind::Print => TokenKind::Print,
            TokenKind::Return => TokenKind::Return,
            TokenKind::RightBrace => TokenKind::RightBrace,
            TokenKind::RightParenthesis => TokenKind::RightParenthesis,
            TokenKind::Semicolon => TokenKind::Semicolon,
            TokenKind::Slash => TokenKind::Slash,
            TokenKind::Star => TokenKind::Star,
            TokenKind::String { value } => TokenKind::String { value: value.clone() },
            TokenKind::Super => TokenKind::Super,
            TokenKind::This => TokenKind::This,
            TokenKind::True => TokenKind::True,
            TokenKind::Var => TokenKind::Var,
            TokenKind::While => TokenKind::While,
        }
    }

    /// The name of the type of this token.
    pub fn label(&self) -> (text: String)
        ensures
            text@ == token_type(self@),
    {
        match self {
            TokenKind::And => "AND".to_owned(),
            TokenKind::Bang => "BANG".to_owned(),
            TokenKind::BangEqual => "BANG_EQUAL".to_owned(),
            TokenKind::Class => "CLASS".to_owned(),
            TokenKind::Comma => "COMMA".to_owned(),
            TokenKind::Dot => "DOT".to_owned(),
            TokenKind::Else => "ELSE".to_owned(),
            TokenKind::Eof => "EOF".to_owned(),
            TokenKind::Equal => "EQUAL".to_owned(),
            TokenKind::EqualEqual => "EQUAL_EQUAL".to_owned(),
            TokenKind::False => "FALSE".to_owned(),
            TokenKind::For => "FOR".to_owned(),
            TokenKind::Fun => "FUN".to_owned(),
            TokenKind::Greater => "GREATER".to_owned(),
            TokenKind::GreaterEqual => "GREATER_EQUAL".to_owned(),
            TokenKind::Identifier { .. } => "IDENTIFIER".to_owned(),
            TokenKind::If => "IF".to_owned(),
            TokenKind::LeftBrace => "LEFT_BRACE".to_owned(),
            TokenKind::LeftParenthesis => "LEFT_PAREN".to_owned(),
            TokenKind::Less => "LESS".to_owned(),
            TokenKind::LessEqual => "LESS_EQUAL".to_owned(),
            TokenKind::Minus => "MINUS".to_owned(),
            TokenKind::Nil => "NIL".to_owned(),
            TokenKind::Number { .. } => "NUMBER".to_owned(),
            TokenKind::Or => "OR".to_owned(),
            TokenKind::Plus => "PLUS".to_owned(),
            TokenKind::Print => "PRINT".to_owned(),
            TokenKind::Return => "RETURN".to_owned(),
            TokenKind::RightBrace => "RIGHT_BRACE".to_owned(),
            TokenKind::RightParenthesis => "RIGHT_PAREN".to_owned(),
            TokenKind::Semicolon => "SEMICOLON".to_owned(),
            TokenKind::Slash => "SLASH".to_owned(),
            TokenKind::Star => "STAR".to_owned(),
            TokenKind::String { .. } => "STRING".to_owned(),
            TokenKind::Super => "SUPER".to_owned(),
            TokenKind::This => "THIS".to_owned(),
            TokenKind::True => "TRUE".to_owned(),
            TokenKind::Var => "VAR".to_owned(),
            TokenKind::While => "WHILE".to_owned(),
        }
    }

    /// The text of this token as it stands in the source.
    pub fn lexeme(&self) -> (text: String)
        ensures
            text@ == token_lexeme(self@),
    {
        match self {
            TokenKind::And => "and".to_owned(),
            TokenKind::Bang => "!".to_owned(),
            TokenKind::BangEqual => "!=".to_owned(),
            TokenKind::Class => "class".to_owned(),
            TokenKind::Comma => ",".to_owned(),
            TokenKind::Dot => ".".to_owned(),
            TokenKind::Else => "else".to_owned(),
            TokenKind::Eof => "".to_owned(),
            TokenKind::Equal => "=".to_owned(),
            TokenKind::EqualEqual => "==".to_owned(),
            TokenKind::False => "false".to_owned(),
            TokenKind::For => "for".to_owned(),
            TokenKind::Fun => "fun".to_owned(),
            TokenKind::Greater => ">".to_owned(),
            TokenKind::GreaterEqual => ">=".to_owned(),
            TokenKind::Identifier { lexeme } => lexeme.clone(),
            TokenKind::If => "if".to_owned(),
            TokenKind::LeftBrace => "{".to_owned(),
            TokenKind::LeftParenthesis => "(".to_owned(),
            TokenKind::Less => "<".to_owned(),
            TokenKind::LessEqual => "<=".to_owned(),
            TokenKind::Minus => "-".to_owned(),
            TokenKind::Nil => "nil".to_owned(),
            TokenKind::Number { literal } => literal.clone(),
            TokenKind::Or => "or".to_owned(),
            TokenKind::Plus => "+".to_owned(),
            TokenKind::Print => "print".to_owned(),
            TokenKind::Return => "return".to_owned(),
            TokenKind::RightBrace => "}".to_owned(),
            TokenKind::RightParenthesis => ")".to_owned(),
            TokenKind::Semicolon => ";".to_owned(),
            TokenKind::Slash => "/".to_owned(),
            TokenKind::Star => "*".to_owned(),
            TokenKind::String { value } => {
                let mut text = "\"".to_owned();
                text.append(value.as_str());
                text.append("\"");
                text
            },
            TokenKind::Super => "super".to_owned(),
            TokenKind::This => "this".to_owned(),
            TokenKind::True => "true".to_owned(),
            TokenKind::Var => "var".to_owned(),
            TokenKind::While => "while".to_owned(),
        }
    }

    /// The line that shows this token. `render` turns the digits of a number
    /// literal into its value as text, and is called for a number only.
    pub fn describe<R: Fn(&str) -> String>(&self, render: &R) -> (line: String)
        requires
            forall|written: &str| render.requires((written,)),
        ensures
            forall|text: spec_fn(Seq<char>) -> Seq<char>|
                !(self@ is Number) ==> line@ == #[trigger] token_text(self@, text),
            forall|text: spec_fn(Seq<char>) -> Seq<char>| #[trigger]
                renders(render, text) ==> line@ == token_text(self@, text),
    {
        let mut line = self.label();
        line.append(" ");
        line.append(self.lexeme().as_str());
        line.append(" ");
        match self {
            TokenKind::String { value } => {
                line.append(value.as_str());
            },
            TokenKind::Number { literal } => {
                let written = literal.as_str();
                let value = render(written);
                assert(rendered(render, written, value));
                line.append(value.as_str());
            },
            _ => {
                line.append("null");
            },
        }
        line
    }
}

impl Token {
    /// The token of `kind` whose first character stands on `line`.
    pub fn new(kind: TokenKind, line: usize) -> (token: Token)
        ensures
            token.kind == kind,
            token.line == line,
    {
        Token { kind, line }
    }

    /// A copy of this token.
    pub fn duplicate(&self) -> (copy: Token)
        ensures
            copy@ == self@,
    {
        Token { kind: self.kind.duplicate(), line: self.line }
    }
}

} // verus!
